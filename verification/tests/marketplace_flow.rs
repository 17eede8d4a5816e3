//! Bookings, messaging, reviews, favorites and the catalog, run through
//! full scenarios on the store model.

use mtaalink::auth::{register, CurrentUser, RegisterInput};
use mtaalink::bookings::{
    create_booking, delete_booking, get_booking_by_id, get_bookings_client, get_bookings_received,
    reschedule_booking, update_booking, Booking, BookingQuery, BookingUpdate,
    BookingsQueryByReceiver, ReschedulePayload, UpdateQuery,
};
use mtaalink::errors::ApiError;
use mtaalink::favorites::{add_favorite, get_favorites, remove_favorite, FavoritePayload};
use mtaalink::messages::{
    get_messages, get_target_id, get_unread_messages_count, mark_messages_as_read, send_message,
    MarkReadPayload, MessageQuery, NewMessage, UnreadMessagesCount,
};
use mtaalink::providers::onboard_service_provider;
use mtaalink::providers::ProviderOnboardRequest;
use mtaalink::reviews::{
    create_reviews, get_review_agg_by_id, get_reviews, rank_providers, Review, ReviewQuery,
};
use mtaalink::store::{BookingStatus, Store, TargetType};

const NOW: i64 = 1_700_000_000;

fn reg(username: &str, email: &str, role: &str) -> RegisterInput {
    RegisterInput {
        username: username.to_string(),
        email: email.to_string(),
        password: "hunter2hunter2".to_string(),
        confirm_password: "hunter2hunter2".to_string(),
        role: role.to_string(),
        service_description: Some("fixes leaky plumbing fast".to_string()),
        business_name: Some("Acme Ltd".to_string()),
    }
}

/// A provider user with an onboarded profile, plus a client; returns
/// (provider_user_id, provider_row_id, client_user_id).
fn setup(store: &mut Store) -> (i32, i32, i32) {
    let a = register(store, reg("prov", "prov@mail.com", "provider")).unwrap();
    onboard_service_provider(
        store,
        CurrentUser { user_id: a },
        ProviderOnboardRequest {
            service_name: "Plumbing".to_string(),
            service_description: "fixes leaky plumbing fast".to_string(),
            category: Some("Home".to_string()),
            location: Some("Westside".to_string()),
            phone_number: Some("0700000000".to_string()),
            email: "prov@mail.com".to_string(),
            website: None,
            whatsapp: None,
        },
    )
    .unwrap();
    let pid = get_target_id(store, a, TargetType::Provider).unwrap();
    let b = register(store, reg("cli", "cli@mail.com", "client")).unwrap();
    (a, pid, b)
}

fn booking_payload(pid: i32, when: i64) -> Booking {
    Booking {
        id: 0,
        client_id: 0,
        target_type: "provider".to_string(),
        target_id: pid,
        branch_id: None,
        service_id: None,
        service_description: "fix the sink".to_string(),
        scheduled_time: when,
        status: String::new(),
        duration: None,
        created_at: None,
        updated_at: None,
    }
}

#[test]
fn booking_rejects_past_times_and_taken_slots() {
    let mut store = Store::new();
    let (_a, pid, b) = setup(&mut store);
    let client = CurrentUser { user_id: b };

    let past = create_booking(&mut store, client, booking_payload(pid, NOW - 1), NOW);
    assert_eq!(past, Err(ApiError::Validation));

    let ok = create_booking(&mut store, client, booking_payload(pid, NOW + 3600), NOW);
    assert!(ok.is_ok());

    // The exact slot is taken, for any client.
    let c = register(&mut store, reg("cli2", "cli2@mail.com", "client")).unwrap();
    let taken = create_booking(
        &mut store,
        CurrentUser { user_id: c },
        booking_payload(pid, NOW + 3600),
        NOW,
    );
    assert_eq!(taken, Err(ApiError::Validation));

    // A different time is free.
    let other = create_booking(
        &mut store,
        CurrentUser { user_id: c },
        booking_payload(pid, NOW + 7200),
        NOW,
    );
    assert!(other.is_ok());

    // Target types match in any ASCII case.
    let mixed = create_booking(
        &mut store,
        client,
        Booking { target_type: "Provider".to_string(), ..booking_payload(pid, NOW + 8100) },
        NOW,
    );
    assert!(mixed.is_ok());

    // A missing target is refused.
    let missing = create_booking(&mut store, client, booking_payload(999, NOW + 9000), NOW);
    assert_eq!(missing, Err(ApiError::Validation));
    let bad_type = create_booking(
        &mut store,
        client,
        Booking { target_type: "alien".to_string(), ..booking_payload(pid, NOW + 9000) },
        NOW,
    );
    assert_eq!(bad_type, Err(ApiError::Validation));
}

#[test]
fn booking_lifecycle_follows_the_state_machine() {
    let mut store = Store::new();
    let (a, pid, b) = setup(&mut store);
    let provider = CurrentUser { user_id: a };
    let client = CurrentUser { user_id: b };

    let bid = create_booking(&mut store, client, booking_payload(pid, NOW + 3600), NOW).unwrap();
    let q = UpdateQuery { target_id: pid, target_type: "provider".to_string() };

    // A stranger does not own the target.
    let stranger = CurrentUser { user_id: 999 };
    let denied = update_booking(
        &mut store,
        bid,
        &q,
        stranger,
        &BookingUpdate { status: "confirmed".to_string() },
    );
    assert_eq!(denied, Err(ApiError::Forbidden));

    // pending -> confirmed -> completed.
    update_booking(&mut store, bid, &q, provider, &BookingUpdate { status: "Confirmed".to_string() })
        .unwrap();
    // The update touches the status column alone.
    assert_eq!(store.bookings[0].updated_at, NOW);
    update_booking(&mut store, bid, &q, provider, &BookingUpdate { status: "completed".to_string() })
        .unwrap();

    // completed is terminal: back to pending is a state violation.
    let back = update_booking(
        &mut store,
        bid,
        &q,
        provider,
        &BookingUpdate { status: "pending".to_string() },
    );
    assert_eq!(back, Err(ApiError::Conflict));
    assert!(matches!(store.bookings[0].status, BookingStatus::Completed));

    let bogus = update_booking(
        &mut store,
        bid,
        &q,
        provider,
        &BookingUpdate { status: "sideways".to_string() },
    );
    assert_eq!(bogus, Err(ApiError::Validation));
}

#[test]
fn booking_queries_filter_and_sort() {
    let mut store = Store::new();
    let (_a, pid, b) = setup(&mut store);
    let client = CurrentUser { user_id: b };
    create_booking(&mut store, client, booking_payload(pid, NOW + 3600), NOW).unwrap();
    create_booking(&mut store, client, booking_payload(pid, NOW + 9000), NOW).unwrap();
    create_booking(&mut store, client, booking_payload(pid, NOW + 5000), NOW).unwrap();

    let mine = get_bookings_client(
        &store,
        client,
        &BookingQuery { status: Some("pending".to_string()), target_type: None },
    );
    assert_eq!(mine.len(), 3);
    assert_eq!(mine[0].scheduled_time, NOW + 9000);
    assert_eq!(mine[1].scheduled_time, NOW + 5000);
    assert_eq!(mine[2].scheduled_time, NOW + 3600);

    let none = get_bookings_client(
        &store,
        client,
        &BookingQuery { status: Some("confirmed".to_string()), target_type: None },
    );
    assert_eq!(none.len(), 0);

    let received = get_bookings_received(
        &store,
        CurrentUser { user_id: 1 },
        &BookingsQueryByReceiver {
            target_type: "provider".to_string(),
            target_id: pid,
            status: "pending".to_string(),
        },
    )
    .unwrap();
    assert_eq!(received.len(), 3);
    assert_eq!(received[0].client_name, "cli");
    assert_eq!(received[0].client_email, "cli@mail.com");
    assert_eq!(received[0].service_name, "fix the sink");

    let one = get_booking_by_id(&store, client, mine[0].id).unwrap();
    assert_eq!(one.scheduled_time, NOW + 9000);
}

#[test]
fn reschedule_and_delete_are_client_gated() {
    let mut store = Store::new();
    let (_a, pid, b) = setup(&mut store);
    let client = CurrentUser { user_id: b };
    let bid1 = create_booking(&mut store, client, booking_payload(pid, NOW + 3600), NOW).unwrap();
    let bid2 = create_booking(&mut store, client, booking_payload(pid, NOW + 7200), NOW).unwrap();

    let stranger = CurrentUser { user_id: 999 };
    assert_eq!(
        reschedule_booking(&mut store, bid1, stranger, &ReschedulePayload { scheduled_time: NOW + 9000 }, NOW),
        Err(ApiError::Forbidden)
    );
    assert_eq!(
        reschedule_booking(&mut store, bid1, client, &ReschedulePayload { scheduled_time: NOW - 5 }, NOW),
        Err(ApiError::Validation)
    );
    // Moving onto the other booking's slot trips the store's uniqueness
    // constraint.
    assert_eq!(
        reschedule_booking(&mut store, bid1, client, &ReschedulePayload { scheduled_time: NOW + 7200 }, NOW),
        Err(ApiError::Store)
    );
    assert_eq!(
        reschedule_booking(&mut store, bid1, client, &ReschedulePayload { scheduled_time: NOW + 9000 }, NOW),
        Ok(())
    );
    assert_eq!(store.bookings[0].scheduled_time, NOW + 9000);

    assert_eq!(delete_booking(&mut store, bid2, stranger), Err(ApiError::Forbidden));
    assert_eq!(delete_booking(&mut store, bid2, client), Ok(()));
    assert_eq!(delete_booking(&mut store, bid2, client), Err(ApiError::NotFound));
    assert_eq!(store.bookings.len(), 1);
}

#[test]
fn login_token_decodes_to_the_user() {
    let mut store = Store::new();
    let (_a, _pid, b) = setup(&mut store);
    let session = mtaalink::auth::login_handler(
        &store,
        &mtaalink::auth::LoginRequest {
            email: "cli@mail.com".to_string(),
            password: "hunter2hunter2".to_string(),
        },
        NOW as u64,
        "a-test-signing-key",
    )
    .unwrap();
    let claims = mtaalink::tokens::decode_jwt(&session.token, "a-test-signing-key", NOW as u64)
        .unwrap();
    assert_eq!(claims.sub, b as u64);
}

#[test]
fn unread_count_drops_after_mark_read() {
    let mut store = Store::new();
    let (a, pid, b) = setup(&mut store);

    let mid = send_message(
        &mut store,
        CurrentUser { user_id: b },
        NewMessage {
            content: "hello there".to_string(),
            target_type: "provider".to_string(),
            target_id: pid,
            receiver_id: pid,
            },
        NOW,
    )
    .unwrap();

    let count = get_unread_messages_count(
        &store,
        CurrentUser { user_id: a },
        &UnreadMessagesCount { target_type: "provider".to_string() },
    )
    .unwrap();
    assert_eq!(count, 1);

    mark_messages_as_read(
        &mut store,
        CurrentUser { user_id: a },
        &MarkReadPayload {
            target_type: "provider".to_string(),
            target_id: pid,
            sender_id: b,
            message_ids: vec![mid],
        },
        NOW + 5,
    )
    .unwrap();

    let count = get_unread_messages_count(
        &store,
        CurrentUser { user_id: a },
        &UnreadMessagesCount { target_type: "provider".to_string() },
    )
    .unwrap();
    assert_eq!(count, 0);

    // Marking again is harmless.
    mark_messages_as_read(
        &mut store,
        CurrentUser { user_id: a },
        &MarkReadPayload {
            target_type: "provider".to_string(),
            target_id: pid,
            sender_id: b,
            message_ids: vec![mid],
        },
        NOW + 9,
    )
    .unwrap();
    assert_eq!(store.messages[0].read_at, Some(NOW + 5));

    let page = get_messages(
        &store,
        &MessageQuery {
            target_type: "provider".to_string(),
            target_id: pid,
            with_user: b,
            page: Some(1),
            limit: Some(10),
        },
        CurrentUser { user_id: a },
    )
    .unwrap();
    assert_eq!(page.len(), 1);
    assert_eq!(page[0].content, "hello there");

    // A caller with no target identity is refused.
    let denied = get_unread_messages_count(
        &store,
        CurrentUser { user_id: b },
        &UnreadMessagesCount { target_type: "provider".to_string() },
    );
    assert_eq!(denied, Err(ApiError::Forbidden));
}

#[test]
fn reviews_need_interaction_and_refuse_duplicates() {
    let mut store = Store::new();
    let (_a, pid, b) = setup(&mut store);
    let q = ReviewQuery { target_type: "provider".to_string(), target_id: pid };

    // No interaction yet: forbidden.
    let early = create_reviews(
        &mut store,
        &q,
        CurrentUser { user_id: b },
        Review { comment: "great work".to_string(), rating: 5 },
        NOW,
    );
    assert_eq!(early, Err(ApiError::Forbidden));

    send_message(
        &mut store,
        CurrentUser { user_id: b },
        NewMessage {
            content: "hi".to_string(),
            target_type: "provider".to_string(),
            target_id: pid,
            receiver_id: pid,
        },
        NOW,
    )
    .unwrap();

    let ok = create_reviews(
        &mut store,
        &q,
        CurrentUser { user_id: b },
        Review { comment: "great work".to_string(), rating: 5 },
        NOW + 1,
    );
    assert!(ok.is_ok());

    let dup = create_reviews(
        &mut store,
        &q,
        CurrentUser { user_id: b },
        Review { comment: "changed my mind".to_string(), rating: 1 },
        NOW + 2,
    );
    assert_eq!(dup, Err(ApiError::Conflict));

    // A duplicate is a conflict whatever the rating carries; the range
    // is not validated, as the schema's column holds any integer.
    let dup_odd_rating = create_reviews(
        &mut store,
        &q,
        CurrentUser { user_id: b },
        Review { comment: "zero stars".to_string(), rating: 0 },
        NOW + 3,
    );
    assert_eq!(dup_odd_rating, Err(ApiError::Conflict));

    let missing_target = create_reviews(
        &mut store,
        &ReviewQuery { target_type: "provider".to_string(), target_id: 777 },
        CurrentUser { user_id: b },
        Review { comment: "ok".to_string(), rating: 3 },
        NOW + 4,
    );
    assert_eq!(missing_target, Err(ApiError::NotFound));

    let listed = get_reviews(&store, &q).unwrap();
    assert_eq!(listed.len(), 1);
    assert_eq!(listed[0].rating, 5);
    assert_eq!(listed[0].comment, "great work");
}

#[test]
fn aggregate_of_ratings_four_and_five_is_four_point_five() {
    let mut store = Store::new();
    let (_a, pid, b) = setup(&mut store);
    let c = register(&mut store, reg("cli2", "cli2@mail.com", "client")).unwrap();
    let q = ReviewQuery { target_type: "provider".to_string(), target_id: pid };

    for (user, rating) in [(b, 4), (c, 5)] {
        send_message(
            &mut store,
            CurrentUser { user_id: user },
            NewMessage {
                content: "hi".to_string(),
                target_type: "provider".to_string(),
                target_id: pid,
                receiver_id: pid,
            },
            NOW,
        )
        .unwrap();
        create_reviews(
            &mut store,
            &q,
            CurrentUser { user_id: user },
            Review { comment: "nice".to_string(), rating },
            NOW + user as i64,
        )
        .unwrap();
    }

    let agg = get_review_agg_by_id(&store, &q).unwrap();
    assert_eq!(agg.review_count, 2);
    // 4.5 stars, held as hundredths.
    assert_eq!(agg.average_rating, 450);

    let empty = get_review_agg_by_id(
        &store,
        &ReviewQuery { target_type: "business".to_string(), target_id: 1 },
    )
    .unwrap();
    assert_eq!(empty.review_count, 0);
    assert_eq!(empty.average_rating, 0);

    let ranked = rank_providers(&store);
    assert_eq!(ranked.len(), 1);
    assert_eq!(ranked[0].target_id, pid);
    assert_eq!(ranked[0].average_rating, 450);
}

#[test]
fn aggregate_handles_out_of_range_and_negative_ratings() {
    let mut store = Store::new();
    let (_a, pid, b) = setup(&mut store);
    let c = register(&mut store, reg("cli2", "cli2@mail.com", "client")).unwrap();
    let q = ReviewQuery { target_type: "provider".to_string(), target_id: pid };

    // Ratings are stored as given: the schema's column holds any integer.
    for (user, rating) in [(b, -3), (c, 10)] {
        send_message(
            &mut store,
            CurrentUser { user_id: user },
            NewMessage {
                content: "hi".to_string(),
                target_type: "provider".to_string(),
                target_id: pid,
                receiver_id: pid,
            },
            NOW,
        )
        .unwrap();
        create_reviews(
            &mut store,
            &q,
            CurrentUser { user_id: user },
            Review { comment: "noted".to_string(), rating },
            NOW + user as i64,
        )
        .unwrap();
    }

    let agg = get_review_agg_by_id(&store, &q).unwrap();
    assert_eq!(agg.review_count, 2);
    // mean 3.5 stars, in hundredths.
    assert_eq!(agg.average_rating, 350);

    // A wholly negative tally rounds half away from zero.
    store.reviews[0].rating = -4;
    store.reviews[1].rating = -3;
    let neg = get_review_agg_by_id(&store, &q).unwrap();
    assert_eq!(neg.average_rating, -350);
}

#[test]
fn adding_a_favorite_twice_leaves_one_row() {
    let mut store = Store::new();
    let (_a, pid, b) = setup(&mut store);
    let payload = FavoritePayload { target_type: "provider".to_string(), target_id: pid };
    let user = CurrentUser { user_id: b };

    add_favorite(&mut store, user, &payload, NOW).unwrap();
    add_favorite(&mut store, user, &payload, NOW + 5).unwrap();
    assert_eq!(store.favorites.len(), 1);

    let mine = get_favorites(&store, user);
    assert_eq!(mine.len(), 1);
    assert_eq!(mine[0].target_id, pid);
    assert_eq!(mine[0].target_type, "provider");

    remove_favorite(&mut store, pid, user).unwrap();
    assert_eq!(store.favorites.len(), 0);
    remove_favorite(&mut store, pid, user).unwrap();

    let bad = add_favorite(
        &mut store,
        user,
        &FavoritePayload { target_type: "alien".to_string(), target_id: pid },
        NOW,
    );
    assert_eq!(bad, Err(ApiError::Validation));
}
