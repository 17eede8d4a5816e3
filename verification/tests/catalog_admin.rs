//! Categories, the admin endpoints, the service catalog, profiles, posts,
//! locations and attachments.

use mtaalink::admin::{
    create_category, create_parent_category, delete_category, delete_user, get_users,
    DeleteCategoryParams, DeleteUserParams, NewCategory, NewParentCategory,
};
use mtaalink::attachments::{
    get_attachments, upload_attachments, AttachmentParams, AttachmentQuery, UploadedFile,
};
use mtaalink::auth::{register, CurrentUser, RegisterInput};
use mtaalink::businesses::{
    list_businesses, onboard_business, update_business_profile, upload_business_logo,
    BusinessOnboardRequest, BusinessQuery, BusinessUpdateRequest,
};
use mtaalink::categories::{
    assign_categories, get_businesses_by_category, get_categories, get_providers_by_category,
    get_subcategories_by_category_id, BusinessWQueryResponse, CategoryAssignment,
    ProviderWQueryResponse,
};
use mtaalink::errors::ApiError;
use mtaalink::locations::{
    create_branch_location, get_branch_locations, get_constituencies_by_county,
    get_locations_counties, get_wards_by_constituency, search_business_or_provider_by_location,
    seed_constituency, seed_county, seed_ward, BusinessBranchLocation, SearchLocation,
};
use mtaalink::messages::get_target_id;
use mtaalink::posts::{
    create_posts, delete_post, get_All_posts, get_post_by_id, get_posts_by_provider_id,
    update_post_and_attachments, CreatPost, PostQuery, UpdatePost,
};
use mtaalink::providers::{
    get_provider_availability, list_providers, update_bulk_availability,
    update_provider_availability, update_provider_profile, AvailabilityItem,
    BulkAvailabilityUpdate, ProviderAvailabilty, ProviderOnboardRequest, ProviderQuery,
    UpdateProviderProfileRequest,
};
use mtaalink::services::{
    create_service, delete_service, edit_service, get_services, CreateServiceParams,
    DeleteServiceParams, EditServiceParams, GetServicesParams,
};
use mtaalink::store::{Store, TargetType};

const NOW: i64 = 1_700_000_000;

fn reg(username: &str, email: &str, role: &str) -> RegisterInput {
    RegisterInput {
        username: username.to_string(),
        email: email.to_string(),
        password: "hunter2hunter2".to_string(),
        confirm_password: "hunter2hunter2".to_string(),
        role: role.to_string(),
        service_description: Some("fixes leaky plumbing fast".to_string()),
        business_name: Some("Acme Ltd".to_string()),
    }
}

#[test]
fn child_categories_resolve_their_parent_name() {
    let mut store = Store::new();
    let home = create_category(
        &mut store,
        NewCategory { name: "Home".to_string(), parent_id: None },
    )
    .unwrap();
    let _cleaning = create_category(
        &mut store,
        NewCategory { name: "Cleaning".to_string(), parent_id: Some(home) },
    )
    .unwrap();

    let all = get_categories(&store);
    assert_eq!(all.len(), 2);
    assert_eq!(all[0].category_name, "Home");
    assert_eq!(all[0].parent_name, None);
    assert_eq!(all[1].category_name, "Cleaning");
    assert_eq!(all[1].parent_id, Some(home));
    assert_eq!(all[1].parent_name.as_deref(), Some("Home"));

    let children = get_subcategories_by_category_id(&store, home);
    assert_eq!(children.len(), 1);
    assert_eq!(children[0].name, "Cleaning");

    let too_long = create_category(
        &mut store,
        NewCategory { name: "x".repeat(101), parent_id: None },
    );
    assert_eq!(too_long, Err(ApiError::Validation));
}

#[test]
fn parent_and_child_creation_reuses_an_existing_parent() {
    let mut store = Store::new();
    let c1 = create_parent_category(
        &mut store,
        NewParentCategory {
            subcategory_name: "Cleaning".to_string(),
            parent_category_name: "Home".to_string(),
        },
    )
    .unwrap();
    assert_eq!(store.categories.len(), 2);
    let c2 = create_parent_category(
        &mut store,
        NewParentCategory {
            subcategory_name: "Repairs".to_string(),
            parent_category_name: "Home".to_string(),
        },
    )
    .unwrap();
    assert_eq!(store.categories.len(), 3);
    assert_ne!(c1, c2);
    // Both children point at the same parent.
    let parent_id = store.categories[0].id;
    assert_eq!(store.categories[1].parent_id, Some(parent_id));
    assert_eq!(store.categories[2].parent_id, Some(parent_id));

    delete_category(&mut store, &DeleteCategoryParams { category_id: c2 }).unwrap();
    assert_eq!(store.categories.len(), 2);
    delete_category(&mut store, &DeleteCategoryParams { category_id: 999 }).unwrap();
    assert_eq!(store.categories.len(), 2);
}

#[test]
fn users_are_listed_newest_first_and_deletable() {
    let mut store = Store::new();
    register(&mut store, reg("first", "first@mail.com", "client")).unwrap();
    let second = register(&mut store, reg("second", "second@mail.com", "provider")).unwrap();
    let users = get_users(&store);
    assert_eq!(users.len(), 2);
    assert_eq!(users[0].username, "second");
    assert_eq!(users[0].role, "provider");
    assert_eq!(users[1].username, "first");

    delete_user(&mut store, &DeleteUserParams { user_id: second }).unwrap();
    assert_eq!(store.users.len(), 1);
    assert_eq!(store.users[0].username, "first");
}

#[test]
fn category_assignment_replaces_the_old_set() {
    let mut store = Store::new();
    let a = register(&mut store, reg("prov", "prov@mail.com", "provider")).unwrap();
    let pid = get_target_id(&store, a, TargetType::Provider).unwrap();
    assign_categories(
        &mut store,
        &CategoryAssignment {
            target_id: pid,
            target_type: "provider".to_string(),
            category_ids: vec![10, 11],
        },
    )
    .unwrap();
    assert_eq!(store.provider_categories.len(), 2);
    assign_categories(
        &mut store,
        &CategoryAssignment {
            target_id: pid,
            target_type: "provider".to_string(),
            category_ids: vec![12],
        },
    )
    .unwrap();
    assert_eq!(store.provider_categories.len(), 1);
    assert_eq!(store.provider_categories[0].category_id, 12);

    let empty = assign_categories(
        &mut store,
        &CategoryAssignment {
            target_id: pid,
            target_type: "provider".to_string(),
            category_ids: vec![],
        },
    );
    assert_eq!(empty, Err(ApiError::Validation));
}

#[test]
fn services_are_owner_gated_and_patchable() {
    let mut store = Store::new();
    let a = register(&mut store, reg("prov", "prov@mail.com", "provider")).unwrap();
    let pid = get_target_id(&store, a, TargetType::Provider).unwrap();
    let b = register(&mut store, reg("cli", "cli@mail.com", "client")).unwrap();

    let denied = create_service(
        &mut store,
        CurrentUser { user_id: b },
        CreateServiceParams {
            target_id: pid,
            target_type: "provider".to_string(),
            title: "Unclogging".to_string(),
            description: "drains".to_string(),
            price_cents: 12_50,
            duration: 45,
            category_id: None,
            is_active: true,
        },
        NOW,
    );
    assert_eq!(denied, Err(ApiError::Forbidden));

    let sid = create_service(
        &mut store,
        CurrentUser { user_id: a },
        CreateServiceParams {
            target_id: pid,
            target_type: "provider".to_string(),
            title: "Unclogging".to_string(),
            description: "drains".to_string(),
            price_cents: 12_50,
            duration: 45,
            category_id: None,
            is_active: true,
        },
        NOW,
    )
    .unwrap();

    let listed = get_services(
        &store,
        &GetServicesParams {
            provider_id: None,
            target_id: Some(pid),
            target_type: Some("provider".to_string()),
            category_id: None,
            is_active: Some(true),
        },
    );
    assert_eq!(listed.len(), 1);
    assert_eq!(listed[0].price_cents, 1250);

    edit_service(
        &mut store,
        CurrentUser { user_id: a },
        &EditServiceParams {
            service_id: sid,
            title: None,
            description: None,
            price_cents: Some(15_00),
            duration: None,
            category_id: None,
            is_active: None,
            target_id: pid,
            target_type: "provider".to_string(),
        },
    )
    .unwrap();
    assert_eq!(store.services[0].price_cents, 1500);
    assert_eq!(store.services[0].title, "Unclogging");

    let denied = delete_service(
        &mut store,
        CurrentUser { user_id: b },
        &DeleteServiceParams { service_id: sid },
    );
    assert_eq!(denied, Err(ApiError::Forbidden));
    delete_service(&mut store, CurrentUser { user_id: a }, &DeleteServiceParams { service_id: sid })
        .unwrap();
    assert_eq!(store.services.len(), 0);
}

#[test]
fn provider_profile_patches_and_listing() {
    let mut store = Store::new();
    let a = register(&mut store, reg("prov", "prov@mail.com", "provider")).unwrap();
    let me = CurrentUser { user_id: a };

    let empty = update_provider_profile(
        &mut store,
        me,
        &UpdateProviderProfileRequest {
            service_name: None,
            service_description: None,
            location: None,
            phone_number: None,
            email: None,
            website: None,
            whatsapp: None,
        },
    );
    assert_eq!(empty, Err(ApiError::Validation));

    update_provider_profile(
        &mut store,
        me,
        &UpdateProviderProfileRequest {
            service_name: Some("Plumbing Plus".to_string()),
            service_description: None,
            location: Some("Eastside".to_string()),
            phone_number: None,
            email: None,
            website: None,
            whatsapp: None,
        },
    )
    .unwrap();
    assert_eq!(store.providers[0].service_name.as_deref(), Some("Plumbing Plus"));
    assert_eq!(store.providers[0].location.as_deref(), Some("Eastside"));
    // Untouched fields stay.
    assert_eq!(store.providers[0].service_description.as_deref(), Some("fixes leaky plumbing fast"));

    let all = list_providers(&store, &ProviderQuery { category: None, location: None });
    assert_eq!(all.len(), 1);
    let miss = list_providers(
        &store,
        &ProviderQuery { category: None, location: Some("Westside".to_string()) },
    );
    assert_eq!(miss.len(), 0);
}

#[test]
fn availability_upserts_per_day() {
    let mut store = Store::new();
    let a = register(&mut store, reg("prov", "prov@mail.com", "provider")).unwrap();
    let pid = get_target_id(&store, a, TargetType::Provider).unwrap();
    let me = CurrentUser { user_id: a };

    // The endpoint compares the payload's provider id to the caller's
    // user id.
    let denied = update_provider_availability(
        &mut store,
        me,
        &ProviderAvailabilty {
            provider_id: pid + 100,
            is_available: true,
            day: "monday".to_string(),
            start_time: "09:00".to_string(),
            end_time: "17:00".to_string(),
        },
    );
    assert_eq!(denied, Err(ApiError::Forbidden));

    // The caller's own id is accepted only when a provider row bears it;
    // here the provider row id differs from the user id, so it is absent.
    let missing = update_provider_availability(
        &mut store,
        me,
        &ProviderAvailabilty {
            provider_id: a,
            is_available: true,
            day: "monday".to_string(),
            start_time: "09:00".to_string(),
            end_time: "17:00".to_string(),
        },
    );
    assert_eq!(missing, Err(ApiError::NotFound));

    let (updated, created) = update_bulk_availability(
        &mut store,
        me,
        &BulkAvailabilityUpdate {
            availability: vec![
                AvailabilityItem {
                    id: None,
                    day: "monday".to_string(),
                    start_time: "09:00".to_string(),
                    end_time: "17:00".to_string(),
                    is_available: true,
                },
                AvailabilityItem {
                    id: None,
                    day: "monday".to_string(),
                    start_time: "10:00".to_string(),
                    end_time: "16:00".to_string(),
                    is_available: true,
                },
                AvailabilityItem {
                    id: None,
                    day: "tuesday".to_string(),
                    start_time: "09:00".to_string(),
                    end_time: "12:00".to_string(),
                    is_available: false,
                },
            ],
        },
    )
    .unwrap();
    assert_eq!(created, 2);
    assert_eq!(updated, 1);

    let rows = get_provider_availability(&store, me).unwrap();
    assert_eq!(rows.len(), 2);
    assert_eq!(rows[0].day, "monday");
    assert_eq!(rows[0].start_time, "10:00");

    // With a provider row bearing the caller's own id, the single-day
    // endpoint upserts: calling twice leaves one row for the day.
    store.providers[0].id = a;
    let wednesday = |start: &str| ProviderAvailabilty {
        provider_id: a,
        is_available: true,
        day: "wednesday".to_string(),
        start_time: start.to_string(),
        end_time: "18:00".to_string(),
    };
    let first = update_provider_availability(&mut store, me, &wednesday("08:00")).unwrap();
    assert!(first);
    let second = update_provider_availability(&mut store, me, &wednesday("09:30")).unwrap();
    assert!(!second);
    let wednesdays: Vec<_> =
        store.availability.iter().filter(|r| r.day == "wednesday").collect();
    assert_eq!(wednesdays.len(), 1);
    assert_eq!(wednesdays[0].start_time, "09:30");
}

#[test]
fn business_onboarding_listing_and_patch() {
    let mut store = Store::new();
    let owner = register(&mut store, reg("biz", "biz@mail.com", "business")).unwrap();
    onboard_business(
        &mut store,
        CurrentUser { user_id: owner },
        BusinessOnboardRequest {
            business_name: "Acme Cleaning".to_string(),
            description: "we clean everything".to_string(),
            category: Some("Home".to_string()),
            location: Some("Westside".to_string()),
            license_number: "L-123".to_string(),
            krapin: "A0123456789".to_string(),
            phone_number: "0711111111".to_string(),
            email: "biz@mail.com".to_string(),
            website: None,
            whatsapp: None,
        },
    )
    .unwrap();

    let client = register(&mut store, reg("cli", "cli@mail.com", "client")).unwrap();
    let found = list_businesses(
        &store,
        &BusinessQuery {
            category: None,
            business_name: Some("Cleaning".to_string()),
            location: None,
        },
        CurrentUser { user_id: client },
    )
    .unwrap();
    assert_eq!(found.len(), 1);
    assert_eq!(found[0].business_name.as_deref(), Some("Acme Cleaning"));

    // A business caller may not browse the listing.
    let denied = list_businesses(
        &store,
        &BusinessQuery { category: None, business_name: None, location: None },
        CurrentUser { user_id: owner },
    );
    assert_eq!(denied.err(), Some(ApiError::Forbidden));

    update_business_profile(
        &mut store,
        CurrentUser { user_id: owner },
        &BusinessUpdateRequest {
            description: Some("we clean everything, fast".to_string()),
            phone_number: None,
            email: None,
            website: Some("acme.example".to_string()),
            whatsapp: None,
        },
    )
    .unwrap();
    assert_eq!(store.businesses[0].description.as_deref(), Some("we clean everything, fast"));

    upload_business_logo(&mut store, CurrentUser { user_id: owner }, "logos/acme.png".to_string())
        .unwrap();
    assert_eq!(store.businesses[0].logo.as_deref(), Some("logos/acme.png"));
}

#[test]
fn posts_are_role_gated_with_bounded_attachments() {
    let mut store = Store::new();
    let prov = register(&mut store, reg("prov", "prov@mail.com", "provider")).unwrap();
    let pid = get_target_id(&store, prov, TargetType::Provider).unwrap();
    let client = register(&mut store, reg("cli", "cli@mail.com", "client")).unwrap();

    let denied = create_posts(
        &mut store,
        CurrentUser { user_id: client },
        CreatPost {
            title: "Hello".to_string(),
            content: "first post".to_string(),
            business_id: None,
            provider_id: Some(pid),
        },
        NOW,
    );
    assert_eq!(denied, Err(ApiError::Forbidden));

    let post_id = create_posts(
        &mut store,
        CurrentUser { user_id: prov },
        CreatPost {
            title: "Hello".to_string(),
            content: "first post".to_string(),
            business_id: None,
            provider_id: Some(pid),
        },
        NOW,
    )
    .unwrap();

    let feed = get_All_posts(&store, &PostQuery { business_id: None, provider_id: None });
    assert_eq!(feed.len(), 1);
    assert_eq!(get_posts_by_provider_id(&store, pid).len(), 1);
    assert_eq!(get_post_by_id(&store, post_id).unwrap().title, "Hello");

    let too_many = update_post_and_attachments(
        &mut store,
        post_id,
        CurrentUser { user_id: prov },
        &UpdatePost {
            title: None,
            content: None,
            business_id: None,
            provider_id: None,
            updated_by: prov,
            attachments: vec!["a".into(), "b".into(), "c".into(), "d".into(), "e".into(), "f".into()],
        },
        NOW + 5,
    );
    assert_eq!(too_many, Err(ApiError::Validation));

    update_post_and_attachments(
        &mut store,
        post_id,
        CurrentUser { user_id: prov },
        &UpdatePost {
            title: Some("Hello again".to_string()),
            content: None,
            business_id: None,
            provider_id: None,
            updated_by: prov,
            attachments: vec!["img/one.png".to_string(), "img/two.png".to_string()],
        },
        NOW + 5,
    )
    .unwrap();
    assert_eq!(store.posts[0].title, "Hello again");
    assert_eq!(store.posts[0].content, "first post");
    assert_eq!(store.attachments.len(), 2);
    assert_eq!(store.attachments[0].file_path, "img/one.png");

    delete_post(&mut store, post_id, CurrentUser { user_id: prov }).unwrap();
    assert_eq!(store.posts.len(), 0);
}

#[test]
fn location_lookups_follow_the_hierarchy() {
    let mut store = Store::new();
    let county = seed_county(&mut store, "Coast".to_string());
    let constituency = seed_constituency(&mut store, county, "Island".to_string());
    let ward = seed_ward(&mut store, constituency, "Harbour".to_string());

    assert_eq!(get_locations_counties(&store).len(), 1);
    let cs = get_constituencies_by_county(&store, county);
    assert_eq!(cs.len(), 1);
    assert_eq!(cs[0].name, "Island");
    let ws = get_wards_by_constituency(&store, constituency);
    assert_eq!(ws.len(), 1);
    assert_eq!(ws[0].name, "Harbour");

    let biz = register(&mut store, reg("biz", "biz@mail.com", "business")).unwrap();
    let bid = get_target_id(&store, biz, TargetType::Business).unwrap();
    create_branch_location(
        &mut store,
        CurrentUser { user_id: biz },
        BusinessBranchLocation {
            id: 0,
            business_id: bid,
            name: "Harbour branch".to_string(),
            latitude_micro: -1_286_389,
            longitude_micro: 36_817_223,
            ward_id: ward,
            phone: "0712345678".to_string(),
            address: "1 Pier Road".to_string(),
        },
        NOW,
    )
    .unwrap();
    let branches = get_branch_locations(&store, bid);
    assert_eq!(branches.len(), 1);
    assert_eq!(branches[0].latitude_micro, -1_286_389);

    // The area search finds the business through its branch's ward,
    // constituency and county, and misses elsewhere.
    let hit = search_business_or_provider_by_location(
        &store,
        &SearchLocation {
            county_id: Some(county),
            constituency_id: None,
            ward_id: None,
            target_type: "business".to_string(),
        },
    )
    .unwrap();
    assert_eq!(hit, vec![bid]);
    let by_ward = search_business_or_provider_by_location(
        &store,
        &SearchLocation {
            county_id: None,
            constituency_id: Some(constituency),
            ward_id: Some(ward),
            target_type: "business".to_string(),
        },
    )
    .unwrap();
    assert_eq!(by_ward, vec![bid]);
    let miss = search_business_or_provider_by_location(
        &store,
        &SearchLocation {
            county_id: None,
            constituency_id: None,
            ward_id: Some(ward + 100),
            target_type: "business".to_string(),
        },
    )
    .unwrap();
    assert_eq!(miss.len(), 0);
    let providers = search_business_or_provider_by_location(
        &store,
        &SearchLocation {
            county_id: None,
            constituency_id: None,
            ward_id: None,
            target_type: "provider".to_string(),
        },
    )
    .unwrap();
    assert_eq!(providers.len(), 0);
    let bad = search_business_or_provider_by_location(
        &store,
        &SearchLocation {
            county_id: None,
            constituency_id: None,
            ward_id: None,
            target_type: "everything".to_string(),
        },
    );
    assert_eq!(bad, Err(ApiError::Validation));
}

#[test]
fn attachments_classify_by_extension_and_skip_unsupported() {
    let mut store = Store::new();
    let prov = register(&mut store, reg("prov", "prov@mail.com", "provider")).unwrap();
    let pid = get_target_id(&store, prov, TargetType::Provider).unwrap();
    let params = AttachmentParams {
        target_type: "provider".to_string(),
        target_id: pid,
        uploaded_by: prov,
    };
    let files = vec![
        UploadedFile {
            file_name: "a.png".to_string(),
            file_path: "attachments/a.png".to_string(),
            extension: "png".to_string(),
            size: 120,
        },
        UploadedFile {
            file_name: "b.exe".to_string(),
            file_path: "attachments/b.exe".to_string(),
            extension: "exe".to_string(),
            size: 10,
        },
        UploadedFile {
            file_name: "c.mp4".to_string(),
            file_path: "attachments/c.mp4".to_string(),
            extension: "mp4".to_string(),
            size: 9000,
        },
    ];
    upload_attachments(&mut store, &params, CurrentUser { user_id: prov }, files, NOW).unwrap();
    assert_eq!(store.attachments.len(), 2);
    assert_eq!(store.attachments[0].file_type, "image");
    assert_eq!(store.attachments[1].file_type, "video");

    let listed = get_attachments(
        &store,
        &AttachmentQuery { target_type: "provider".to_string(), target_id: pid },
    );
    assert_eq!(listed.len(), 2);

    let empty_file = vec![UploadedFile {
        file_name: "empty.png".to_string(),
        file_path: "attachments/empty.png".to_string(),
        extension: "png".to_string(),
        size: 0,
    }];
    let refused = upload_attachments(
        &mut store,
        &params,
        CurrentUser { user_id: prov },
        empty_file,
        NOW,
    );
    assert_eq!(refused, Err(ApiError::Validation));
    assert_eq!(store.attachments.len(), 2);
}

#[test]
fn onboarding_is_an_upsert_gated_by_role() {
    let payload = || ProviderOnboardRequest {
        service_name: "Plumbing".to_string(),
        service_description: "fixes leaky plumbing fast".to_string(),
        category: None,
        location: None,
        phone_number: None,
        email: "p@mail.com".to_string(),
        website: None,
        whatsapp: None,
    };
    let mut store = Store::new();

    // An unknown caller may not onboard.
    let unknown = mtaalink::providers::onboard_service_provider(
        &mut store,
        CurrentUser { user_id: 7 },
        payload(),
    );
    assert_eq!(unknown, Err(ApiError::Forbidden));

    // A client may not onboard a provider profile.
    let c = register(&mut store, reg("cli", "cli@mail.com", "client")).unwrap();
    let cross_role = mtaalink::providers::onboard_service_provider(
        &mut store,
        CurrentUser { user_id: c },
        payload(),
    );
    assert_eq!(cross_role, Err(ApiError::Forbidden));

    // A provider-role caller whose row is absent gets a fresh one.
    let p = register(&mut store, reg("prov", "prov@mail.com", "provider")).unwrap();
    store.providers.clear();
    let created = mtaalink::providers::onboard_service_provider(
        &mut store,
        CurrentUser { user_id: p },
        payload(),
    )
    .unwrap();
    assert_eq!(store.providers.len(), 1);
    assert_eq!(store.providers[0].id, created);
    assert_eq!(store.providers[0].user_id, p);
    assert_eq!(store.providers[0].service_name.as_deref(), Some("Plumbing"));

    // Onboarding again updates the same row in place.
    let again = mtaalink::providers::onboard_service_provider(
        &mut store,
        CurrentUser { user_id: p },
        ProviderOnboardRequest { service_name: "Plumbing Plus".to_string(), ..payload() },
    )
    .unwrap();
    assert_eq!(again, created);
    assert_eq!(store.providers.len(), 1);
    assert_eq!(store.providers[0].service_name.as_deref(), Some("Plumbing Plus"));
}

#[test]
fn by_category_queries_join_the_tree() {
    let mut store = Store::new();
    let home = create_category(&mut store, NewCategory { name: "Home".to_string(), parent_id: None })
        .unwrap();
    let cleaning = create_category(
        &mut store,
        NewCategory { name: "Cleaning".to_string(), parent_id: Some(home) },
    )
    .unwrap();
    let prov = register(&mut store, reg("prov", "prov@mail.com", "provider")).unwrap();
    let pid = get_target_id(&store, prov, TargetType::Provider).unwrap();
    assign_categories(
        &mut store,
        &CategoryAssignment {
            target_id: pid,
            target_type: "provider".to_string(),
            category_ids: vec![cleaning],
        },
    )
    .unwrap();

    let rows = get_providers_by_category(
        &store,
        &ProviderWQueryResponse { category: Some(home), subcategory: None },
    );
    assert_eq!(rows.len(), 1);
    assert_eq!(rows[0].provider_id, pid);
    assert_eq!(rows[0].subcategory_name, "Cleaning");
    assert_eq!(rows[0].parent_category_name.as_deref(), Some("Home"));

    let none = get_providers_by_category(
        &store,
        &ProviderWQueryResponse { category: Some(cleaning), subcategory: None },
    );
    assert_eq!(none.len(), 0);

    let biz_rows = get_businesses_by_category(
        &store,
        &BusinessWQueryResponse { category: None, subcategory: None },
    );
    assert_eq!(biz_rows.len(), 0);
}
