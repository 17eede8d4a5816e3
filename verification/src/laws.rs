//! The laws the library's contracts compose to: second registrations and
//! second reviews collide, created bookings occupy their slot, and adding
//! a favorite twice leaves exactly one row.

use vstd::prelude::*;

use crate::auth::user_conflict;
use crate::bookings::slot_taken;
use crate::favorites::{has_favorite, insert_favorite};
use crate::reviews::has_review;
use crate::store::{
    favorites_unique, BookingRow, FavoriteRow, ReviewRow, TargetType, UserRow,
};

verus! {

/// After any successful registration, a registration that reuses the new
/// user's username or email meets a conflict: `register`'s contract then
/// forces it to fail with `Conflict`.
pub proof fn lemma_second_registration_conflicts(
    users: Seq<UserRow>,
    row: UserRow,
    username: Seq<char>,
    email: Seq<char>,
)
    requires
        row.username@ == username || row.email@ == email,
    ensures
        user_conflict(users.push(row), username, email),
{
    let s = users.push(row);
    assert(s[s.len() - 1] == row);
}

/// After any successful booking creation, the created row occupies its
/// slot: `create_booking`'s contract then forces a second request for the
/// same target and time to fail with `Validation`.
pub proof fn lemma_created_booking_occupies_slot(bookings: Seq<BookingRow>, row: BookingRow)
    ensures
        slot_taken(bookings.push(row), row.target_type, row.target_id, row.scheduled_time),
{
    let s = bookings.push(row);
    assert(s[s.len() - 1] == row);
}

/// Adding the same favorite twice is the same as adding it once.
pub proof fn lemma_add_favorite_idempotent(s: Seq<FavoriteRow>, f: FavoriteRow)
    ensures
        insert_favorite(insert_favorite(s, f), f) == insert_favorite(s, f),
{
    if has_favorite(s, f.user_id, f.target_type, f.target_id) {
    } else {
        let s2 = s.push(f);
        assert(s2[s2.len() - 1] == f);
        assert(has_favorite(s2, f.user_id, f.target_type, f.target_id));
    }
}

/// The number of favorite rows matching one `(user, target)` pair.
pub open spec fn favorite_count(s: Seq<FavoriteRow>, user_id: i32, tt: TargetType, tid: i32) -> int {
    s.filter(
        |g: FavoriteRow| g.user_id == user_id && g.target_type == tt && g.target_id == tid,
    ).len() as int
}

/// In a well-formed table, a present favorite is present exactly once.
pub proof fn lemma_favorite_count_one(s: Seq<FavoriteRow>, user_id: i32, tt: TargetType, tid: i32)
    requires
        favorites_unique(s),
    ensures
        has_favorite(s, user_id, tt, tid) ==> favorite_count(s, user_id, tt, tid) == 1,
        !has_favorite(s, user_id, tt, tid) ==> favorite_count(s, user_id, tt, tid) == 0,
    decreases s.len(),
{
    reveal(Seq::filter);
    let pred = |g: FavoriteRow| g.user_id == user_id && g.target_type == tt && g.target_id == tid;
    if s.len() == 0 {
    } else {
        let dl = s.drop_last();
        assert forall|a: int, b: int| #![trigger dl[a], dl[b]] 0 <= a < b < dl.len() implies !(
        dl[a].user_id == dl[b].user_id && dl[a].target_type == dl[b].target_type && dl[a].target_id
            == dl[b].target_id) by {
            assert(dl[a] == s[a]);
            assert(dl[b] == s[b]);
        }
        lemma_favorite_count_one(dl, user_id, tt, tid);
        if pred(s.last()) {
            // The last row matches; uniqueness rules a second match out.
            assert forall|a: int| 0 <= a < dl.len() implies !pred(#[trigger] dl[a]) by {
                assert(dl[a] == s[a]);
                assert(s[s.len() - 1] == s.last());
            }
            assert(!has_favorite(dl, user_id, tt, tid));
            assert(favorite_count(s, user_id, tt, tid) == 1);
            assert(s[s.len() - 1] == s.last());
            assert(has_favorite(s, user_id, tt, tid));
        } else {
            if has_favorite(s, user_id, tt, tid) {
                let w = choose|w: int|
                    0 <= w < s.len() && (#[trigger] s[w]).user_id == user_id && s[w].target_type
                        == tt && s[w].target_id == tid;
                assert(w < dl.len());
                assert(dl[w] == s[w]);
                assert(has_favorite(dl, user_id, tt, tid));
            }
            if has_favorite(dl, user_id, tt, tid) {
                let w = choose|w: int|
                    0 <= w < dl.len() && (#[trigger] dl[w]).user_id == user_id && dl[w].target_type
                        == tt && dl[w].target_id == tid;
                assert(s[w] == dl[w]);
                assert(has_favorite(s, user_id, tt, tid));
            }
        }
    }
}

/// After adding a favorite — once or twice — exactly one row matches the
/// pair.
pub proof fn lemma_add_favorite_single_row(s: Seq<FavoriteRow>, f: FavoriteRow)
    requires
        favorites_unique(s),
    ensures
        favorite_count(
            insert_favorite(s, f),
            f.user_id,
            f.target_type,
            f.target_id,
        ) == 1,
{
    if has_favorite(s, f.user_id, f.target_type, f.target_id) {
        lemma_favorite_count_one(s, f.user_id, f.target_type, f.target_id);
    } else {
        let s2 = s.push(f);
        assert(s2[s2.len() - 1] == f);
        assert(has_favorite(s2, f.user_id, f.target_type, f.target_id));
        assert forall|a: int, b: int| #![trigger s2[a], s2[b]] 0 <= a < b < s2.len() implies !(
        s2[a].user_id == s2[b].user_id && s2[a].target_type == s2[b].target_type && s2[a].target_id
            == s2[b].target_id) by {
            if b < s.len() {
                assert(s2[a] == s[a]);
                assert(s2[b] == s[b]);
            } else {
                assert(s2[a] == s[a]);
                assert(s2[b] == f);
            }
        }
        lemma_favorite_count_one(s2, f.user_id, f.target_type, f.target_id);
    }
}

/// After any successful review creation, the created row rates its
/// target on its author's behalf: `create_reviews`'s contract then
/// forces a second attempt to fail with `Conflict`.
pub proof fn lemma_second_review_conflicts(reviews: Seq<ReviewRow>, row: ReviewRow)
    ensures
        has_review(reviews.push(row), row.reviewer_id, row.target_type, row.target_id),
{
    let s = reviews.push(row);
    assert(s[s.len() - 1] == row);
}

} // verus!
