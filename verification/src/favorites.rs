//! Favorites: idempotent set membership over `(user, target)`.

use vstd::prelude::*;

use crate::auth::CurrentUser;
use crate::errors::ApiError;
use crate::store::{favorites_unique, FavoriteRow, Store, TargetType};
use crate::validate::{parse_target_type, target_type_name, target_type_name_spec, target_type_of};

verus! {

/// A favorite, as submitted and as listed.
pub struct FavoritePayload {
    pub target_type: String,
    pub target_id: i32,
}

/// The user has this target among their favorites.
pub open spec fn has_favorite(s: Seq<FavoriteRow>, user_id: i32, tt: TargetType, tid: i32) -> bool {
    exists|i: int|
        0 <= i < s.len() && (#[trigger] s[i]).user_id == user_id && s[i].target_type == tt
            && s[i].target_id == tid
}

/// Insert-or-ignore: the table after adding a favorite. Adding an already
/// present pair leaves the table unchanged.
pub open spec fn insert_favorite(s: Seq<FavoriteRow>, f: FavoriteRow) -> Seq<FavoriteRow> {
    if has_favorite(s, f.user_id, f.target_type, f.target_id) {
        s
    } else {
        s.push(f)
    }
}

/// Everything a favorites endpoint does not touch stays as it was.
pub open spec fn favorites_frame(pre: Store, post: Store) -> bool {
    &&& post.next_id == pre.next_id
    &&& post.users == pre.users
    &&& post.clients == pre.clients
    &&& post.providers == pre.providers
    &&& post.businesses == pre.businesses
    &&& post.admins == pre.admins
    &&& post.password_resets == pre.password_resets
    &&& post.categories == pre.categories
    &&& post.services == pre.services
    &&& post.bookings == pre.bookings
    &&& post.messages == pre.messages
    &&& post.interactions == pre.interactions
    &&& post.reviews == pre.reviews
    &&& post.availability == pre.availability
    &&& post.posts == pre.posts
    &&& post.attachments == pre.attachments
    &&& post.counties == pre.counties
    &&& post.constituencies == pre.constituencies
    &&& post.wards == pre.wards
    &&& post.provider_categories == pre.provider_categories
    &&& post.business_categories == pre.business_categories
    &&& post.branch_locations == pre.branch_locations
    &&& post.provider_locations == pre.provider_locations
}

/// Filtering a table whose `(user, target)` pairs are unique keeps them
/// unique, and keeps only rows of the unfiltered table.
pub proof fn lemma_favorites_filter_unique(s: Seq<FavoriteRow>, pred: spec_fn(FavoriteRow) -> bool)
    requires
        favorites_unique(s),
    ensures
        favorites_unique(s.filter(pred)),
        forall|i: int| 0 <= i < s.filter(pred).len() ==> s.contains(#[trigger] s.filter(pred)[i]),
    decreases s.len(),
{
    reveal(Seq::filter);
    if s.len() == 0 {
    } else {
        let dl = s.drop_last();
        assert forall|a: int, b: int| #![trigger dl[a], dl[b]] 0 <= a < b < dl.len() implies !(
        dl[a].user_id == dl[b].user_id && dl[a].target_type == dl[b].target_type
            && dl[a].target_id == dl[b].target_id) by {
            assert(dl[a] == s[a]);
            assert(dl[b] == s[b]);
        }
        lemma_favorites_filter_unique(dl, pred);
        let fdl = dl.filter(pred);
        let out = s.filter(pred);
        assert forall|i: int| 0 <= i < out.len() implies s.contains(#[trigger] out[i]) by {
            if pred(s.last()) && i == out.len() - 1 {
                assert(out[i] == s.last());
                assert(s[s.len() - 1] == s.last());
            } else {
                assert(out[i] == fdl[i]);
                assert(dl.contains(fdl[i]));
                let a = choose|a: int| 0 <= a < dl.len() && dl[a] == fdl[i];
                assert(s[a] == fdl[i]);
            }
        }
        assert forall|i: int, j: int| #![trigger out[i], out[j]] 0 <= i < j < out.len() implies !(
        out[i].user_id == out[j].user_id && out[i].target_type == out[j].target_type
            && out[i].target_id == out[j].target_id) by {
            if pred(s.last()) && j == out.len() - 1 {
                assert(out[i] == fdl[i]);
                assert(dl.contains(fdl[i]));
                let a = choose|a: int| 0 <= a < dl.len() && dl[a] == fdl[i];
                assert(s[a] == out[i]);
                assert(s[s.len() - 1] == out[j]);
            } else {
                assert(out[i] == fdl[i]);
                assert(out[j] == fdl[j]);
            }
        }
    }
}

/// Adds a target to the caller's favorites; adding it again changes
/// nothing.
pub fn add_favorite(store: &mut Store, user: CurrentUser, payload: &FavoritePayload, now: i64) -> (r:
    Result<(), ApiError>)
    requires
        old(store).wf(),
    ensures
        final(store).wf(),
        favorites_frame(*old(store), *final(store)),
        match target_type_of(payload.target_type@) {
            None => r == Err::<(), ApiError>(ApiError::Validation) && *final(store) == *old(store),
            Some(tt) => {
                if payload.target_id <= 0 {
                    r == Err::<(), ApiError>(ApiError::Validation) && *final(store) == *old(store)
                } else {
                    r == Ok::<(), ApiError>(()) && final(store).favorites@ == insert_favorite(
                        old(store).favorites@,
                        (FavoriteRow {
                            user_id: user.user_id,
                            target_type: tt,
                            target_id: payload.target_id,
                            created_at: now,
                        }),
                    )
                }
            },
        },
{
    let tt = match parse_target_type(payload.target_type.as_str()) {
        Some(tt) => tt,
        None => {
            return Err(ApiError::Validation);
        },
    };
    if payload.target_id <= 0 {
        return Err(ApiError::Validation);
    }
    let n = store.favorites.len();
    for i in 0..n
        invariant
            n == store.favorites@.len(),
            *store == *old(store),
            forall|j: int|
                0 <= j < i ==> !((#[trigger] store.favorites@[j]).user_id == user.user_id
                    && store.favorites@[j].target_type == tt && store.favorites@[j].target_id
                    == payload.target_id),
    {
        if store.favorites[i].user_id == user.user_id && store.favorites[i].target_id
            == payload.target_id {
            let row_tt = store.favorites[i].target_type;
            let tt_match = match (row_tt, tt) {
                (TargetType::Provider, TargetType::Provider) => true,
                (TargetType::Business, TargetType::Business) => true,
                _ => false,
            };
            if tt_match {
                assert(store.favorites@[i as int].user_id == user.user_id
                    && store.favorites@[i as int].target_type == tt
                    && store.favorites@[i as int].target_id == payload.target_id);
                return Ok(());
            }
        }
    }
    store.favorites.push(
        FavoriteRow {
            user_id: user.user_id,
            target_type: tt,
            target_id: payload.target_id,
            created_at: now,
        },
    );
    Ok(())
}

/// The caller's favorites, most recently added first.
pub fn get_favorites(store: &Store, user: CurrentUser) -> (r: Vec<FavoritePayload>)
    requires
        store.wf(),
    ensures
        ({
            let mine = store.favorites@.filter(|f: FavoriteRow| f.user_id == user.user_id);
            r@.len() == mine.len() && forall|i: int|
                0 <= i < mine.len() ==> (#[trigger] r@[i]).target_id == mine[mine.len() - 1
                    - i].target_id && r@[i].target_type@ == target_type_name_spec(
                    mine[mine.len() - 1 - i].target_type,
                )
        }),
{
    let ghost pred = |f: FavoriteRow| f.user_id == user.user_id;
    let mut picked: Vec<FavoriteRow> = Vec::new();
    let n = store.favorites.len();
    for i in 0..n
        invariant
            n == store.favorites@.len(),
            picked@ == store.favorites@.subrange(0, i as int).filter(pred),
    {
        proof {
            crate::store::lemma_filter_push(
                store.favorites@.subrange(0, i as int),
                store.favorites@[i as int],
                pred,
            );
            assert(store.favorites@.subrange(0, i as int).push(store.favorites@[i as int])
                =~= store.favorites@.subrange(0, i + 1 as int));
        }
        if store.favorites[i].user_id == user.user_id {
            picked.push(store.favorites[i]);
        }
    }
    proof {
        assert(store.favorites@.subrange(0, store.favorites@.len() as int) =~= store.favorites@);
    }
    let mut out: Vec<FavoritePayload> = Vec::new();
    let m = picked.len();
    for i in 0..m
        invariant
            m == picked@.len(),
            out@.len() == i,
            forall|j: int|
                0 <= j < i ==> (#[trigger] out@[j]).target_id == picked@[m - 1 - j].target_id
                    && out@[j].target_type@ == target_type_name_spec(
                    picked@[m - 1 - j].target_type,
                ),
    {
        let f = &picked[m - 1 - i];
        out.push(
            FavoritePayload {
                target_type: target_type_name(f.target_type),
                target_id: f.target_id,
            },
        );
    }
    out
}

/// Drops the target with this row id from the caller's favorites, for
/// either target type; asking again, or for a target never added, changes
/// nothing.
pub fn remove_favorite(store: &mut Store, id: i32, user: CurrentUser) -> (r: Result<(), ApiError>)
    requires
        old(store).wf(),
    ensures
        final(store).wf(),
        favorites_frame(*old(store), *final(store)),
        id <= 0 ==> r == Err::<(), ApiError>(ApiError::Validation) && *final(store) == *old(store),
        id > 0 ==> r == Ok::<(), ApiError>(()) && final(store).favorites@ == old(
            store,
        ).favorites@.filter(|f: FavoriteRow| !(f.user_id == user.user_id && f.target_id == id)),
{
    if id <= 0 {
        return Err(ApiError::Validation);
    }
    let ghost pred = |f: FavoriteRow| !(f.user_id == user.user_id && f.target_id == id);
    let mut kept: Vec<FavoriteRow> = Vec::new();
    let n = store.favorites.len();
    for i in 0..n
        invariant
            n == store.favorites@.len(),
            *store == *old(store),
            kept@ == store.favorites@.subrange(0, i as int).filter(pred),
    {
        proof {
            crate::store::lemma_filter_push(
                store.favorites@.subrange(0, i as int),
                store.favorites@[i as int],
                pred,
            );
            assert(store.favorites@.subrange(0, i as int).push(store.favorites@[i as int])
                =~= store.favorites@.subrange(0, i + 1 as int));
        }
        if !(store.favorites[i].user_id == user.user_id && store.favorites[i].target_id == id) {
            kept.push(store.favorites[i]);
        }
    }
    proof {
        assert(store.favorites@.subrange(0, store.favorites@.len() as int) =~= store.favorites@);
        lemma_favorites_filter_unique(store.favorites@, pred);
    }
    store.favorites = kept;
    Ok(())
}

} // verus!
