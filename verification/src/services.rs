//! The service catalog: listings owned by a provider or business, with
//! exact-decimal prices, ownership-gated edits and deletion.

use vstd::prelude::*;

use crate::auth::CurrentUser;
use crate::errors::ApiError;
use crate::store::{service_ids_ok, ServiceRow, Store, TargetType};
use crate::validate::{parse_target_type, target_type_name_spec, target_type_of};

verus! {

/// A new catalog listing. The price is an exact decimal held in
/// hundredths of the currency unit.
pub struct CreateServiceParams {
    pub target_id: i32,
    pub target_type: String,
    pub title: String,
    pub description: String,
    pub price_cents: i64,
    pub duration: i32,
    pub category_id: Option<i32>,
    pub is_active: bool,
}

pub struct GetServicesParams {
    pub provider_id: Option<i32>,
    pub target_id: Option<i32>,
    pub target_type: Option<String>,
    pub category_id: Option<i32>,
    pub is_active: Option<bool>,
}

/// A sparse catalog edit; omitted fields keep their stored values.
pub struct EditServiceParams {
    pub service_id: i32,
    pub title: Option<String>,
    pub description: Option<String>,
    pub price_cents: Option<i64>,
    pub duration: Option<i32>,
    pub category_id: Option<i32>,
    pub is_active: Option<bool>,
    pub target_id: i32,
    pub target_type: String,
}

pub struct EditParams {
    pub provider_id: i32,
}

pub struct DeleteServiceParams {
    pub service_id: i32,
}

impl Clone for ServiceRow {
    fn clone(&self) -> (r: Self)
        ensures
            r == *self,
    {
        ServiceRow {
            id: self.id,
            target_type: self.target_type,
            target_id: self.target_id,
            title: self.title.clone(),
            description: self.description.clone(),
            price_cents: self.price_cents,
            duration: self.duration,
            category_id: self.category_id,
            is_active: self.is_active,
            created_at: self.created_at,
        }
    }
}

/// Everything a catalog endpoint does not touch stays as it was.
pub open spec fn services_frame(pre: Store, post: Store) -> bool {
    &&& post.users == pre.users
    &&& post.clients == pre.clients
    &&& post.providers == pre.providers
    &&& post.businesses == pre.businesses
    &&& post.admins == pre.admins
    &&& post.password_resets == pre.password_resets
    &&& post.categories == pre.categories
    &&& post.bookings == pre.bookings
    &&& post.messages == pre.messages
    &&& post.interactions == pre.interactions
    &&& post.favorites == pre.favorites
    &&& post.reviews == pre.reviews
    &&& post.availability == pre.availability
    &&& post.posts == pre.posts
    &&& post.attachments == pre.attachments
    &&& post.counties == pre.counties
    &&& post.constituencies == pre.constituencies
    &&& post.wards == pre.wards
    &&& post.provider_categories == pre.provider_categories
    &&& post.business_categories == pre.business_categories
    &&& post.branch_locations == pre.branch_locations
    &&& post.provider_locations == pre.provider_locations
}

/// Creates a catalog listing for a target the caller owns.
pub fn create_service(store: &mut Store, user: CurrentUser, payload: CreateServiceParams, now: i64)
    -> (r: Result<i32, ApiError>)
    requires
        old(store).wf(),
        old(store).next_id < i32::MAX,
    ensures
        final(store).wf(),
        services_frame(*old(store), *final(store)),
        r is Err ==> *final(store) == *old(store),
        match target_type_of(payload.target_type@) {
            None => r == Err::<i32, ApiError>(ApiError::Validation),
            Some(tt) => {
                if !old(store).owns_target(user.user_id, tt, payload.target_id) {
                    r == Err::<i32, ApiError>(ApiError::Forbidden)
                } else {
                    let s = final(store).services@.last();
                    &&& r == Ok::<i32, ApiError>(old(store).next_id)
                    &&& final(store).next_id == old(store).next_id + 1
                    &&& final(store).services@ == old(store).services@.push(s)
                    &&& s.id == old(store).next_id
                    &&& s.target_type == tt
                    &&& s.target_id == payload.target_id
                    &&& s.title@ == payload.title@
                    &&& s.description@ == payload.description@
                    &&& s.price_cents == payload.price_cents
                    &&& s.duration == payload.duration
                    &&& s.category_id == payload.category_id
                    &&& s.is_active == payload.is_active
                    &&& s.created_at == now
                }
            },
        },
{
    let tt = match parse_target_type(payload.target_type.as_str()) {
        Some(tt) => tt,
        None => {
            return Err(ApiError::Validation);
        },
    };
    if !store.check_owns_target(user.user_id, tt, payload.target_id) {
        return Err(ApiError::Forbidden);
    }
    let id = store.next_id;
    store.services.push(
        ServiceRow {
            id,
            target_type: tt,
            target_id: payload.target_id,
            title: payload.title,
            description: payload.description,
            price_cents: payload.price_cents,
            duration: payload.duration,
            category_id: payload.category_id,
            is_active: payload.is_active,
            created_at: now,
        },
    );
    store.next_id = id + 1;
    Ok(id)
}

/// The filter the catalog listing applies: optional narrowing by
/// target, category and active flag.
pub open spec fn services_pred(params: GetServicesParams) -> spec_fn(ServiceRow) -> bool {
    |s: ServiceRow|
        (match params.target_id {
            None => true,
            Some(tid) => s.target_id == tid && (match params.target_type {
                None => true,
                Some(tt) => target_type_name_spec(s.target_type) == tt@,
            }),
        }) && (match params.category_id {
            None => true,
            Some(cid) => s.category_id == Some(cid),
        }) && (match params.is_active {
            None => true,
            Some(a) => s.is_active == a,
        })
}

/// Catalog listings, newest first, optionally narrowed by target,
/// category and active flag; filter values are matched as data.
pub fn get_services(store: &Store, params: &GetServicesParams) -> (r: Vec<ServiceRow>)
    requires
        store.wf(),
    ensures
        ({
            let picked = store.services@.filter(services_pred(*params));
            r@.len() == picked.len() && forall|i: int|
                0 <= i < picked.len() ==> (#[trigger] r@[i]) == picked[picked.len() - 1 - i]
        }),
{
    let ghost pred = services_pred(*params);
    let mut picked: Vec<ServiceRow> = Vec::new();
    let n = store.services.len();
    for i in 0..n
        invariant
            n == store.services@.len(),
            picked@ == store.services@.subrange(0, i as int).filter(pred),
    {
        proof {
            crate::store::lemma_filter_push(
                store.services@.subrange(0, i as int),
                store.services@[i as int],
                pred,
            );
            assert(store.services@.subrange(0, i as int).push(store.services@[i as int])
                =~= store.services@.subrange(0, i + 1 as int));
        }
        let s = &store.services[i];
        let target_pass = match params.target_id {
            None => true,
            Some(tid) => s.target_id == tid && (match &params.target_type {
                None => true,
                Some(tt) => crate::validate::target_type_name(s.target_type) == *tt,
            }),
        };
        let cat_pass = match params.category_id {
            None => true,
            Some(cid) => match s.category_id {
                Some(sc) => sc == cid,
                None => false,
            },
        };
        let active_pass = match params.is_active {
            None => true,
            Some(a) => s.is_active == a,
        };
        if target_pass && cat_pass && active_pass {
            picked.push(s.clone());
        }
    }
    proof {
        assert(store.services@.subrange(0, store.services@.len() as int) =~= store.services@);
    }
    let m = picked.len();
    let mut out: Vec<ServiceRow> = Vec::new();
    for i in 0..m
        invariant
            m == picked@.len(),
            out@.len() == i,
            forall|j: int| 0 <= j < i ==> (#[trigger] out@[j]) == picked@[m - 1 - j],
    {
        out.push(picked[m - 1 - i].clone());
    }
    out
}

/// The service row after a sparse edit.
pub open spec fn service_patched(pre: ServiceRow, post: ServiceRow, p: EditServiceParams) -> bool {
    &&& post.id == pre.id
    &&& post.target_type == pre.target_type
    &&& post.target_id == pre.target_id
    &&& (match p.title {
        Some(v) => post.title@ == v@,
        None => post.title@ == pre.title@,
    })
    &&& (match p.description {
        Some(v) => post.description@ == v@,
        None => post.description@ == pre.description@,
    })
    &&& post.price_cents == (match p.price_cents {
        Some(v) => v,
        None => pre.price_cents,
    })
    &&& post.duration == (match p.duration {
        Some(v) => v,
        None => pre.duration,
    })
    &&& post.category_id == (match p.category_id {
        Some(v) => Some(v),
        None => pre.category_id,
    })
    &&& post.is_active == (match p.is_active {
        Some(v) => v,
        None => pre.is_active,
    })
    &&& post.created_at == pre.created_at
}

/// Edits a catalog listing: ownership of the named target is re-verified,
/// then the given fields replace the stored ones.
pub fn edit_service(store: &mut Store, user: CurrentUser, payload: &EditServiceParams) -> (r: Result<
    i32,
    ApiError,
>)
    requires
        old(store).wf(),
    ensures
        final(store).wf(),
        services_frame(*old(store), *final(store)),
        final(store).next_id == old(store).next_id,
        r is Err ==> *final(store) == *old(store),
        match target_type_of(payload.target_type@) {
            None => r == Err::<i32, ApiError>(ApiError::Validation),
            Some(tt) => {
                if !old(store).owns_target(user.user_id, tt, payload.target_id) {
                    r == Err::<i32, ApiError>(ApiError::Forbidden)
                } else if (forall|k: int|
                    0 <= k < old(store).services@.len() ==> !((#[trigger] old(
                        store,
                    ).services@[k]).id == payload.service_id && old(store).services@[k].target_id
                        == payload.target_id && old(store).services@[k].target_type == tt)) {
                    r == Err::<i32, ApiError>(ApiError::NotFound)
                } else {
                    &&& r == Ok::<i32, ApiError>(payload.service_id)
                    &&& final(store).services@.len() == old(store).services@.len()
                    &&& forall|k: int|
                        0 <= k < old(store).services@.len() && (#[trigger] old(
                            store,
                        ).services@[k]).id != payload.service_id ==> final(store).services@[k]
                            == old(store).services@[k]
                    &&& forall|k: int|
                        0 <= k < old(store).services@.len() && (#[trigger] old(
                            store,
                        ).services@[k]).id == payload.service_id && old(
                            store,
                        ).services@[k].target_id == payload.target_id && old(
                            store,
                        ).services@[k].target_type == tt ==> service_patched(
                            old(store).services@[k],
                            final(store).services@[k],
                            *payload,
                        )
                }
            },
        },
{
    let tt = match parse_target_type(payload.target_type.as_str()) {
        Some(tt) => tt,
        None => {
            return Err(ApiError::Validation);
        },
    };
    if !store.check_owns_target(user.user_id, tt, payload.target_id) {
        return Err(ApiError::Forbidden);
    }
    let n = store.services.len();
    for k in 0..n
        invariant
            n == store.services@.len(),
            *store == *old(store),
            forall|j: int|
                0 <= j < k ==> !((#[trigger] store.services@[j]).id == payload.service_id
                    && store.services@[j].target_id == payload.target_id
                    && store.services@[j].target_type == tt),
    {
        if store.services[k].id == payload.service_id && store.services[k].target_id
            == payload.target_id {
            let row_tt = store.services[k].target_type;
            let tt_match = match (row_tt, tt) {
                (TargetType::Provider, TargetType::Provider) => true,
                (TargetType::Business, TargetType::Business) => true,
                _ => false,
            };
            if tt_match {
                assert(store.services@[k as int].id == payload.service_id
                    && store.services@[k as int].target_id == payload.target_id
                    && store.services@[k as int].target_type == tt);
                let row = ServiceRow {
                    id: store.services[k].id,
                    target_type: store.services[k].target_type,
                    target_id: store.services[k].target_id,
                    title: match &payload.title {
                        Some(v) => v.clone(),
                        None => store.services[k].title.clone(),
                    },
                    description: match &payload.description {
                        Some(v) => v.clone(),
                        None => store.services[k].description.clone(),
                    },
                    price_cents: match payload.price_cents {
                        Some(v) => v,
                        None => store.services[k].price_cents,
                    },
                    duration: match payload.duration {
                        Some(v) => v,
                        None => store.services[k].duration,
                    },
                    category_id: match payload.category_id {
                        Some(v) => Some(v),
                        None => store.services[k].category_id,
                    },
                    is_active: match payload.is_active {
                        Some(v) => v,
                        None => store.services[k].is_active,
                    },
                    created_at: store.services[k].created_at,
                };
                store.services[k] = row;
                proof {
                    assert(forall|j: int|
                        0 <= j < old(store).services@.len() && j != k ==> (#[trigger] old(
                            store,
                        ).services@[j]).id != payload.service_id);
                }
                return Ok(payload.service_id);
            }
        }
    }
    Err(ApiError::NotFound)
}

/// Removing a row keeps the services table's invariants.
proof fn lemma_service_remove_ok(s: Seq<ServiceRow>, k: int, n: i32)
    requires
        service_ids_ok(s, n),
        0 <= k < s.len(),
    ensures
        service_ids_ok(s.remove(k), n),
{
    let s2 = s.remove(k);
    assert forall|i: int| 0 <= i < s2.len() implies 1 <= (#[trigger] s2[i]).id < n by {
        if i < k {
            assert(s2[i] == s[i]);
        } else {
            assert(s2[i] == s[i + 1]);
        }
    }
    assert forall|i: int, j: int| #![trigger s2[i], s2[j]] 0 <= i < j < s2.len() implies s2[i].id
        != s2[j].id by {
        let a = if i < k { i } else { i + 1 };
        let b = if j < k { j } else { j + 1 };
        assert(s2[i] == s[a]);
        assert(s2[j] == s[b]);
    }
}

/// Deletes a catalog listing: the listing's own target is resolved and
/// the caller's ownership of it verified.
pub fn delete_service(store: &mut Store, user: CurrentUser, payload: &DeleteServiceParams) -> (r:
    Result<i32, ApiError>)
    requires
        old(store).wf(),
    ensures
        final(store).wf(),
        services_frame(*old(store), *final(store)),
        final(store).next_id == old(store).next_id,
        r is Err ==> *final(store) == *old(store),
        (forall|k: int|
            0 <= k < old(store).services@.len() ==> (#[trigger] old(store).services@[k]).id
                != payload.service_id) ==> r == Err::<i32, ApiError>(ApiError::NotFound),
        (exists|k: int|
            0 <= k < old(store).services@.len() && (#[trigger] old(store).services@[k]).id
                == payload.service_id && old(store).owns_target(
                user.user_id,
                old(store).services@[k].target_type,
                old(store).services@[k].target_id,
            )) ==> r is Ok,
        match r {
            Ok(sid) => sid == payload.service_id && exists|k: int|
                {
                    &&& 0 <= k < old(store).services@.len()
                    &&& (#[trigger] old(store).services@[k]).id == payload.service_id
                    &&& old(store).owns_target(
                        user.user_id,
                        old(store).services@[k].target_type,
                        old(store).services@[k].target_id,
                    )
                    &&& final(store).services@ == old(store).services@.remove(k)
                },
            Err(e) => {
                ||| (e == ApiError::NotFound && forall|k: int|
                    0 <= k < old(store).services@.len() ==> (#[trigger] old(store).services@[k]).id
                        != payload.service_id)
                ||| (e == ApiError::Forbidden && exists|k: int|
                    0 <= k < old(store).services@.len() && (#[trigger] old(store).services@[k]).id
                        == payload.service_id && !old(store).owns_target(
                        user.user_id,
                        old(store).services@[k].target_type,
                        old(store).services@[k].target_id,
                    ))
            },
        },
{
    let mut found: Option<usize> = None;
    let n = store.services.len();
    for k in 0..n
        invariant
            n == store.services@.len(),
            *store == *old(store),
            match found {
                Some(f) => f < n && store.services@[f as int].id == payload.service_id,
                None => forall|j: int|
                    0 <= j < k ==> (#[trigger] store.services@[j]).id != payload.service_id,
            },
    {
        if found.is_none() && store.services[k].id == payload.service_id {
            assert(store.services@[k as int].id == payload.service_id);
            found = Some(k);
        }
    }
    let k = match found {
        Some(k) => k,
        None => {
            return Err(ApiError::NotFound);
        },
    };
    let tt = store.services[k].target_type;
    let tid = store.services[k].target_id;
    if !store.check_owns_target(user.user_id, tt, tid) {
        return Err(ApiError::Forbidden);
    }
    proof {
        lemma_service_remove_ok(store.services@, k as int, store.next_id);
    }
    store.services.remove(k);
    Ok(payload.service_id)
}

} // verus!
