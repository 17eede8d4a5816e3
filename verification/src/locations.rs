//! Location lookups (counties, constituencies, wards) and the branch and
//! provider location records. Coordinates are held in millionths of a
//! degree, exact integers in place of floating point.

use vstd::prelude::*;

use crate::auth::CurrentUser;
use crate::errors::ApiError;
use crate::store::{
    BranchLocationRow, BusinessRow, ConstituencyRow, CountyRow, ProviderLocationRow, ProviderRow,
    Store, TargetType, WardRow,
};
use crate::validate::{char_len, parse_target_type, target_type_of};

verus! {

pub struct Counties {
    pub id: i32,
    pub name: String,
}

pub struct Constituency {
    pub id: i32,
    pub name: String,
}

pub struct Ward {
    pub id: i32,
    pub name: String,
}

/// The search filters for targets by administrative area.
pub struct SearchLocation {
    pub county_id: Option<i32>,
    pub constituency_id: Option<i32>,
    pub ward_id: Option<i32>,
    pub target_type: String,
}

/// A new branch location for a business.
pub struct BusinessBranchLocation {
    pub id: i32,
    pub business_id: i32,
    pub name: String,
    pub latitude_micro: i64,
    pub longitude_micro: i64,
    pub ward_id: i32,
    pub phone: String,
    pub address: String,
}

/// A new location for a provider.
pub struct ProviderLocation {
    pub id: i32,
    pub provider_id: i32,
    pub latitude_micro: i64,
    pub longitude_micro: i64,
    pub ward_id: i32,
    pub phone: String,
    pub address: String,
}

/// Everything a location endpoint does not touch stays as it was.
pub open spec fn locations_frame(pre: Store, post: Store) -> bool {
    &&& post.users == pre.users
    &&& post.clients == pre.clients
    &&& post.providers == pre.providers
    &&& post.businesses == pre.businesses
    &&& post.admins == pre.admins
    &&& post.password_resets == pre.password_resets
    &&& post.categories == pre.categories
    &&& post.services == pre.services
    &&& post.bookings == pre.bookings
    &&& post.messages == pre.messages
    &&& post.interactions == pre.interactions
    &&& post.favorites == pre.favorites
    &&& post.reviews == pre.reviews
    &&& post.availability == pre.availability
    &&& post.posts == pre.posts
    &&& post.attachments == pre.attachments
    &&& post.provider_categories == pre.provider_categories
    &&& post.business_categories == pre.business_categories
}

/// Seeds one county row; reference data the service itself never writes.
pub fn seed_county(store: &mut Store, name: String) -> (r: i32)
    requires
        old(store).wf(),
        old(store).next_id < i32::MAX,
    ensures
        final(store).wf(),
        locations_frame(*old(store), *final(store)),
        final(store).constituencies == old(store).constituencies,
        final(store).wards == old(store).wards,
        final(store).branch_locations == old(store).branch_locations,
        final(store).provider_locations == old(store).provider_locations,
        r == old(store).next_id,
        final(store).next_id == old(store).next_id + 1,
        final(store).counties@.len() == old(store).counties@.len() + 1,
        final(store).counties@.subrange(0, old(store).counties@.len() as int) == old(
            store,
        ).counties@,
        final(store).counties@.last().id == r,
        final(store).counties@.last().name@ == name@,
{
    let id = store.next_id;
    store.counties.push(CountyRow { id, name });
    store.next_id = id + 1;
    id
}

/// Seeds one constituency row under a county.
pub fn seed_constituency(store: &mut Store, county_id: i32, name: String) -> (r: i32)
    requires
        old(store).wf(),
        old(store).next_id < i32::MAX,
    ensures
        final(store).wf(),
        locations_frame(*old(store), *final(store)),
        final(store).counties == old(store).counties,
        final(store).wards == old(store).wards,
        final(store).branch_locations == old(store).branch_locations,
        final(store).provider_locations == old(store).provider_locations,
        r == old(store).next_id,
        final(store).next_id == old(store).next_id + 1,
        final(store).constituencies@.len() == old(store).constituencies@.len() + 1,
        final(store).constituencies@.subrange(0, old(store).constituencies@.len() as int) == old(
            store,
        ).constituencies@,
        final(store).constituencies@.last().id == r,
        final(store).constituencies@.last().county_id == county_id,
        final(store).constituencies@.last().name@ == name@,
{
    let id = store.next_id;
    store.constituencies.push(ConstituencyRow { id, county_id, name });
    store.next_id = id + 1;
    id
}

/// Seeds one ward row under a constituency.
pub fn seed_ward(store: &mut Store, constituency_id: i32, name: String) -> (r: i32)
    requires
        old(store).wf(),
        old(store).next_id < i32::MAX,
    ensures
        final(store).wf(),
        locations_frame(*old(store), *final(store)),
        final(store).counties == old(store).counties,
        final(store).constituencies == old(store).constituencies,
        final(store).branch_locations == old(store).branch_locations,
        final(store).provider_locations == old(store).provider_locations,
        r == old(store).next_id,
        final(store).next_id == old(store).next_id + 1,
        final(store).wards@.len() == old(store).wards@.len() + 1,
        final(store).wards@.subrange(0, old(store).wards@.len() as int) == old(store).wards@,
        final(store).wards@.last().id == r,
        final(store).wards@.last().constituency_id == constituency_id,
        final(store).wards@.last().name@ == name@,
{
    let id = store.next_id;
    store.wards.push(WardRow { id, constituency_id, name });
    store.next_id = id + 1;
    id
}

/// All counties, in store order.
pub fn get_locations_counties(store: &Store) -> (r: Vec<Counties>)
    requires
        store.wf(),
    ensures
        r@.len() == store.counties@.len(),
        forall|i: int|
            0 <= i < store.counties@.len() ==> (#[trigger] r@[i]).id == store.counties@[i].id
                && r@[i].name@ == store.counties@[i].name@,
{
    let mut out: Vec<Counties> = Vec::new();
    let n = store.counties.len();
    for i in 0..n
        invariant
            n == store.counties@.len(),
            out@.len() == i,
            forall|j: int|
                0 <= j < i ==> (#[trigger] out@[j]).id == store.counties@[j].id && out@[j].name@
                    == store.counties@[j].name@,
    {
        out.push(Counties { id: store.counties[i].id, name: store.counties[i].name.clone() });
    }
    out
}

/// The constituencies of one county, in store order.
pub fn get_constituencies_by_county(store: &Store, county_id: i32) -> (r: Vec<Constituency>)
    requires
        store.wf(),
    ensures
        ({
            let picked = store.constituencies@.filter(
                |c: ConstituencyRow| c.county_id == county_id,
            );
            r@.len() == picked.len() && forall|i: int|
                0 <= i < picked.len() ==> (#[trigger] r@[i]).id == picked[i].id && r@[i].name@
                    == picked[i].name@
        }),
{
    let ghost pred = |c: ConstituencyRow| c.county_id == county_id;
    let mut out: Vec<Constituency> = Vec::new();
    let n = store.constituencies.len();
    for i in 0..n
        invariant
            n == store.constituencies@.len(),
            out@.len() == store.constituencies@.subrange(0, i as int).filter(pred).len(),
            forall|j: int|
                0 <= j < out@.len() ==> (#[trigger] out@[j]).id == store.constituencies@.subrange(
                    0,
                    i as int,
                ).filter(pred)[j].id && out@[j].name@ == store.constituencies@.subrange(
                    0,
                    i as int,
                ).filter(pred)[j].name@,
    {
        proof {
            crate::store::lemma_filter_push(
                store.constituencies@.subrange(0, i as int),
                store.constituencies@[i as int],
                pred,
            );
            assert(store.constituencies@.subrange(0, i as int).push(
                store.constituencies@[i as int],
            ) =~= store.constituencies@.subrange(0, i + 1 as int));
        }
        if store.constituencies[i].county_id == county_id {
            out.push(
                Constituency {
                    id: store.constituencies[i].id,
                    name: store.constituencies[i].name.clone(),
                },
            );
        }
    }
    proof {
        assert(store.constituencies@.subrange(0, store.constituencies@.len() as int)
            =~= store.constituencies@);
    }
    out
}

/// The wards of one constituency, in store order.
pub fn get_wards_by_constituency(store: &Store, constituency_id: i32) -> (r: Vec<Ward>)
    requires
        store.wf(),
    ensures
        ({
            let picked = store.wards@.filter(
                |w: WardRow| w.constituency_id == constituency_id,
            );
            r@.len() == picked.len() && forall|i: int|
                0 <= i < picked.len() ==> (#[trigger] r@[i]).id == picked[i].id && r@[i].name@
                    == picked[i].name@
        }),
{
    let ghost pred = |w: WardRow| w.constituency_id == constituency_id;
    let mut out: Vec<Ward> = Vec::new();
    let n = store.wards.len();
    for i in 0..n
        invariant
            n == store.wards@.len(),
            out@.len() == store.wards@.subrange(0, i as int).filter(pred).len(),
            forall|j: int|
                0 <= j < out@.len() ==> (#[trigger] out@[j]).id == store.wards@.subrange(
                    0,
                    i as int,
                ).filter(pred)[j].id && out@[j].name@ == store.wards@.subrange(0, i as int).filter(
                    pred,
                )[j].name@,
    {
        proof {
            crate::store::lemma_filter_push(
                store.wards@.subrange(0, i as int),
                store.wards@[i as int],
                pred,
            );
            assert(store.wards@.subrange(0, i as int).push(store.wards@[i as int])
                =~= store.wards@.subrange(0, i + 1 as int));
        }
        if store.wards[i].constituency_id == constituency_id {
            out.push(Ward { id: store.wards[i].id, name: store.wards[i].name.clone() });
        }
    }
    proof {
        assert(store.wards@.subrange(0, store.wards@.len() as int) =~= store.wards@);
    }
    out
}

/// A branch location payload passes validation.
pub open spec fn branch_location_valid(p: BusinessBranchLocation) -> bool {
    &&& 1 <= p.name@.len() <= 100
    &&& 1 <= p.phone@.len() <= 10
    &&& 1 <= p.address@.len() <= 255
    &&& p.business_id > 0
}

/// Creates a branch location for a business.
pub fn create_branch_location(
    store: &mut Store,
    user: CurrentUser,
    payload: BusinessBranchLocation,
    now: i64,
) -> (r: Result<i32, ApiError>)
    requires
        old(store).wf(),
        old(store).next_id < i32::MAX,
    ensures
        final(store).wf(),
        locations_frame(*old(store), *final(store)),
        final(store).counties == old(store).counties,
        final(store).constituencies == old(store).constituencies,
        final(store).wards == old(store).wards,
        final(store).provider_locations == old(store).provider_locations,
        r is Err ==> *final(store) == *old(store),
        !branch_location_valid(payload) ==> r == Err::<i32, ApiError>(ApiError::Validation),
        branch_location_valid(payload) ==> {
            &&& r == Ok::<i32, ApiError>(old(store).next_id)
            &&& final(store).next_id == old(store).next_id + 1
            &&& final(store).branch_locations@.len() == old(store).branch_locations@.len() + 1
            &&& final(store).branch_locations@.subrange(
                0,
                old(store).branch_locations@.len() as int,
            ) == old(store).branch_locations@
            &&& ({
                let b = final(store).branch_locations@.last();
                &&& b.id == old(store).next_id
                &&& b.business_id == payload.business_id
                &&& b.name@ == payload.name@
                &&& b.latitude_micro == payload.latitude_micro
                &&& b.longitude_micro == payload.longitude_micro
                &&& b.ward_id == payload.ward_id
                &&& b.phone@ == payload.phone@
                &&& b.address@ == payload.address@
                &&& b.created_by == user.user_id
                &&& b.created_at == now
            })
        },
{
    let name_len = char_len(payload.name.as_str());
    let phone_len = char_len(payload.phone.as_str());
    let addr_len = char_len(payload.address.as_str());
    if name_len == 0 || name_len > 100 || phone_len == 0 || phone_len > 10 || addr_len == 0
        || addr_len > 255 || payload.business_id <= 0 {
        return Err(ApiError::Validation);
    }
    let id = store.next_id;
    store.branch_locations.push(
        BranchLocationRow {
            id,
            business_id: payload.business_id,
            name: payload.name,
            latitude_micro: payload.latitude_micro,
            longitude_micro: payload.longitude_micro,
            ward_id: payload.ward_id,
            phone: payload.phone,
            address: payload.address,
            created_by: user.user_id,
            created_at: now,
            updated_at: now,
        },
    );
    store.next_id = id + 1;
    Ok(id)
}

/// Creates a location for a provider.
pub fn create_provider_location(
    store: &mut Store,
    user: CurrentUser,
    payload: ProviderLocation,
    now: i64,
) -> (r: Result<i32, ApiError>)
    requires
        old(store).wf(),
        old(store).next_id < i32::MAX,
    ensures
        final(store).wf(),
        locations_frame(*old(store), *final(store)),
        final(store).counties == old(store).counties,
        final(store).constituencies == old(store).constituencies,
        final(store).wards == old(store).wards,
        final(store).branch_locations == old(store).branch_locations,
        r is Err ==> *final(store) == *old(store),
        (payload.provider_id <= 0 || payload.phone@.len() == 0 || payload.phone@.len() > 10
            || payload.address@.len() == 0 || payload.address@.len() > 255) ==> r == Err::<
            i32,
            ApiError,
        >(ApiError::Validation),
        !(payload.provider_id <= 0 || payload.phone@.len() == 0 || payload.phone@.len() > 10
            || payload.address@.len() == 0 || payload.address@.len() > 255) ==> r is Ok,
        match r {
            Ok(id) => {
                &&& id == old(store).next_id
                &&& final(store).next_id == old(store).next_id + 1
                &&& final(store).provider_locations@.len() == old(
                    store,
                ).provider_locations@.len() + 1
                &&& final(store).provider_locations@.subrange(
                    0,
                    old(store).provider_locations@.len() as int,
                ) == old(store).provider_locations@
                &&& ({
                    let p = final(store).provider_locations@.last();
                    &&& p.id == id
                    &&& p.provider_id == payload.provider_id
                    &&& p.latitude_micro == payload.latitude_micro
                    &&& p.longitude_micro == payload.longitude_micro
                    &&& p.ward_id == payload.ward_id
                    &&& p.phone@ == payload.phone@
                    &&& p.address@ == payload.address@
                    &&& p.created_by == user.user_id
                    &&& p.created_at == now
                })
            },
            Err(e) => e == ApiError::Validation && (payload.provider_id <= 0
                || payload.phone@.len() == 0 || payload.phone@.len() > 10
                || payload.address@.len() == 0 || payload.address@.len() > 255),
        },
{
    let phone_len = char_len(payload.phone.as_str());
    let addr_len = char_len(payload.address.as_str());
    if payload.provider_id <= 0 || phone_len == 0 || phone_len > 10 || addr_len == 0 || addr_len
        > 255 {
        return Err(ApiError::Validation);
    }
    let id = store.next_id;
    store.provider_locations.push(
        ProviderLocationRow {
            id,
            provider_id: payload.provider_id,
            latitude_micro: payload.latitude_micro,
            longitude_micro: payload.longitude_micro,
            ward_id: payload.ward_id,
            phone: payload.phone,
            address: payload.address,
            created_by: user.user_id,
            created_at: now,
            updated_at: now,
        },
    );
    store.next_id = id + 1;
    Ok(id)
}

/// A business's branch locations, in store order.
pub fn get_branch_locations(store: &Store, business_id: i32) -> (r: Vec<BranchLocationRow>)
    requires
        store.wf(),
    ensures
        r@ == store.branch_locations@.filter(
            |b: BranchLocationRow| b.business_id == business_id,
        ),
{
    let ghost pred = |b: BranchLocationRow| b.business_id == business_id;
    let mut out: Vec<BranchLocationRow> = Vec::new();
    let n = store.branch_locations.len();
    for i in 0..n
        invariant
            n == store.branch_locations@.len(),
            out@ == store.branch_locations@.subrange(0, i as int).filter(pred),
    {
        proof {
            crate::store::lemma_filter_push(
                store.branch_locations@.subrange(0, i as int),
                store.branch_locations@[i as int],
                pred,
            );
            assert(store.branch_locations@.subrange(0, i as int).push(
                store.branch_locations@[i as int],
            ) =~= store.branch_locations@.subrange(0, i + 1 as int));
        }
        if store.branch_locations[i].business_id == business_id {
            let b = &store.branch_locations[i];
            out.push(
                BranchLocationRow {
                    id: b.id,
                    business_id: b.business_id,
                    name: b.name.clone(),
                    latitude_micro: b.latitude_micro,
                    longitude_micro: b.longitude_micro,
                    ward_id: b.ward_id,
                    phone: b.phone.clone(),
                    address: b.address.clone(),
                    created_by: b.created_by,
                    created_at: b.created_at,
                    updated_at: b.updated_at,
                },
            );
        }
    }
    proof {
        assert(store.branch_locations@.subrange(0, store.branch_locations@.len() as int)
            =~= store.branch_locations@);
    }
    out
}

/// A ward lies inside the searched area: it is the named ward, sits in
/// the named constituency, and that constituency sits in the named
/// county — each only where the filter gives one.
pub open spec fn ward_in_area(pre: Store, ward_id: i32, params: SearchLocation) -> bool {
    &&& (match params.ward_id {
        None => true,
        Some(w) => ward_id == w,
    })
    &&& (match params.constituency_id {
        None => true,
        Some(c) => exists|i: int|
            0 <= i < pre.wards@.len() && (#[trigger] pre.wards@[i]).id == ward_id
                && pre.wards@[i].constituency_id == c,
    })
    &&& (match params.county_id {
        None => true,
        Some(co) => exists|i: int, j: int|
            #![trigger pre.wards@[i], pre.constituencies@[j]]
            0 <= i < pre.wards@.len() && 0 <= j < pre.constituencies@.len() && pre.wards@[i].id
                == ward_id && pre.constituencies@[j].id == pre.wards@[i].constituency_id
                && pre.constituencies@[j].county_id == co,
    })
}

/// A business has a branch location inside the searched area.
pub open spec fn business_in_area(pre: Store, bid: i32, params: SearchLocation) -> bool {
    exists|l: int|
        0 <= l < pre.branch_locations@.len() && (#[trigger] pre.branch_locations@[l]).business_id
            == bid && ward_in_area(pre, pre.branch_locations@[l].ward_id, params)
}

/// A provider has a location inside the searched area.
pub open spec fn provider_in_area(pre: Store, pid: i32, params: SearchLocation) -> bool {
    exists|l: int|
        0 <= l < pre.provider_locations@.len() && (#[trigger] pre.provider_locations@[l]).provider_id
            == pid && ward_in_area(pre, pre.provider_locations@[l].ward_id, params)
}

/// Index of the first ward row with the given id.
fn ward_index_by_id(wards: &Vec<WardRow>, id: i32) -> (r: Option<usize>)
    ensures
        match r {
            Some(k) => 0 <= k < wards@.len() && wards@[k as int].id == id,
            None => forall|k: int| 0 <= k < wards@.len() ==> (#[trigger] wards@[k]).id != id,
        },
{
    let n = wards.len();
    for i in 0..n
        invariant
            n == wards@.len(),
            forall|j: int| 0 <= j < i ==> (#[trigger] wards@[j]).id != id,
    {
        if wards[i].id == id {
            assert(wards@[i as int].id == id);
            return Some(i);
        }
    }
    None
}

/// Index of the first constituency row with the given id.
fn constituency_index_by_id(cs: &Vec<ConstituencyRow>, id: i32) -> (r: Option<usize>)
    ensures
        match r {
            Some(k) => 0 <= k < cs@.len() && cs@[k as int].id == id,
            None => forall|k: int| 0 <= k < cs@.len() ==> (#[trigger] cs@[k]).id != id,
        },
{
    let n = cs.len();
    for i in 0..n
        invariant
            n == cs@.len(),
            forall|j: int| 0 <= j < i ==> (#[trigger] cs@[j]).id != id,
    {
        if cs[i].id == id {
            assert(cs@[i as int].id == id);
            return Some(i);
        }
    }
    None
}

/// Decides [`ward_in_area`]; ward and constituency ids are unique, so the
/// first matching rows settle the joins.
fn check_ward_in_area(store: &Store, ward_id: i32, params: &SearchLocation) -> (r: bool)
    requires
        store.wf(),
    ensures
        r == ward_in_area(*store, ward_id, *params),
{
    let ward_pass = match params.ward_id {
        None => true,
        Some(w) => ward_id == w,
    };
    if !ward_pass {
        return false;
    }
    let constituency_pass = match params.constituency_id {
        None => true,
        Some(c) => {
            match ward_index_by_id(&store.wards, ward_id) {
                Some(k) => {
                    proof {
                        assert(forall|i: int|
                            0 <= i < store.wards@.len() && (#[trigger] store.wards@[i]).id
                                == ward_id ==> i == k);
                    }
                    store.wards[k].constituency_id == c
                },
                None => false,
            }
        },
    };
    if !constituency_pass {
        return false;
    }
    let county_pass = match params.county_id {
        None => true,
        Some(co) => {
            match ward_index_by_id(&store.wards, ward_id) {
                Some(k) => {
                    proof {
                        assert(forall|i: int|
                            0 <= i < store.wards@.len() && (#[trigger] store.wards@[i]).id
                                == ward_id ==> i == k);
                    }
                    match constituency_index_by_id(
                        &store.constituencies,
                        store.wards[k].constituency_id,
                    ) {
                        Some(g) => {
                            proof {
                                assert(forall|j: int|
                                    0 <= j < store.constituencies@.len() && (
                                    #[trigger] store.constituencies@[j]).id
                                        == store.wards@[k as int].constituency_id ==> j == g);
                            }
                            store.constituencies[g].county_id == co
                        },
                        None => false,
                    }
                },
                None => false,
            }
        },
    };
    county_pass
}

/// Decides [`business_in_area`].
fn check_business_in_area(store: &Store, bid: i32, params: &SearchLocation) -> (r: bool)
    requires
        store.wf(),
    ensures
        r == business_in_area(*store, bid, *params),
{
    let n = store.branch_locations.len();
    for l in 0..n
        invariant
            n == store.branch_locations@.len(),
            forall|j: int|
                0 <= j < l ==> !((#[trigger] store.branch_locations@[j]).business_id == bid
                    && ward_in_area(*store, store.branch_locations@[j].ward_id, *params)),
    {
        if store.branch_locations[l].business_id == bid {
            if check_ward_in_area(store, store.branch_locations[l].ward_id, params) {
                assert(store.branch_locations@[l as int].business_id == bid);
                return true;
            }
        }
    }
    false
}

/// Decides [`provider_in_area`].
fn check_provider_in_area(store: &Store, pid: i32, params: &SearchLocation) -> (r: bool)
    requires
        store.wf(),
    ensures
        r == provider_in_area(*store, pid, *params),
{
    let n = store.provider_locations.len();
    for l in 0..n
        invariant
            n == store.provider_locations@.len(),
            forall|j: int|
                0 <= j < l ==> !((#[trigger] store.provider_locations@[j]).provider_id == pid
                    && ward_in_area(*store, store.provider_locations@[j].ward_id, *params)),
    {
        if store.provider_locations[l].provider_id == pid {
            if check_ward_in_area(store, store.provider_locations[l].ward_id, params) {
                assert(store.provider_locations@[l as int].provider_id == pid);
                return true;
            }
        }
    }
    false
}

/// Searches targets by administrative area: the row ids of the businesses
/// or providers that have a stored location inside the filtered ward,
/// constituency or county, in store order. Filter values are matched as
/// data, never interpolated into a query.
pub fn search_business_or_provider_by_location(store: &Store, params: &SearchLocation) -> (r:
    Result<Vec<i32>, ApiError>)
    requires
        store.wf(),
    ensures
        match target_type_of(params.target_type@) {
            None => r == Err::<Vec<i32>, ApiError>(ApiError::Validation),
            Some(tt) => match r {
                Ok(v) => match tt {
                    TargetType::Business => {
                        let picked = store.businesses@.filter(
                            |b: BusinessRow| business_in_area(*store, b.id, *params),
                        );
                        v@.len() == picked.len() && forall|i: int|
                            0 <= i < picked.len() ==> (#[trigger] v@[i]) == picked[i].id
                    },
                    TargetType::Provider => {
                        let picked = store.providers@.filter(
                            |p: ProviderRow| provider_in_area(*store, p.id, *params),
                        );
                        v@.len() == picked.len() && forall|i: int|
                            0 <= i < picked.len() ==> (#[trigger] v@[i]) == picked[i].id
                    },
                },
                Err(e) => false,
            },
        },
{
    let tt = match parse_target_type(params.target_type.as_str()) {
        Some(tt) => tt,
        None => {
            return Err(ApiError::Validation);
        },
    };
    let mut out: Vec<i32> = Vec::new();
    match tt {
        TargetType::Business => {
            let ghost pred = |b: BusinessRow| business_in_area(*store, b.id, *params);
            let n = store.businesses.len();
            for i in 0..n
                invariant
                    n == store.businesses@.len(),
                    out@.len() == store.businesses@.subrange(0, i as int).filter(pred).len(),
                    forall|j: int|
                        0 <= j < out@.len() ==> (#[trigger] out@[j])
                            == store.businesses@.subrange(0, i as int).filter(pred)[j].id,
            {
                proof {
                    crate::store::lemma_filter_push(
                        store.businesses@.subrange(0, i as int),
                        store.businesses@[i as int],
                        pred,
                    );
                    assert(store.businesses@.subrange(0, i as int).push(
                        store.businesses@[i as int],
                    ) =~= store.businesses@.subrange(0, i + 1 as int));
                }
                if check_business_in_area(store, store.businesses[i].id, params) {
                    out.push(store.businesses[i].id);
                }
            }
            proof {
                assert(store.businesses@.subrange(0, store.businesses@.len() as int)
                    =~= store.businesses@);
            }
        },
        TargetType::Provider => {
            let ghost pred = |p: ProviderRow| provider_in_area(*store, p.id, *params);
            let n = store.providers.len();
            for i in 0..n
                invariant
                    n == store.providers@.len(),
                    out@.len() == store.providers@.subrange(0, i as int).filter(pred).len(),
                    forall|j: int|
                        0 <= j < out@.len() ==> (#[trigger] out@[j])
                            == store.providers@.subrange(0, i as int).filter(pred)[j].id,
            {
                proof {
                    crate::store::lemma_filter_push(
                        store.providers@.subrange(0, i as int),
                        store.providers@[i as int],
                        pred,
                    );
                    assert(store.providers@.subrange(0, i as int).push(store.providers@[i as int])
                        =~= store.providers@.subrange(0, i + 1 as int));
                }
                if check_provider_in_area(store, store.providers[i].id, params) {
                    out.push(store.providers[i].id);
                }
            }
            proof {
                assert(store.providers@.subrange(0, store.providers@.len() as int)
                    =~= store.providers@);
            }
        },
    }
    Ok(out)
}

} // verus!
