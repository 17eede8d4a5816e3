//! Business profiles: onboarding as an update of the row created at
//! registration, the public listing, sparse profile patches, and the
//! stored media paths.

use vstd::prelude::*;

use crate::auth::CurrentUser;
use crate::errors::ApiError;
use crate::store::{BusinessRow, Role, Store};
use crate::validate::{char_len, contains_seq, email_ok, is_valid_email, opt_str_like, patched, str_contains};

verus! {

pub struct BusinessOnboardRequest {
    pub business_name: String,
    pub description: String,
    pub category: Option<String>,
    pub location: Option<String>,
    pub license_number: String,
    pub krapin: String,
    pub phone_number: String,
    pub email: String,
    pub website: Option<String>,
    pub whatsapp: Option<String>,
}

pub struct BusinessQuery {
    pub category: Option<String>,
    pub business_name: Option<String>,
    pub location: Option<String>,
}

pub struct BusinessUpdateRequest {
    pub description: Option<String>,
    pub phone_number: Option<String>,
    pub email: Option<String>,
    pub website: Option<String>,
    pub whatsapp: Option<String>,
}

/// A public listing entry for a business.
pub struct BusinessListing {
    pub id: i32,
    pub business_name: Option<String>,
    pub description: Option<String>,
    pub category: Option<String>,
    pub location: Option<String>,
    pub phone_number: Option<String>,
    pub email: Option<String>,
    pub website: Option<String>,
    pub whatsapp: Option<String>,
}

/// Everything a business endpoint does not touch stays as it was.
pub open spec fn businesses_frame(pre: Store, post: Store) -> bool {
    &&& post.users == pre.users
    &&& post.clients == pre.clients
    &&& post.providers == pre.providers
    &&& post.admins == pre.admins
    &&& post.password_resets == pre.password_resets
    &&& post.categories == pre.categories
    &&& post.services == pre.services
    &&& post.bookings == pre.bookings
    &&& post.messages == pre.messages
    &&& post.interactions == pre.interactions
    &&& post.favorites == pre.favorites
    &&& post.reviews == pre.reviews
    &&& post.availability == pre.availability
    &&& post.posts == pre.posts
    &&& post.attachments == pre.attachments
    &&& post.counties == pre.counties
    &&& post.constituencies == pre.constituencies
    &&& post.wards == pre.wards
    &&& post.provider_categories == pre.provider_categories
    &&& post.business_categories == pre.business_categories
    &&& post.branch_locations == pre.branch_locations
    &&& post.provider_locations == pre.provider_locations
}

/// A business onboarding payload passes validation.
pub open spec fn business_onboard_valid(p: BusinessOnboardRequest) -> bool {
    &&& p.business_name@.len() >= 3
    &&& p.description@.len() >= 10
    &&& p.krapin@.len() >= 11
    &&& p.phone_number@.len() >= 10
    &&& email_ok(p.email@)
}

/// The business row after onboarding: every profile field replaced by the
/// payload's, id, owner and media paths kept.
pub open spec fn business_onboarded(pre: BusinessRow, post: BusinessRow, p: BusinessOnboardRequest)
    -> bool {
    &&& post.id == pre.id
    &&& post.user_id == pre.user_id
    &&& (match post.business_name {
        Some(v) => v@ == p.business_name@,
        None => false,
    })
    &&& (match post.description {
        Some(v) => v@ == p.description@,
        None => false,
    })
    &&& opt_str_like(post.category, p.category)
    &&& opt_str_like(post.location, p.location)
    &&& (match post.license_number {
        Some(v) => v@ == p.license_number@,
        None => false,
    })
    &&& (match post.krapin {
        Some(v) => v@ == p.krapin@,
        None => false,
    })
    &&& (match post.phone_number {
        Some(v) => v@ == p.phone_number@,
        None => false,
    })
    &&& (match post.email {
        Some(v) => v@ == p.email@,
        None => false,
    })
    &&& opt_str_like(post.website, p.website)
    &&& opt_str_like(post.whatsapp, p.whatsapp)
    &&& opt_str_like(post.logo, pre.logo)
    &&& opt_str_like(post.profile_photo, pre.profile_photo)
    &&& opt_str_like(post.cover_photo, pre.cover_photo)
}

fn clone_opt(s: &Option<String>) -> (r: Option<String>)
    ensures
        opt_str_like(r, *s),
{
    match s {
        Some(v) => Some(v.clone()),
        None => None,
    }
}

fn patch_opt(patch: &Option<String>, pre: &Option<String>) -> (r: Option<String>)
    ensures
        patched(r, *patch, *pre),
{
    match patch {
        Some(v) => Some(v.clone()),
        None => clone_opt(pre),
    }
}

/// A business row freshly created by onboarding: the payload's fields,
/// the given id and owner, and no media paths yet.
pub open spec fn business_created(post: BusinessRow, id: i32, user_id: i32, p: BusinessOnboardRequest)
    -> bool {
    &&& post.id == id
    &&& post.user_id == user_id
    &&& (match post.business_name {
        Some(v) => v@ == p.business_name@,
        None => false,
    })
    &&& (match post.description {
        Some(v) => v@ == p.description@,
        None => false,
    })
    &&& opt_str_like(post.category, p.category)
    &&& opt_str_like(post.location, p.location)
    &&& (match post.license_number {
        Some(v) => v@ == p.license_number@,
        None => false,
    })
    &&& (match post.krapin {
        Some(v) => v@ == p.krapin@,
        None => false,
    })
    &&& (match post.phone_number {
        Some(v) => v@ == p.phone_number@,
        None => false,
    })
    &&& (match post.email {
        Some(v) => v@ == p.email@,
        None => false,
    })
    &&& opt_str_like(post.website, p.website)
    &&& opt_str_like(post.whatsapp, p.whatsapp)
    &&& post.logo is None
    &&& post.profile_photo is None
    &&& post.cover_photo is None
}

/// Onboards the caller's business profile as an upsert: an existing row
/// is updated in place; a business-role caller without a row gets a
/// fresh one; a caller who is not a business is refused. Exactly one
/// business row per user exists afterwards either way.
pub fn onboard_business(store: &mut Store, user: CurrentUser, payload: BusinessOnboardRequest) -> (r:
    Result<i32, ApiError>)
    requires
        old(store).wf(),
        old(store).next_id < i32::MAX,
    ensures
        final(store).wf(),
        businesses_frame(*old(store), *final(store)),
        final(store).next_id <= old(store).next_id + 1,
        r is Err ==> *final(store) == *old(store),
        !business_onboard_valid(payload) ==> r == Err::<i32, ApiError>(ApiError::Validation),
        business_onboard_valid(payload) ==> {
            if (forall|j: int|
                0 <= j < old(store).businesses@.len() ==> (#[trigger] old(store).businesses@[j]).user_id
                    != user.user_id) {
                if (exists|u: int|
                    0 <= u < old(store).users@.len() && (#[trigger] old(store).users@[u]).id
                        == user.user_id && old(store).users@[u].role == Role::Business) {
                    &&& r == Ok::<i32, ApiError>(old(store).next_id)
                    &&& final(store).next_id == old(store).next_id + 1
                    &&& final(store).businesses@.len() == old(store).businesses@.len() + 1
                    &&& final(store).businesses@.subrange(0, old(store).businesses@.len() as int)
                        == old(store).businesses@
                    &&& business_created(
                        final(store).businesses@.last(),
                        old(store).next_id,
                        user.user_id,
                        payload,
                    )
                } else {
                    r == Err::<i32, ApiError>(ApiError::Forbidden)
                }
            } else {
                &&& r is Ok
                &&& final(store).next_id == old(store).next_id
                &&& final(store).businesses@.len() == old(store).businesses@.len()
                &&& forall|j: int|
                    0 <= j < old(store).businesses@.len() && (#[trigger] old(store).businesses@[j]).user_id
                        != user.user_id ==> final(store).businesses@[j] == old(store).businesses@[j]
                &&& forall|j: int|
                    0 <= j < old(store).businesses@.len() && (#[trigger] old(store).businesses@[j]).user_id
                        == user.user_id ==> business_onboarded(
                        old(store).businesses@[j],
                        final(store).businesses@[j],
                        payload,
                    ) && r == Ok::<i32, ApiError>(old(store).businesses@[j].id)
            }
        },
{
    if char_len(payload.business_name.as_str()) < 3 {
        return Err(ApiError::Validation);
    }
    if char_len(payload.description.as_str()) < 10 {
        return Err(ApiError::Validation);
    }
    if char_len(payload.krapin.as_str()) < 11 {
        return Err(ApiError::Validation);
    }
    if char_len(payload.phone_number.as_str()) < 10 {
        return Err(ApiError::Validation);
    }
    if !is_valid_email(payload.email.as_str()) {
        return Err(ApiError::Validation);
    }
    let k = match crate::store::business_index_by_user(&store.businesses, user.user_id) {
        Some(k) => k,
        None => {
            // No row yet: create one for a business-role caller.
            let uk = match crate::store::user_index_by_id(&store.users, user.user_id) {
                Some(uk) => uk,
                None => {
                    return Err(ApiError::Forbidden);
                },
            };
            match store.users[uk].role {
                Role::Business => {},
                _ => {
                    assert(store.users@[uk as int].id == user.user_id);
                    return Err(ApiError::Forbidden);
                },
            }
            proof {
                assert(store.users@[uk as int].id == user.user_id
                    && store.users@[uk as int].role == Role::Business);
                assert(1 <= store.users@[uk as int].id < store.next_id);
            }
            let bid = store.next_id;
            store.businesses.push(
                BusinessRow {
                    id: bid,
                    user_id: user.user_id,
                    business_name: Some(payload.business_name),
                    description: Some(payload.description),
                    category: payload.category,
                    location: payload.location,
                    license_number: Some(payload.license_number),
                    krapin: Some(payload.krapin),
                    phone_number: Some(payload.phone_number),
                    email: Some(payload.email),
                    website: payload.website,
                    whatsapp: payload.whatsapp,
                    logo: None,
                    profile_photo: None,
                    cover_photo: None,
                },
            );
            store.next_id = bid + 1;
            return Ok(bid);
        },
    };
    let bid = store.businesses[k].id;
    let row = BusinessRow {
        id: bid,
        user_id: store.businesses[k].user_id,
        business_name: Some(payload.business_name),
        description: Some(payload.description),
        category: payload.category,
        location: payload.location,
        license_number: Some(payload.license_number),
        krapin: Some(payload.krapin),
        phone_number: Some(payload.phone_number),
        email: Some(payload.email),
        website: payload.website,
        whatsapp: payload.whatsapp,
        logo: clone_opt(&store.businesses[k].logo),
        profile_photo: clone_opt(&store.businesses[k].profile_photo),
        cover_photo: clone_opt(&store.businesses[k].cover_photo),
    };
    store.businesses[k] = row;
    proof {
        assert(forall|j: int|
            0 <= j < old(store).businesses@.len() && j != k ==> (#[trigger] old(store).businesses@[j]).user_id
                != user.user_id);
    }
    Ok(bid)
}

/// The filter the business listing applies: an exact category match and
/// substring matches on name and location, where given.
pub open spec fn business_listing_pred(params: BusinessQuery) -> spec_fn(BusinessRow) -> bool {
    |b: BusinessRow|
        (match params.category {
            None => true,
            Some(c) => match b.category {
                Some(bc) => bc@ == c@,
                None => false,
            },
        }) && (match params.business_name {
            None => true,
            Some(n) => match b.business_name {
                Some(bn) => contains_seq(bn@, n@),
                None => false,
            },
        }) && (match params.location {
            None => true,
            Some(l) => match b.location {
                Some(bl) => contains_seq(bl@, l@),
                None => false,
            },
        })
}

/// The business listing, for clients only: a business or provider caller
/// is refused; filters are matched as data, never interpolated. Name and
/// location are matched as substrings, case-sensitively.
pub fn list_businesses(store: &Store, params: &BusinessQuery, user: CurrentUser) -> (r: Result<
    Vec<BusinessListing>,
    ApiError,
>)
    requires
        store.wf(),
    ensures
        match r {
            Ok(v) => {
                let picked = store.businesses@.filter(business_listing_pred(*params));
                &&& exists|j: int|
                    0 <= j < store.users@.len() && (#[trigger] store.users@[j]).id == user.user_id
                        && store.users@[j].role == Role::Client
                &&& v@.len() == picked.len()
                &&& forall|i: int|
                    0 <= i < picked.len() ==> (#[trigger] v@[i]).id == picked[i].id && opt_str_like(
                        v@[i].business_name,
                        picked[i].business_name,
                    ) && opt_str_like(v@[i].description, picked[i].description) && opt_str_like(
                        v@[i].category,
                        picked[i].category,
                    ) && opt_str_like(v@[i].location, picked[i].location) && opt_str_like(
                        v@[i].phone_number,
                        picked[i].phone_number,
                    ) && opt_str_like(v@[i].email, picked[i].email) && opt_str_like(
                        v@[i].website,
                        picked[i].website,
                    ) && opt_str_like(v@[i].whatsapp, picked[i].whatsapp)
            },
            Err(e) => {
                ||| (e == ApiError::Forbidden && exists|j: int|
                    0 <= j < store.users@.len() && (#[trigger] store.users@[j]).id == user.user_id
                        && store.users@[j].role != Role::Client)
                ||| (e == ApiError::NotFound && !crate::store::user_exists(
                    store.users@,
                    user.user_id,
                ))
            },
        },
{
    let uk = match crate::store::user_index_by_id(&store.users, user.user_id) {
        Some(k) => k,
        None => {
            return Err(ApiError::NotFound);
        },
    };
    match store.users[uk].role {
        Role::Client => {},
        _ => {
            assert(store.users@[uk as int].id == user.user_id);
            return Err(ApiError::Forbidden);
        },
    }
    proof {
        assert(store.users@[uk as int].id == user.user_id && store.users@[uk as int].role
            == Role::Client);
    }
    let ghost pred = business_listing_pred(*params);
    let mut out: Vec<BusinessListing> = Vec::new();
    let n = store.businesses.len();
    for i in 0..n
        invariant
            n == store.businesses@.len(),
            out@.len() == store.businesses@.subrange(0, i as int).filter(pred).len(),
            exists|j: int|
                0 <= j < store.users@.len() && (#[trigger] store.users@[j]).id == user.user_id
                    && store.users@[j].role == Role::Client,
            forall|j: int|
                0 <= j < out@.len() ==> {
                    let src = store.businesses@.subrange(0, i as int).filter(pred)[j];
                    &&& (#[trigger] out@[j]).id == src.id
                    &&& opt_str_like(out@[j].business_name, src.business_name)
                    &&& opt_str_like(out@[j].description, src.description)
                    &&& opt_str_like(out@[j].category, src.category)
                    &&& opt_str_like(out@[j].location, src.location)
                    &&& opt_str_like(out@[j].phone_number, src.phone_number)
                    &&& opt_str_like(out@[j].email, src.email)
                    &&& opt_str_like(out@[j].website, src.website)
                    &&& opt_str_like(out@[j].whatsapp, src.whatsapp)
                },
    {
        proof {
            crate::store::lemma_filter_push(
                store.businesses@.subrange(0, i as int),
                store.businesses@[i as int],
                pred,
            );
            assert(store.businesses@.subrange(0, i as int).push(store.businesses@[i as int])
                =~= store.businesses@.subrange(0, i + 1 as int));
        }
        let b = &store.businesses[i];
        let cat_pass = match &params.category {
            None => true,
            Some(c) => match &b.category {
                Some(bc) => crate::validate::str_eq(bc.as_str(), c.as_str()),
                None => false,
            },
        };
        let name_pass = match &params.business_name {
            None => true,
            Some(nm) => match &b.business_name {
                Some(bn) => str_contains(bn.as_str(), nm.as_str()),
                None => false,
            },
        };
        let loc_pass = match &params.location {
            None => true,
            Some(l) => match &b.location {
                Some(bl) => str_contains(bl.as_str(), l.as_str()),
                None => false,
            },
        };
        if cat_pass && name_pass && loc_pass {
            out.push(
                BusinessListing {
                    id: b.id,
                    business_name: clone_opt(&b.business_name),
                    description: clone_opt(&b.description),
                    category: clone_opt(&b.category),
                    location: clone_opt(&b.location),
                    phone_number: clone_opt(&b.phone_number),
                    email: clone_opt(&b.email),
                    website: clone_opt(&b.website),
                    whatsapp: clone_opt(&b.whatsapp),
                },
            );
        }
    }
    proof {
        assert(store.businesses@.subrange(0, store.businesses@.len() as int) =~= store.businesses@);
    }
    Ok(out)
}

/// The fields a business patch gives pass validation.
pub open spec fn business_patch_valid(p: BusinessUpdateRequest) -> bool {
    &&& match p.description {
        Some(v) => v@.len() >= 10,
        None => true,
    }
    &&& match p.phone_number {
        Some(v) => v@.len() >= 10,
        None => true,
    }
    &&& match p.email {
        Some(v) => email_ok(v@),
        None => true,
    }
}

/// A business patch gives at least one field.
pub open spec fn business_patch_nonempty(p: BusinessUpdateRequest) -> bool {
    ||| p.description is Some
    ||| p.phone_number is Some
    ||| p.email is Some
    ||| p.website is Some
    ||| p.whatsapp is Some
}

/// The business row after a sparse patch.
pub open spec fn business_patched(pre: BusinessRow, post: BusinessRow, p: BusinessUpdateRequest)
    -> bool {
    &&& post.id == pre.id
    &&& post.user_id == pre.user_id
    &&& opt_str_like(post.business_name, pre.business_name)
    &&& patched(post.description, p.description, pre.description)
    &&& opt_str_like(post.category, pre.category)
    &&& opt_str_like(post.location, pre.location)
    &&& opt_str_like(post.license_number, pre.license_number)
    &&& opt_str_like(post.krapin, pre.krapin)
    &&& patched(post.phone_number, p.phone_number, pre.phone_number)
    &&& patched(post.email, p.email, pre.email)
    &&& patched(post.website, p.website, pre.website)
    &&& patched(post.whatsapp, p.whatsapp, pre.whatsapp)
    &&& opt_str_like(post.logo, pre.logo)
    &&& opt_str_like(post.profile_photo, pre.profile_photo)
    &&& opt_str_like(post.cover_photo, pre.cover_photo)
}

/// Applies a sparse patch to the caller's own business profile. Only a
/// business account may; an empty patch is refused.
pub fn update_business_profile(
    store: &mut Store,
    user: CurrentUser,
    payload: &BusinessUpdateRequest,
) -> (r: Result<(), ApiError>)
    requires
        old(store).wf(),
    ensures
        final(store).wf(),
        businesses_frame(*old(store), *final(store)),
        final(store).next_id == old(store).next_id,
        r is Err ==> *final(store) == *old(store),
        !crate::store::user_exists(old(store).users@, user.user_id) ==> r == Err::<(), ApiError>(
            ApiError::NotFound,
        ),
        (exists|u: int|
            0 <= u < old(store).users@.len() && (#[trigger] old(store).users@[u]).id
                == user.user_id && old(store).users@[u].role == Role::Business)
            && business_patch_valid(*payload) && business_patch_nonempty(*payload) ==> r is Ok,
        match r {
            Ok(u) => {
                &&& business_patch_valid(*payload)
                &&& business_patch_nonempty(*payload)
                &&& final(store).businesses@.len() == old(store).businesses@.len()
                &&& forall|j: int|
                    0 <= j < old(store).businesses@.len() && (#[trigger] old(store).businesses@[j]).user_id
                        != user.user_id ==> final(store).businesses@[j] == old(store).businesses@[j]
                &&& forall|j: int|
                    0 <= j < old(store).businesses@.len() && (#[trigger] old(store).businesses@[j]).user_id
                        == user.user_id ==> business_patched(
                        old(store).businesses@[j],
                        final(store).businesses@[j],
                        *payload,
                    )
            },
            Err(e) => {
                ||| (e == ApiError::NotFound && !crate::store::user_exists(
                    old(store).users@,
                    user.user_id,
                ))
                ||| (e == ApiError::Forbidden && exists|u: int|
                    0 <= u < old(store).users@.len() && (#[trigger] old(store).users@[u]).id
                        == user.user_id && old(store).users@[u].role != Role::Business)
                ||| (e == ApiError::Validation && (!business_patch_valid(*payload)
                    || !business_patch_nonempty(*payload)))
            },
        },
{
    let uk = match crate::store::user_index_by_id(&store.users, user.user_id) {
        Some(k) => k,
        None => {
            return Err(ApiError::NotFound);
        },
    };
    match store.users[uk].role {
        Role::Business => {},
        _ => {
            assert(store.users@[uk as int].id == user.user_id);
            return Err(ApiError::Forbidden);
        },
    }
    proof {
        assert(store.users@[uk as int].id == user.user_id && store.users@[uk as int].role
            == Role::Business);
    }
    if let Some(v) = &payload.description {
        if char_len(v.as_str()) < 10 {
            return Err(ApiError::Validation);
        }
    }
    if let Some(v) = &payload.phone_number {
        if char_len(v.as_str()) < 10 {
            return Err(ApiError::Validation);
        }
    }
    if let Some(v) = &payload.email {
        if !is_valid_email(v.as_str()) {
            return Err(ApiError::Validation);
        }
    }
    let some_field = payload.description.is_some() || payload.phone_number.is_some()
        || payload.email.is_some() || payload.website.is_some() || payload.whatsapp.is_some();
    if !some_field {
        return Err(ApiError::Validation);
    }
    let k = match crate::store::business_index_by_user(&store.businesses, user.user_id) {
        Some(k) => k,
        None => {
            return Ok(());
        },
    };
    let row = BusinessRow {
        id: store.businesses[k].id,
        user_id: store.businesses[k].user_id,
        business_name: clone_opt(&store.businesses[k].business_name),
        description: patch_opt(&payload.description, &store.businesses[k].description),
        category: clone_opt(&store.businesses[k].category),
        location: clone_opt(&store.businesses[k].location),
        license_number: clone_opt(&store.businesses[k].license_number),
        krapin: clone_opt(&store.businesses[k].krapin),
        phone_number: patch_opt(&payload.phone_number, &store.businesses[k].phone_number),
        email: patch_opt(&payload.email, &store.businesses[k].email),
        website: patch_opt(&payload.website, &store.businesses[k].website),
        whatsapp: patch_opt(&payload.whatsapp, &store.businesses[k].whatsapp),
        logo: clone_opt(&store.businesses[k].logo),
        profile_photo: clone_opt(&store.businesses[k].profile_photo),
        cover_photo: clone_opt(&store.businesses[k].cover_photo),
    };
    store.businesses[k] = row;
    proof {
        assert(forall|j: int|
            0 <= j < old(store).businesses@.len() && j != k ==> (#[trigger] old(store).businesses@[j]).user_id
                != user.user_id);
    }
    Ok(())
}

/// Which stored media path a business upload replaces.
#[derive(Clone, Copy, Debug, PartialEq, Eq, Structural)]
pub enum BusinessPhoto {
    Logo,
    ProfilePicture,
    CoverPhoto,
}

/// The businesses table after a photo upload: the caller's row carries
/// the new path in the field `kind` names, every other field and every
/// other row kept.
pub open spec fn business_photo_effect(
    pre: Store,
    post: Store,
    user_id: i32,
    kind: BusinessPhoto,
    path: Seq<char>,
) -> bool {
    &&& post.businesses@.len() == pre.businesses@.len()
    &&& forall|j: int|
        0 <= j < pre.businesses@.len() && (#[trigger] pre.businesses@[j]).user_id != user_id
            ==> post.businesses@[j] == pre.businesses@[j]
    &&& forall|j: int|
        0 <= j < pre.businesses@.len() && (#[trigger] pre.businesses@[j]).user_id == user_id
            ==> {
            let b0 = pre.businesses@[j];
            let b1 = post.businesses@[j];
            &&& b1.id == b0.id
            &&& b1.user_id == b0.user_id
            &&& opt_str_like(b1.business_name, b0.business_name)
            &&& opt_str_like(b1.description, b0.description)
            &&& opt_str_like(b1.category, b0.category)
            &&& opt_str_like(b1.location, b0.location)
            &&& opt_str_like(b1.license_number, b0.license_number)
            &&& opt_str_like(b1.krapin, b0.krapin)
            &&& opt_str_like(b1.phone_number, b0.phone_number)
            &&& opt_str_like(b1.email, b0.email)
            &&& opt_str_like(b1.website, b0.website)
            &&& opt_str_like(b1.whatsapp, b0.whatsapp)
            &&& (match kind {
                BusinessPhoto::Logo => (match b1.logo {
                    Some(v) => v@ == path,
                    None => false,
                }) && opt_str_like(b1.profile_photo, b0.profile_photo) && opt_str_like(
                    b1.cover_photo,
                    b0.cover_photo,
                ),
                BusinessPhoto::ProfilePicture => (match b1.profile_photo {
                    Some(v) => v@ == path,
                    None => false,
                }) && opt_str_like(b1.logo, b0.logo) && opt_str_like(
                    b1.cover_photo,
                    b0.cover_photo,
                ),
                BusinessPhoto::CoverPhoto => (match b1.cover_photo {
                    Some(v) => v@ == path,
                    None => false,
                }) && opt_str_like(b1.logo, b0.logo) && opt_str_like(
                    b1.profile_photo,
                    b0.profile_photo,
                ),
            })
        }
}

/// A logo upload passes its role gate: the caller's user row exists and
/// is a business account. Other photo kinds have no gate.
pub open spec fn photo_gate_passes(pre: Store, user_id: i32, kind: BusinessPhoto) -> bool {
    match kind {
        BusinessPhoto::Logo => exists|u: int|
            0 <= u < pre.users@.len() && (#[trigger] pre.users@[u]).id == user_id
                && pre.users@[u].role == Role::Business,
        _ => true,
    }
}

/// Stores a freshly saved media path on the caller's business row. Only a
/// business account may store a logo.
pub fn store_business_photo(
    store: &mut Store,
    user: CurrentUser,
    kind: BusinessPhoto,
    file_path: String,
) -> (r: Result<(), ApiError>)
    requires
        old(store).wf(),
    ensures
        final(store).wf(),
        businesses_frame(*old(store), *final(store)),
        final(store).next_id == old(store).next_id,
        r is Err ==> *final(store) == *old(store),
        photo_gate_passes(*old(store), user.user_id, kind) ==> r is Ok,
        match r {
            Ok(u) => business_photo_effect(
                *old(store),
                *final(store),
                user.user_id,
                kind,
                file_path@,
            ),
            Err(e) => {
                ||| (e == ApiError::NotFound && kind == BusinessPhoto::Logo
                    && !crate::store::user_exists(old(store).users@, user.user_id))
                ||| (e == ApiError::Forbidden && kind == BusinessPhoto::Logo && exists|u: int|
                    0 <= u < old(store).users@.len() && (#[trigger] old(store).users@[u]).id
                        == user.user_id && old(store).users@[u].role != Role::Business)
            },
        },
{
    if matches!(kind, BusinessPhoto::Logo) {
        let uk = match crate::store::user_index_by_id(&store.users, user.user_id) {
            Some(k) => k,
            None => {
                return Err(ApiError::NotFound);
            },
        };
        match store.users[uk].role {
            Role::Business => {},
            _ => {
                assert(store.users@[uk as int].id == user.user_id);
                return Err(ApiError::Forbidden);
            },
        }
        proof {
            assert(store.users@[uk as int].id == user.user_id && store.users@[uk as int].role
                == Role::Business);
        }
    }
    let k = match crate::store::business_index_by_user(&store.businesses, user.user_id) {
        Some(k) => k,
        None => {
            return Ok(());
        },
    };
    let logo = match kind {
        BusinessPhoto::Logo => Some(file_path.clone()),
        _ => clone_opt(&store.businesses[k].logo),
    };
    let profile_photo = match kind {
        BusinessPhoto::ProfilePicture => Some(file_path.clone()),
        _ => clone_opt(&store.businesses[k].profile_photo),
    };
    let cover_photo = match kind {
        BusinessPhoto::CoverPhoto => Some(file_path.clone()),
        _ => clone_opt(&store.businesses[k].cover_photo),
    };
    let row = BusinessRow {
        id: store.businesses[k].id,
        user_id: store.businesses[k].user_id,
        business_name: clone_opt(&store.businesses[k].business_name),
        description: clone_opt(&store.businesses[k].description),
        category: clone_opt(&store.businesses[k].category),
        location: clone_opt(&store.businesses[k].location),
        license_number: clone_opt(&store.businesses[k].license_number),
        krapin: clone_opt(&store.businesses[k].krapin),
        phone_number: clone_opt(&store.businesses[k].phone_number),
        email: clone_opt(&store.businesses[k].email),
        website: clone_opt(&store.businesses[k].website),
        whatsapp: clone_opt(&store.businesses[k].whatsapp),
        logo,
        profile_photo,
        cover_photo,
    };
    store.businesses[k] = row;
    proof {
        assert(forall|j: int|
            0 <= j < old(store).businesses@.len() && j != k ==> (#[trigger] old(store).businesses@[j]).user_id
                != user.user_id);
    }
    Ok(())
}

/// Stores a freshly saved business logo path; a client or provider caller
/// is refused.
pub fn upload_business_logo(store: &mut Store, user: CurrentUser, file_path: String) -> (r: Result<
    (),
    ApiError,
>)
    requires
        old(store).wf(),
    ensures
        final(store).wf(),
        businesses_frame(*old(store), *final(store)),
        final(store).next_id == old(store).next_id,
        r is Err ==> *final(store) == *old(store),
        photo_gate_passes(*old(store), user.user_id, BusinessPhoto::Logo) ==> r is Ok,
        match r {
            Ok(u) => business_photo_effect(
                *old(store),
                *final(store),
                user.user_id,
                BusinessPhoto::Logo,
                file_path@,
            ),
            Err(e) => {
                ||| (e == ApiError::NotFound && !crate::store::user_exists(
                    old(store).users@,
                    user.user_id,
                ))
                ||| (e == ApiError::Forbidden && exists|u: int|
                    0 <= u < old(store).users@.len() && (#[trigger] old(store).users@[u]).id
                        == user.user_id && old(store).users@[u].role != Role::Business)
            },
        },
{
    store_business_photo(store, user, BusinessPhoto::Logo, file_path)
}

/// Stores a freshly saved business profile picture path.
pub fn upload_business_profile_picture(store: &mut Store, user: CurrentUser, file_path: String) -> (r:
    Result<(), ApiError>)
    requires
        old(store).wf(),
    ensures
        final(store).wf(),
        businesses_frame(*old(store), *final(store)),
        final(store).next_id == old(store).next_id,
        r is Ok,
        business_photo_effect(
            *old(store),
            *final(store),
            user.user_id,
            BusinessPhoto::ProfilePicture,
            file_path@,
        ),
{
    store_business_photo(store, user, BusinessPhoto::ProfilePicture, file_path)
}

/// Stores a freshly saved business cover photo path.
pub fn upload_business_cover_photo(store: &mut Store, user: CurrentUser, file_path: String) -> (r:
    Result<(), ApiError>)
    requires
        old(store).wf(),
    ensures
        final(store).wf(),
        businesses_frame(*old(store), *final(store)),
        final(store).next_id == old(store).next_id,
        r is Ok,
        business_photo_effect(
            *old(store),
            *final(store),
            user.user_id,
            BusinessPhoto::CoverPhoto,
            file_path@,
        ),
{
    store_business_photo(store, user, BusinessPhoto::CoverPhoto, file_path)
}

} // verus!
