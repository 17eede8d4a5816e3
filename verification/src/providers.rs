//! Service-provider profiles: onboarding as an update of the row created
//! at registration, sparse profile patches, weekly availability, and the
//! public listing.

use vstd::prelude::*;

use crate::auth::CurrentUser;
use crate::errors::ApiError;
use crate::store::{AvailabilityRow, ProviderRow, Role, Store, TargetType};
use crate::validate::{char_len, email_ok, is_valid_email, opt_str_like, patched};

verus! {

pub struct ProviderOnboardRequest {
    pub service_name: String,
    pub service_description: String,
    pub category: Option<String>,
    pub location: Option<String>,
    pub phone_number: Option<String>,
    pub email: String,
    pub website: Option<String>,
    pub whatsapp: Option<String>,
}

pub struct ProviderQuery {
    pub category: Option<String>,
    pub location: Option<String>,
}

pub struct UpdateProviderProfileRequest {
    pub service_name: Option<String>,
    pub service_description: Option<String>,
    pub location: Option<String>,
    pub phone_number: Option<String>,
    pub email: Option<String>,
    pub website: Option<String>,
    pub whatsapp: Option<String>,
}

/// A provider's own profile data, as returned to its owner.
pub struct ProviderData {
    pub id: i32,
    pub service_name: Option<String>,
    pub service_description: Option<String>,
    pub category: Option<String>,
    pub location: Option<String>,
    pub phone_number: Option<String>,
    pub email: Option<String>,
    pub website: Option<String>,
    pub whatsapp: Option<String>,
}

pub struct GetProviderDataQuery {
    pub provider_id: String,
}

pub struct ProviderAvailabilty {
    pub provider_id: i32,
    pub is_available: bool,
    pub day: String,
    pub start_time: String,
    pub end_time: String,
}

pub struct AvailabilityItem {
    pub id: Option<i32>,
    pub day: String,
    pub start_time: String,
    pub end_time: String,
    pub is_available: bool,
}

pub struct BulkAvailabilityUpdate {
    pub availability: Vec<AvailabilityItem>,
}

/// A public listing entry for a provider.
pub struct PublicProvider {
    pub id: i32,
    pub service_name: Option<String>,
    pub category: Option<String>,
    pub location: Option<String>,
    pub email: Option<String>,
    pub phone_number: Option<String>,
    pub website: Option<String>,
}

/// Everything a provider endpoint does not touch stays as it was.
pub open spec fn providers_frame(pre: Store, post: Store) -> bool {
    &&& post.users == pre.users
    &&& post.clients == pre.clients
    &&& post.businesses == pre.businesses
    &&& post.admins == pre.admins
    &&& post.password_resets == pre.password_resets
    &&& post.categories == pre.categories
    &&& post.services == pre.services
    &&& post.bookings == pre.bookings
    &&& post.messages == pre.messages
    &&& post.interactions == pre.interactions
    &&& post.favorites == pre.favorites
    &&& post.reviews == pre.reviews
    &&& post.posts == pre.posts
    &&& post.attachments == pre.attachments
    &&& post.counties == pre.counties
    &&& post.constituencies == pre.constituencies
    &&& post.wards == pre.wards
    &&& post.provider_categories == pre.provider_categories
    &&& post.business_categories == pre.business_categories
    &&& post.branch_locations == pre.branch_locations
    &&& post.provider_locations == pre.provider_locations
}

/// An onboarding payload passes validation: a service name of at least 3
/// characters, a description of at least 10, a phone number of at least
/// 10 when given, and a well-shaped email.
pub open spec fn provider_onboard_valid(p: ProviderOnboardRequest) -> bool {
    &&& p.service_name@.len() >= 3
    &&& p.service_description@.len() >= 10
    &&& match p.phone_number {
        Some(ph) => ph@.len() >= 10,
        None => true,
    }
    &&& email_ok(p.email@)
}

/// The provider row after onboarding: every profile field replaced by the
/// payload's, id, owner and photos kept.
pub open spec fn provider_onboarded(pre: ProviderRow, post: ProviderRow, p: ProviderOnboardRequest)
    -> bool {
    &&& post.id == pre.id
    &&& post.user_id == pre.user_id
    &&& (match post.service_name {
        Some(v) => v@ == p.service_name@,
        None => false,
    })
    &&& (match post.service_description {
        Some(v) => v@ == p.service_description@,
        None => false,
    })
    &&& opt_str_like(post.category, p.category)
    &&& opt_str_like(post.location, p.location)
    &&& opt_str_like(post.phone_number, p.phone_number)
    &&& (match post.email {
        Some(v) => v@ == p.email@,
        None => false,
    })
    &&& opt_str_like(post.website, p.website)
    &&& opt_str_like(post.whatsapp, p.whatsapp)
    &&& opt_str_like(post.profile_photo, pre.profile_photo)
    &&& opt_str_like(post.cover_photo, pre.cover_photo)
}

fn clone_opt(s: &Option<String>) -> (r: Option<String>)
    ensures
        opt_str_like(r, *s),
{
    match s {
        Some(v) => Some(v.clone()),
        None => None,
    }
}

/// A provider row freshly created by onboarding: the payload's fields,
/// the given id and owner, and no photos yet.
pub open spec fn provider_created(post: ProviderRow, id: i32, user_id: i32, p: ProviderOnboardRequest)
    -> bool {
    &&& post.id == id
    &&& post.user_id == user_id
    &&& (match post.service_name {
        Some(v) => v@ == p.service_name@,
        None => false,
    })
    &&& (match post.service_description {
        Some(v) => v@ == p.service_description@,
        None => false,
    })
    &&& opt_str_like(post.category, p.category)
    &&& opt_str_like(post.location, p.location)
    &&& opt_str_like(post.phone_number, p.phone_number)
    &&& (match post.email {
        Some(v) => v@ == p.email@,
        None => false,
    })
    &&& opt_str_like(post.website, p.website)
    &&& opt_str_like(post.whatsapp, p.whatsapp)
    &&& post.profile_photo is None
    &&& post.cover_photo is None
}

/// Onboards the caller's provider profile as an upsert: an existing row
/// is updated in place; a provider-role caller without a row gets a
/// fresh one; a caller who is not a provider is refused. Exactly one
/// provider row per user exists afterwards either way.
pub fn onboard_service_provider(store: &mut Store, user: CurrentUser, payload: ProviderOnboardRequest)
    -> (r: Result<i32, ApiError>)
    requires
        old(store).wf(),
        old(store).next_id < i32::MAX,
    ensures
        final(store).wf(),
        providers_frame(*old(store), *final(store)),
        final(store).next_id <= old(store).next_id + 1,
        r is Err ==> *final(store) == *old(store),
        !provider_onboard_valid(payload) ==> r == Err::<i32, ApiError>(ApiError::Validation),
        provider_onboard_valid(payload) ==> {
            if (forall|j: int|
                0 <= j < old(store).providers@.len() ==> (#[trigger] old(store).providers@[j]).user_id != user.user_id) {
                if (exists|u: int|
                    0 <= u < old(store).users@.len() && (#[trigger] old(store).users@[u]).id
                        == user.user_id && old(store).users@[u].role == Role::Provider) {
                    &&& r == Ok::<i32, ApiError>(old(store).next_id)
                    &&& final(store).next_id == old(store).next_id + 1
                    &&& final(store).providers@.len() == old(store).providers@.len() + 1
                    &&& final(store).providers@.subrange(0, old(store).providers@.len() as int)
                        == old(store).providers@
                    &&& provider_created(
                        final(store).providers@.last(),
                        old(store).next_id,
                        user.user_id,
                        payload,
                    )
                } else {
                    r == Err::<i32, ApiError>(ApiError::Forbidden)
                }
            } else {
                &&& r is Ok
                &&& final(store).next_id == old(store).next_id
                &&& final(store).providers@.len() == old(store).providers@.len()
                &&& forall|j: int|
                    0 <= j < old(store).providers@.len() && (#[trigger] old(store).providers@[j]).user_id != user.user_id ==> final(store).providers@[j] == old(store).providers@[j]
                &&& forall|j: int|
                    0 <= j < old(store).providers@.len() && (#[trigger] old(store).providers@[j]).user_id == user.user_id ==> provider_onboarded(
                        old(store).providers@[j],
                        final(store).providers@[j],
                        payload,
                    ) && r == Ok::<i32, ApiError>(old(store).providers@[j].id)
            }
        },
{
    if char_len(payload.service_name.as_str()) < 3 {
        return Err(ApiError::Validation);
    }
    if char_len(payload.service_description.as_str()) < 10 {
        return Err(ApiError::Validation);
    }
    if let Some(ph) = &payload.phone_number {
        if char_len(ph.as_str()) < 10 {
            return Err(ApiError::Validation);
        }
    }
    if !is_valid_email(payload.email.as_str()) {
        return Err(ApiError::Validation);
    }
    let k = match crate::store::provider_index_by_user(&store.providers, user.user_id) {
        Some(k) => k,
        None => {
            // No row yet: create one for a provider-role caller.
            let uk = match crate::store::user_index_by_id(&store.users, user.user_id) {
                Some(uk) => uk,
                None => {
                    return Err(ApiError::Forbidden);
                },
            };
            match store.users[uk].role {
                Role::Provider => {},
                _ => {
                    assert(store.users@[uk as int].id == user.user_id);
                    return Err(ApiError::Forbidden);
                },
            }
            proof {
                assert(store.users@[uk as int].id == user.user_id
                    && store.users@[uk as int].role == Role::Provider);
                assert(1 <= store.users@[uk as int].id < store.next_id);
            }
            let pid = store.next_id;
            store.providers.push(
                ProviderRow {
                    id: pid,
                    user_id: user.user_id,
                    service_name: Some(payload.service_name),
                    service_description: Some(payload.service_description),
                    category: payload.category,
                    location: payload.location,
                    phone_number: payload.phone_number,
                    email: Some(payload.email),
                    website: payload.website,
                    whatsapp: payload.whatsapp,
                    profile_photo: None,
                    cover_photo: None,
                },
            );
            store.next_id = pid + 1;
            return Ok(pid);
        },
    };
    let pid = store.providers[k].id;
    let row = ProviderRow {
        id: pid,
        user_id: store.providers[k].user_id,
        service_name: Some(payload.service_name),
        service_description: Some(payload.service_description),
        category: payload.category,
        location: payload.location,
        phone_number: payload.phone_number,
        email: Some(payload.email),
        website: payload.website,
        whatsapp: payload.whatsapp,
        profile_photo: clone_opt(&store.providers[k].profile_photo),
        cover_photo: clone_opt(&store.providers[k].cover_photo),
    };
    store.providers[k] = row;
    proof {
        assert(forall|j: int|
            0 <= j < store.providers@.len() && j != k ==> store.providers@[j] == old(store).providers@[j]);
        assert(forall|j: int|
            0 <= j < old(store).providers@.len() && j != k ==> (#[trigger] old(store).providers@[j]).user_id != user.user_id);
    }
    Ok(pid)
}

/// A sparse patch gives at least one field.
pub open spec fn provider_patch_nonempty(p: UpdateProviderProfileRequest) -> bool {
    ||| p.service_name is Some
    ||| p.service_description is Some
    ||| p.location is Some
    ||| p.phone_number is Some
    ||| p.email is Some
    ||| p.website is Some
    ||| p.whatsapp is Some
}

/// The fields a patch gives pass validation.
pub open spec fn provider_patch_valid(p: UpdateProviderProfileRequest) -> bool {
    &&& match p.service_name {
        Some(v) => v@.len() >= 3,
        None => true,
    }
    &&& match p.service_description {
        Some(v) => v@.len() >= 10,
        None => true,
    }
    &&& match p.phone_number {
        Some(v) => v@.len() >= 10,
        None => true,
    }
    &&& match p.email {
        Some(v) => email_ok(v@),
        None => true,
    }
}

/// The provider row after a sparse patch: given fields replaced, omitted
/// fields kept.
pub open spec fn provider_patched(
    pre: ProviderRow,
    post: ProviderRow,
    p: UpdateProviderProfileRequest,
) -> bool {
    &&& post.id == pre.id
    &&& post.user_id == pre.user_id
    &&& patched(post.service_name, p.service_name, pre.service_name)
    &&& patched(post.service_description, p.service_description, pre.service_description)
    &&& opt_str_like(post.category, pre.category)
    &&& patched(post.location, p.location, pre.location)
    &&& patched(post.phone_number, p.phone_number, pre.phone_number)
    &&& patched(post.email, p.email, pre.email)
    &&& patched(post.website, p.website, pre.website)
    &&& patched(post.whatsapp, p.whatsapp, pre.whatsapp)
    &&& opt_str_like(post.profile_photo, pre.profile_photo)
    &&& opt_str_like(post.cover_photo, pre.cover_photo)
}

fn patch_opt(patch: &Option<String>, pre: &Option<String>) -> (r: Option<String>)
    ensures
        patched(r, *patch, *pre),
{
    match patch {
        Some(v) => Some(v.clone()),
        None => clone_opt(pre),
    }
}

/// Applies a sparse patch to the caller's own provider profile. A patch
/// with no fields is refused; for a caller without a provider row the
/// update matches nothing and succeeds without a change.
pub fn update_provider_profile(
    store: &mut Store,
    user: CurrentUser,
    payload: &UpdateProviderProfileRequest,
) -> (r: Result<(), ApiError>)
    requires
        old(store).wf(),
    ensures
        final(store).wf(),
        providers_frame(*old(store), *final(store)),
        final(store).next_id == old(store).next_id,
        r is Err ==> *final(store) == *old(store),
        !provider_patch_valid(*payload) ==> r == Err::<(), ApiError>(ApiError::Validation),
        provider_patch_valid(*payload) && !provider_patch_nonempty(*payload) ==> r == Err::<
            (),
            ApiError,
        >(ApiError::Validation),
        provider_patch_valid(*payload) && provider_patch_nonempty(*payload) ==> {
            &&& r == Ok::<(), ApiError>(())
            &&& final(store).providers@.len() == old(store).providers@.len()
            &&& forall|j: int|
                0 <= j < old(store).providers@.len() && (#[trigger] old(store).providers@[j]).user_id != user.user_id ==> final(store).providers@[j] == old(store).providers@[j]
            &&& forall|j: int|
                0 <= j < old(store).providers@.len() && (#[trigger] old(store).providers@[j]).user_id == user.user_id ==> provider_patched(
                    old(store).providers@[j],
                    final(store).providers@[j],
                    *payload,
                )
        },
{
    if let Some(v) = &payload.service_name {
        if char_len(v.as_str()) < 3 {
            return Err(ApiError::Validation);
        }
    }
    if let Some(v) = &payload.service_description {
        if char_len(v.as_str()) < 10 {
            return Err(ApiError::Validation);
        }
    }
    if let Some(v) = &payload.phone_number {
        if char_len(v.as_str()) < 10 {
            return Err(ApiError::Validation);
        }
    }
    if let Some(v) = &payload.email {
        if !is_valid_email(v.as_str()) {
            return Err(ApiError::Validation);
        }
    }
    let some_field = payload.service_name.is_some() || payload.service_description.is_some()
        || payload.location.is_some() || payload.phone_number.is_some() || payload.email.is_some()
        || payload.website.is_some() || payload.whatsapp.is_some();
    if !some_field {
        return Err(ApiError::Validation);
    }
    let k = match crate::store::provider_index_by_user(&store.providers, user.user_id) {
        Some(k) => k,
        None => {
            return Ok(());
        },
    };
    let row = ProviderRow {
        id: store.providers[k].id,
        user_id: store.providers[k].user_id,
        service_name: patch_opt(&payload.service_name, &store.providers[k].service_name),
        service_description: patch_opt(
            &payload.service_description,
            &store.providers[k].service_description,
        ),
        category: clone_opt(&store.providers[k].category),
        location: patch_opt(&payload.location, &store.providers[k].location),
        phone_number: patch_opt(&payload.phone_number, &store.providers[k].phone_number),
        email: patch_opt(&payload.email, &store.providers[k].email),
        website: patch_opt(&payload.website, &store.providers[k].website),
        whatsapp: patch_opt(&payload.whatsapp, &store.providers[k].whatsapp),
        profile_photo: clone_opt(&store.providers[k].profile_photo),
        cover_photo: clone_opt(&store.providers[k].cover_photo),
    };
    store.providers[k] = row;
    proof {
        assert(forall|j: int|
            0 <= j < old(store).providers@.len() && j != k ==> (#[trigger] old(store).providers@[j]).user_id != user.user_id);
    }
    Ok(())
}

/// Stores the caller's freshly saved profile photo path.
pub fn upload_provider_profile_photo(store: &mut Store, user: CurrentUser, file_url: String) -> (r:
    Result<(), ApiError>)
    requires
        old(store).wf(),
    ensures
        final(store).wf(),
        providers_frame(*old(store), *final(store)),
        final(store).next_id == old(store).next_id,
        r == Ok::<(), ApiError>(()),
        final(store).providers@.len() == old(store).providers@.len(),
        forall|j: int|
            0 <= j < old(store).providers@.len() && (#[trigger] old(store).providers@[j]).user_id
                != user.user_id ==> final(store).providers@[j] == old(store).providers@[j],
        forall|j: int|
            0 <= j < old(store).providers@.len() && (#[trigger] old(store).providers@[j]).user_id
                == user.user_id ==> {
                let post = final(store).providers@[j];
                let pre = old(store).providers@[j];
                post.id == pre.id && post.user_id == pre.user_id && (match post.profile_photo {
                    Some(v) => v@ == file_url@,
                    None => false,
                }) && opt_str_like(post.cover_photo, pre.cover_photo) && opt_str_like(
                    post.service_name,
                    pre.service_name,
                ) && opt_str_like(post.service_description, pre.service_description)
                    && opt_str_like(post.category, pre.category) && opt_str_like(
                    post.location,
                    pre.location,
                ) && opt_str_like(post.phone_number, pre.phone_number) && opt_str_like(
                    post.email,
                    pre.email,
                ) && opt_str_like(post.website, pre.website) && opt_str_like(
                    post.whatsapp,
                    pre.whatsapp,
                )
            },
{
    let k = match crate::store::provider_index_by_user(&store.providers, user.user_id) {
        Some(k) => k,
        None => {
            return Ok(());
        },
    };
    let row = ProviderRow {
        id: store.providers[k].id,
        user_id: store.providers[k].user_id,
        service_name: clone_opt(&store.providers[k].service_name),
        service_description: clone_opt(&store.providers[k].service_description),
        category: clone_opt(&store.providers[k].category),
        location: clone_opt(&store.providers[k].location),
        phone_number: clone_opt(&store.providers[k].phone_number),
        email: clone_opt(&store.providers[k].email),
        website: clone_opt(&store.providers[k].website),
        whatsapp: clone_opt(&store.providers[k].whatsapp),
        profile_photo: Some(file_url),
        cover_photo: clone_opt(&store.providers[k].cover_photo),
    };
    store.providers[k] = row;
    proof {
        assert(forall|j: int|
            0 <= j < old(store).providers@.len() && j != k ==> (#[trigger] old(store).providers@[j]).user_id != user.user_id);
    }
    Ok(())
}

/// Stores the caller's freshly saved cover photo path.
pub fn upload_provider_cover_photo(store: &mut Store, user: CurrentUser, file_url: String) -> (r:
    Result<(), ApiError>)
    requires
        old(store).wf(),
    ensures
        final(store).wf(),
        providers_frame(*old(store), *final(store)),
        final(store).next_id == old(store).next_id,
        r == Ok::<(), ApiError>(()),
        final(store).providers@.len() == old(store).providers@.len(),
        forall|j: int|
            0 <= j < old(store).providers@.len() && (#[trigger] old(store).providers@[j]).user_id
                != user.user_id ==> final(store).providers@[j] == old(store).providers@[j],
        forall|j: int|
            0 <= j < old(store).providers@.len() && (#[trigger] old(store).providers@[j]).user_id
                == user.user_id ==> {
                let post = final(store).providers@[j];
                let pre = old(store).providers@[j];
                post.id == pre.id && post.user_id == pre.user_id && (match post.cover_photo {
                    Some(v) => v@ == file_url@,
                    None => false,
                }) && opt_str_like(post.profile_photo, pre.profile_photo)
            },
{
    let k = match crate::store::provider_index_by_user(&store.providers, user.user_id) {
        Some(k) => k,
        None => {
            return Ok(());
        },
    };
    let row = ProviderRow {
        id: store.providers[k].id,
        user_id: store.providers[k].user_id,
        service_name: clone_opt(&store.providers[k].service_name),
        service_description: clone_opt(&store.providers[k].service_description),
        category: clone_opt(&store.providers[k].category),
        location: clone_opt(&store.providers[k].location),
        phone_number: clone_opt(&store.providers[k].phone_number),
        email: clone_opt(&store.providers[k].email),
        website: clone_opt(&store.providers[k].website),
        whatsapp: clone_opt(&store.providers[k].whatsapp),
        profile_photo: clone_opt(&store.providers[k].profile_photo),
        cover_photo: Some(file_url),
    };
    store.providers[k] = row;
    proof {
        assert(forall|j: int|
            0 <= j < old(store).providers@.len() && j != k ==> (#[trigger] old(store).providers@[j]).user_id != user.user_id);
    }
    Ok(())
}

/// Every character is an ASCII digit.
pub open spec fn all_digits(s: Seq<char>) -> bool {
    forall|i: int| 0 <= i < s.len() ==> '0' <= #[trigger] s[i] <= '9'
}

/// The number an ASCII digit string denotes.
pub open spec fn digits_value(s: Seq<char>) -> int
    decreases s.len(),
{
    if s.len() == 0 {
        0
    } else {
        digits_value(s.drop_last()) * 10 + (s.last() as int - '0' as int)
    }
}

/// A digit string's value is never negative.
proof fn lemma_digits_nonneg(s: Seq<char>)
    requires
        all_digits(s),
    ensures
        digits_value(s) >= 0,
    decreases s.len(),
{
    if s.len() == 0 {
    } else {
        let dl = s.drop_last();
        assert(all_digits(dl));
        lemma_digits_nonneg(dl);
        assert(digits_value(dl) * 10 >= 0) by (nonlinear_arith)
            requires
                digits_value(dl) >= 0,
        ;
    }
}

/// A digit string's value only grows as digits are appended.
proof fn lemma_digits_prefix_le(s: Seq<char>, i: int)
    requires
        all_digits(s),
        0 <= i <= s.len(),
    ensures
        digits_value(s.subrange(0, i)) <= digits_value(s),
    decreases s.len() - i,
{
    if i == s.len() {
        assert(s.subrange(0, i) =~= s);
    } else {
        let next = s.subrange(0, i + 1);
        assert(all_digits(next));
        assert(next.drop_last() =~= s.subrange(0, i));
        assert(all_digits(s.subrange(0, i)));
        lemma_digits_nonneg(s.subrange(0, i));
        assert(digits_value(s.subrange(0, i)) * 10 >= digits_value(s.subrange(0, i)))
            by (nonlinear_arith)
            requires
                digits_value(s.subrange(0, i)) >= 0,
        ;
        lemma_digits_prefix_le(s, i + 1);
    }
}

/// Parses a short decimal id. Succeeds on every digit string of up to
/// ten characters whose value fits; what it returns is always the exact
/// value of the digits.
fn parse_user_id(s: &str) -> (r: Option<i32>)
    ensures
        match r {
            Some(v) => s@.len() > 0 && all_digits(s@) && v as int == digits_value(s@),
            None => true,
        },
        (0 < s@.len() <= 10 && all_digits(s@) && digits_value(s@) <= 0x7fffffff) ==> r is Some,
{
    let n = s.unicode_len();
    if n == 0 || n > 10 {
        return None;
    }
    let mut acc: i64 = 0;
    for i in 0..n
        invariant
            n == s@.len(),
            n <= 10,
            all_digits(s@.subrange(0, i as int)),
            acc == digits_value(s@.subrange(0, i as int)),
            0 <= acc <= 0x7fffffff,
    {
        let c = s.get_char(i);
        if c < '0' || c > '9' {
            assert(s@[i as int] == c);
            return None;
        }
        proof {
            assert(s@.subrange(0, i + 1 as int).drop_last() =~= s@.subrange(0, i as int));
            assert(s@.subrange(0, i + 1 as int).last() == s@[i as int]);
            assert(digits_value(s@.subrange(0, i + 1)) == digits_value(s@.subrange(0, i as int))
                * 10 + (s@[i as int] as int - '0' as int));
            assert(acc * 10 <= 0x4FFFFFFF6 && acc * 10 >= 0) by (nonlinear_arith)
                requires
                    0 <= acc <= 0x7fffffff,
            ;
        }
        acc = acc * 10 + ((c as u32 - '0' as u32) as i64);
        if acc > 0x7fffffff {
            // More digits can only grow the value further; refuse.
            proof {
                if all_digits(s@) {
                    lemma_digits_prefix_le(s@, i + 1);
                }
            }
            return None;
        }
    }
    proof {
        assert(s@.subrange(0, s@.len() as int) =~= s@);
    }
    Some(acc as i32)
}

/// A provider's own profile, readable only by its owner; the query names
/// the owner's user id.
pub fn get_provider_data(store: &Store, user: CurrentUser, params: &GetProviderDataQuery) -> (r:
    Result<ProviderData, ApiError>)
    requires
        store.wf(),
    ensures
        params.provider_id@.len() == 0 ==> r == Err::<ProviderData, ApiError>(ApiError::Validation),
        match r {
            Ok(d) => digits_value(params.provider_id@) == user.user_id && exists|j: int|
                0 <= j < store.providers@.len() && (#[trigger] store.providers@[j]).user_id
                    == user.user_id && d.id == store.providers@[j].id,
            Err(e) => {
                ||| (e == ApiError::Validation && params.provider_id@.len() == 0)
                ||| (e == ApiError::Forbidden && params.provider_id@.len() > 0 && !(
                params.provider_id@.len() <= 10 && all_digits(params.provider_id@) && digits_value(
                    params.provider_id@,
                ) == user.user_id))
                ||| (e == ApiError::NotFound && forall|j: int|
                    0 <= j < store.providers@.len() ==> (#[trigger] store.providers@[j]).user_id
                        != user.user_id)
            },
        },
        (0 < params.provider_id@.len() <= 10 && all_digits(params.provider_id@) && digits_value(
            params.provider_id@,
        ) == user.user_id && user.user_id >= 0 && exists|j: int|
            0 <= j < store.providers@.len() && (#[trigger] store.providers@[j]).user_id
                == user.user_id) ==> r is Ok,
{
    if params.provider_id.as_str().is_empty() {
        return Err(ApiError::Validation);
    }
    // Only the owner may read this data: the query must name the caller.
    match parse_user_id(params.provider_id.as_str()) {
        Some(v) => {
            if v != user.user_id {
                return Err(ApiError::Forbidden);
            }
        },
        None => {
            proof {
                let s = params.provider_id@;
                if s.len() <= 10 && all_digits(s) && digits_value(s) == user.user_id {
                    lemma_digits_nonneg(s);
                }
            }
            return Err(ApiError::Forbidden);
        },
    }
    let k = match crate::store::provider_index_by_user(&store.providers, user.user_id) {
        Some(k) => k,
        None => {
            return Err(ApiError::NotFound);
        },
    };
    let p = &store.providers[k];
    Ok(
        ProviderData {
            id: p.id,
            service_name: clone_opt(&p.service_name),
            service_description: clone_opt(&p.service_description),
            category: clone_opt(&p.category),
            location: clone_opt(&p.location),
            phone_number: clone_opt(&p.phone_number),
            email: clone_opt(&p.email),
            website: clone_opt(&p.website),
            whatsapp: clone_opt(&p.whatsapp),
        },
    )
}

/// The filter the public provider listing applies: exact category and
/// location matches, where given.
pub open spec fn provider_listing_pred(params: ProviderQuery) -> spec_fn(ProviderRow) -> bool {
    |p: ProviderRow|
        (match params.category {
            None => true,
            Some(c) => match p.category {
                Some(pc) => pc@ == c@,
                None => false,
            },
        }) && (match params.location {
            None => true,
            Some(l) => match p.location {
                Some(pl) => pl@ == l@,
                None => false,
            },
        })
}

/// The public provider listing, optionally narrowed by category and
/// location; filter values are matched as data, never interpolated.
pub fn list_providers(store: &Store, params: &ProviderQuery) -> (r: Vec<PublicProvider>)
    requires
        store.wf(),
    ensures
        ({
            let picked = store.providers@.filter(provider_listing_pred(*params));
            r@.len() == picked.len() && forall|i: int|
                0 <= i < picked.len() ==> {
                    let src = picked[i];
                    &&& (#[trigger] r@[i]).id == src.id
                    &&& opt_str_like(r@[i].service_name, src.service_name)
                    &&& opt_str_like(r@[i].category, src.category)
                    &&& opt_str_like(r@[i].location, src.location)
                    &&& opt_str_like(r@[i].email, src.email)
                    &&& opt_str_like(r@[i].phone_number, src.phone_number)
                    &&& opt_str_like(r@[i].website, src.website)
                }
        }),
{
    let ghost pred = provider_listing_pred(*params);
    let mut out: Vec<PublicProvider> = Vec::new();
    let n = store.providers.len();
    for i in 0..n
        invariant
            n == store.providers@.len(),
            out@.len() == store.providers@.subrange(0, i as int).filter(pred).len(),
            forall|j: int|
                0 <= j < out@.len() ==> {
                    let src = store.providers@.subrange(0, i as int).filter(pred)[j];
                    &&& (#[trigger] out@[j]).id == src.id
                    &&& opt_str_like(out@[j].service_name, src.service_name)
                    &&& opt_str_like(out@[j].category, src.category)
                    &&& opt_str_like(out@[j].location, src.location)
                    &&& opt_str_like(out@[j].email, src.email)
                    &&& opt_str_like(out@[j].phone_number, src.phone_number)
                    &&& opt_str_like(out@[j].website, src.website)
                },
    {
        proof {
            crate::store::lemma_filter_push(
                store.providers@.subrange(0, i as int),
                store.providers@[i as int],
                pred,
            );
            assert(store.providers@.subrange(0, i as int).push(store.providers@[i as int])
                =~= store.providers@.subrange(0, i + 1 as int));
        }
        let p = &store.providers[i];
        let cat_pass = match &params.category {
            None => true,
            Some(c) => match &p.category {
                Some(pc) => crate::validate::str_eq(pc.as_str(), c.as_str()),
                None => false,
            },
        };
        let loc_pass = match &params.location {
            None => true,
            Some(l) => match &p.location {
                Some(pl) => crate::validate::str_eq(pl.as_str(), l.as_str()),
                None => false,
            },
        };
        if cat_pass && loc_pass {
            out.push(
                PublicProvider {
                    id: p.id,
                    service_name: clone_opt(&p.service_name),
                    category: clone_opt(&p.category),
                    location: clone_opt(&p.location),
                    email: clone_opt(&p.email),
                    phone_number: clone_opt(&p.phone_number),
                    website: clone_opt(&p.website),
                },
            );
        }
    }
    proof {
        assert(store.providers@.subrange(0, store.providers@.len() as int) =~= store.providers@);
    }
    out
}

/// An availability row for this provider and day exists.
pub open spec fn has_availability(s: Seq<AvailabilityRow>, pid: i32, day: Seq<char>) -> bool {
    exists|i: int|
        0 <= i < s.len() && (#[trigger] s[i]).provider_id == pid && s[i].day@ == day
}

/// The availability row after an upsert of one day.
pub open spec fn availability_set(post: AvailabilityRow, pid: i32, day: Seq<char>, start: Seq<char>, stop: Seq<char>, avail: bool) -> bool {
    &&& post.provider_id == pid
    &&& post.day@ == day
    &&& post.start_time@ == start
    &&& post.end_time@ == stop
    &&& post.is_available == avail
}

/// No listed item between `d` (exclusive) and `end` (exclusive) names the
/// same day as the item at `d`; with `end` the list's length, the item at
/// `d` is the last word on its day.
pub open spec fn last_listed_before(items: Seq<AvailabilityItem>, d: int, end: int) -> bool {
    forall|e: int| d < e < end ==> (#[trigger] items[e]).day@ != items[d].day@
}

/// Some row stores exactly this item's values for this provider.
pub open spec fn has_avail_values(s: Seq<AvailabilityRow>, pid: i32, item: AvailabilityItem) -> bool {
    exists|j: int|
        0 <= j < s.len() && availability_set(
            #[trigger] s[j],
            pid,
            item.day@,
            item.start_time@,
            item.end_time@,
            item.is_available,
        )
}

/// Upserts one `(provider, day)` availability row: an existing row is
/// replaced in place, a missing one is appended with a fresh id.
fn upsert_availability(
    store: &mut Store,
    pid: i32,
    day: &String,
    start: &String,
    stop: &String,
    avail: bool,
) -> (created: bool)
    requires
        old(store).wf(),
        old(store).next_id < i32::MAX,
    ensures
        final(store).wf(),
        providers_frame(*old(store), *final(store)),
        final(store).providers == old(store).providers,
        final(store).next_id == old(store).next_id + (if created {
            1int
        } else {
            0int
        }),
        created == !has_availability(old(store).availability@, pid, day@),
        !created ==> {
            &&& final(store).availability@.len() == old(store).availability@.len()
            &&& forall|j: int|
                0 <= j < old(store).availability@.len() && !((#[trigger] old(store).availability@[j]).provider_id == pid && old(store).availability@[j].day@ == day@)
                    ==> final(store).availability@[j] == old(store).availability@[j]
            &&& forall|j: int|
                0 <= j < old(store).availability@.len() && (#[trigger] old(store).availability@[j]).provider_id == pid && old(store).availability@[j].day@ == day@
                    ==> availability_set(
                    final(store).availability@[j],
                    pid,
                    day@,
                    start@,
                    stop@,
                    avail,
                ) && final(store).availability@[j].id == old(store).availability@[j].id
        },
        created ==> {
            &&& final(store).availability@.len() == old(store).availability@.len() + 1
            &&& final(store).availability@.subrange(0, old(store).availability@.len() as int)
                == old(store).availability@
            &&& availability_set(final(store).availability@.last(), pid, day@, start@, stop@, avail)
            &&& final(store).availability@.last().id == old(store).next_id
        },
{
    let n = store.availability.len();
    for i in 0..n
        invariant
            n == store.availability@.len(),
            *store == *old(store),
            forall|j: int|
                0 <= j < i ==> !((#[trigger] store.availability@[j]).provider_id == pid
                    && store.availability@[j].day@ == day@),
    {
        if store.availability[i].provider_id == pid && store.availability[i].day == *day {
            assert(store.availability@[i as int].provider_id == pid
                && store.availability@[i as int].day@ == day@);
            let row = AvailabilityRow {
                id: store.availability[i].id,
                provider_id: pid,
                day: day.clone(),
                start_time: start.clone(),
                end_time: stop.clone(),
                is_available: avail,
            };
            store.availability[i] = row;
            proof {
                assert(forall|j: int|
                    0 <= j < old(store).availability@.len() && j != i ==> !((#[trigger] old(store).availability@[j]).provider_id == pid && old(store).availability@[j].day@
                        == day@));
            }
            return false;
        }
    }
    let id = store.next_id;
    store.availability.push(
        AvailabilityRow {
            id,
            provider_id: pid,
            day: day.clone(),
            start_time: start.clone(),
            end_time: stop.clone(),
            is_available: avail,
        },
    );
    store.next_id = id + 1;
    true
}

/// Sets one day of the caller's availability. The caller must name their
/// own user id; the provider row must exist.
pub fn update_provider_availability(store: &mut Store, user: CurrentUser, payload: &ProviderAvailabilty)
    -> (r: Result<bool, ApiError>)
    requires
        old(store).wf(),
        old(store).next_id < i32::MAX,
    ensures
        final(store).wf(),
        providers_frame(*old(store), *final(store)),
        final(store).providers == old(store).providers,
        final(store).next_id <= old(store).next_id + 1,
        r is Err ==> *final(store) == *old(store),
        payload.provider_id != user.user_id ==> r == Err::<bool, ApiError>(ApiError::Forbidden),
        payload.provider_id == user.user_id && !crate::store::provider_exists(
            old(store).providers@,
            payload.provider_id,
        ) ==> r == Err::<bool, ApiError>(ApiError::NotFound),
        payload.provider_id == user.user_id && crate::store::provider_exists(
            old(store).providers@,
            payload.provider_id,
        ) ==> match r {
            Ok(created) => {
                &&& created == !has_availability(
                    old(store).availability@,
                    payload.provider_id,
                    payload.day@,
                )
                &&& exists|j: int|
                    0 <= j < final(store).availability@.len() && availability_set(
                        #[trigger] final(store).availability@[j],
                        payload.provider_id,
                        payload.day@,
                        payload.start_time@,
                        payload.end_time@,
                        payload.is_available,
                    )
            },
            Err(e) => false,
        },
{
    if payload.provider_id != user.user_id {
        return Err(ApiError::Forbidden);
    }
    if crate::store::provider_index_by_id(&store.providers, payload.provider_id).is_none() {
        return Err(ApiError::NotFound);
    }
    let created = upsert_availability(
        store,
        payload.provider_id,
        &payload.day,
        &payload.start_time,
        &payload.end_time,
        payload.is_available,
    );
    proof {
        if created {
            let s = store.availability@;
            assert(availability_set(
                s[s.len() - 1],
                payload.provider_id,
                payload.day@,
                payload.start_time@,
                payload.end_time@,
                payload.is_available,
            ));
        } else {
            let pre = old(store).availability@;
            let w = choose|w: int|
                0 <= w < pre.len() && (#[trigger] pre[w]).provider_id == payload.provider_id
                    && pre[w].day@ == payload.day@;
            assert(availability_set(
                store.availability@[w],
                payload.provider_id,
                payload.day@,
                payload.start_time@,
                payload.end_time@,
                payload.is_available,
            ));
        }
    }
    Ok(created)
}

/// Replaces or creates availability rows for every listed day, as one
/// atomic group. Rows of other providers are untouched; every listed day
/// has a row afterwards.
pub fn update_bulk_availability(store: &mut Store, user: CurrentUser, payload: &BulkAvailabilityUpdate)
    -> (r: Result<(usize, usize), ApiError>)
    requires
        old(store).wf(),
        old(store).next_id + payload.availability@.len() <= i32::MAX,
    ensures
        final(store).wf(),
        providers_frame(*old(store), *final(store)),
        final(store).providers == old(store).providers,
        final(store).next_id <= old(store).next_id + payload.availability@.len(),
        r is Err ==> *final(store) == *old(store),
        (forall|j: int|
            0 <= j < old(store).providers@.len() ==> (#[trigger] old(store).providers@[j]).user_id
                != user.user_id) ==> r == Err::<(usize, usize), ApiError>(ApiError::NotFound),
        (exists|j: int|
            0 <= j < old(store).providers@.len() && (#[trigger] old(store).providers@[j]).user_id
                == user.user_id) ==> r is Ok,
        match r {
            Ok(counts) => {
                &&& counts.0 + counts.1 == payload.availability@.len()
                &&& exists|pid: i32|
                    {
                        &&& #[trigger] old(store).owns_target(
                            user.user_id,
                            TargetType::Provider,
                            pid,
                        )
                        &&& forall|d: int|
                            0 <= d < payload.availability@.len() ==> has_availability(
                                final(store).availability@,
                                pid,
                                (#[trigger] payload.availability@[d]).day@,
                            )
                        &&& forall|d: int|
                            0 <= d < payload.availability@.len() && last_listed_before(
                                payload.availability@,
                                d,
                                payload.availability@.len() as int,
                            ) ==> has_avail_values(
                                final(store).availability@,
                                pid,
                                #[trigger] payload.availability@[d],
                            )
                        &&& final(store).availability@.len() <= old(store).availability@.len()
                            + payload.availability@.len()
                        &&& forall|j: int|
                            0 <= j < final(store).availability@.len() && (#[trigger] final(store).availability@[j]).provider_id != pid ==> j < old(store).availability@.len() && final(store).availability@[j] == old(store).availability@[j]
                    }
            },
            Err(e) => e == ApiError::NotFound && forall|j: int|
                0 <= j < old(store).providers@.len() ==> (#[trigger] old(store).providers@[j]).user_id
                    != user.user_id,
        },
{
    let k = match crate::store::provider_index_by_user(&store.providers, user.user_id) {
        Some(k) => k,
        None => {
            return Err(ApiError::NotFound);
        },
    };
    let pid = store.providers[k].id;
    proof {
        assert(store.providers@[k as int].id == pid && store.providers@[k as int].user_id
            == user.user_id);
        assert(old(store).owns_target(user.user_id, TargetType::Provider, pid));
    }
    let mut updated: usize = 0;
    let mut created: usize = 0;
    let m = payload.availability.len();
    for d in 0..m
        invariant
            m == payload.availability@.len(),
            updated + created == d,
            store.wf(),
            providers_frame(*old(store), *store),
            store.providers == old(store).providers,
            old(store).owns_target(user.user_id, TargetType::Provider, pid),
            store.next_id <= old(store).next_id + created,
            old(store).next_id + payload.availability@.len() <= i32::MAX,
            created <= d,
            store.availability@.len() <= old(store).availability@.len() + created,
            forall|dd: int|
                0 <= dd < d ==> has_availability(
                    store.availability@,
                    pid,
                    (#[trigger] payload.availability@[dd]).day@,
                ),
            forall|dd: int|
                0 <= dd < d && last_listed_before(payload.availability@, dd, d as int)
                    ==> has_avail_values(
                    store.availability@,
                    pid,
                    #[trigger] payload.availability@[dd],
                ),
            forall|j: int|
                0 <= j < store.availability@.len() && (#[trigger] store.availability@[j]).provider_id
                    != pid ==> j < old(store).availability@.len() && store.availability@[j] == old(store).availability@[j],
    {
        let item = &payload.availability[d];
        let ghost pre_avail = store.availability@;
        let was_created = upsert_availability(
            store,
            pid,
            &item.day,
            &item.start_time,
            &item.end_time,
            item.is_available,
        );
        if was_created {
            created = created + 1;
        } else {
            updated = updated + 1;
        }
        proof {
            if was_created {
                let s = store.availability@;
                assert(s[s.len() - 1].provider_id == pid && s[s.len() - 1].day@
                    == payload.availability@[d as int].day@);
            } else {
                let w = choose|w: int|
                    0 <= w < pre_avail.len() && (#[trigger] pre_avail[w]).provider_id == pid
                        && pre_avail[w].day@ == payload.availability@[d as int].day@;
                assert(store.availability@[w].provider_id == pid && store.availability@[w].day@
                    == payload.availability@[d as int].day@);
            }
            assert forall|j: int|
                0 <= j < store.availability@.len() && (#[trigger] store.availability@[j]).provider_id
                    != pid implies j < old(store).availability@.len() && store.availability@[j]
                == old(store).availability@[j] by {
                if was_created {
                    if j < pre_avail.len() {
                        assert(store.availability@[j] == pre_avail[j]);
                        assert(pre_avail[j].provider_id != pid);
                    }
                } else {
                    assert(!((#[trigger] pre_avail[j]).provider_id == pid && pre_avail[j].day@
                        == payload.availability@[d as int].day@));
                    assert(store.availability@[j] == pre_avail[j]);
                }
            }
            assert forall|dd: int|
                0 <= dd < d + 1 && last_listed_before(payload.availability@, dd, d + 1 as int)
                    implies has_avail_values(
                store.availability@,
                pid,
                #[trigger] payload.availability@[dd],
            ) by {
                let item_d = payload.availability@[d as int];
                if dd == d {
                    if was_created {
                        let s = store.availability@;
                        assert(availability_set(
                            s[s.len() - 1],
                            pid,
                            item_d.day@,
                            item_d.start_time@,
                            item_d.end_time@,
                            item_d.is_available,
                        ));
                    } else {
                        let w = choose|w: int|
                            0 <= w < pre_avail.len() && (#[trigger] pre_avail[w]).provider_id
                                == pid && pre_avail[w].day@ == item_d.day@;
                        assert(availability_set(
                            store.availability@[w],
                            pid,
                            item_d.day@,
                            item_d.start_time@,
                            item_d.end_time@,
                            item_d.is_available,
                        ));
                    }
                } else {
                    // The item at dd was the last word on its day before this
                    // step, and this step's day differs.
                    assert(payload.availability@[d as int].day@
                        != payload.availability@[dd].day@);
                    assert(last_listed_before(payload.availability@, dd, d as int));
                    let w = choose|w: int|
                        0 <= w < pre_avail.len() && availability_set(
                            #[trigger] pre_avail[w],
                            pid,
                            payload.availability@[dd].day@,
                            payload.availability@[dd].start_time@,
                            payload.availability@[dd].end_time@,
                            payload.availability@[dd].is_available,
                        );
                    if was_created {
                        assert(store.availability@[w] == pre_avail[w]);
                    } else {
                        assert(!(pre_avail[w].provider_id == pid && pre_avail[w].day@
                            == item_d.day@));
                        assert(store.availability@[w] == pre_avail[w]);
                    }
                }
            }
            assert forall|dd: int| 0 <= dd < d + 1 implies has_availability(
                store.availability@,
                pid,
                (#[trigger] payload.availability@[dd]).day@,
            ) by {
                if dd < d {
                    let w = choose|w: int|
                        0 <= w < pre_avail.len() && (#[trigger] pre_avail[w]).provider_id == pid
                            && pre_avail[w].day@ == payload.availability@[dd].day@;
                    if pre_avail[w].provider_id == pid && pre_avail[w].day@
                        == payload.availability@[d as int].day@ {
                        assert(has_availability(
                            store.availability@,
                            pid,
                            payload.availability@[dd].day@,
                        ));
                    } else {
                        assert(store.availability@[w] == pre_avail[w]);
                    }
                }
            }
        }
    }
    Ok((updated, created))
}

/// The caller's availability rows, in store order.
pub fn get_provider_availability(store: &Store, user: CurrentUser) -> (r: Result<
    Vec<AvailabilityRow>,
    ApiError,
>)
    requires
        store.wf(),
    ensures
        (forall|j: int|
            0 <= j < store.providers@.len() ==> (#[trigger] store.providers@[j]).user_id
                != user.user_id) ==> r == Err::<Vec<AvailabilityRow>, ApiError>(ApiError::NotFound),
        (exists|j: int|
            0 <= j < store.providers@.len() && (#[trigger] store.providers@[j]).user_id
                == user.user_id) ==> r is Ok,
        match r {
            Ok(v) => exists|pid: i32|
                {
                    &&& #[trigger] store.owns_target(user.user_id, TargetType::Provider, pid)
                    &&& v@.len() == store.availability@.filter(
                        |a: AvailabilityRow| a.provider_id == pid,
                    ).len()
                    &&& forall|i: int|
                        0 <= i < v@.len() ==> (#[trigger] v@[i]) == store.availability@.filter(
                            |a: AvailabilityRow| a.provider_id == pid,
                        )[i]
                },
            Err(e) => e == ApiError::NotFound && forall|j: int|
                0 <= j < store.providers@.len() ==> (#[trigger] store.providers@[j]).user_id
                    != user.user_id,
        },
{
    let k = match crate::store::provider_index_by_user(&store.providers, user.user_id) {
        Some(k) => k,
        None => {
            return Err(ApiError::NotFound);
        },
    };
    let pid = store.providers[k].id;
    proof {
        assert(store.providers@[k as int].id == pid && store.providers@[k as int].user_id
            == user.user_id);
        assert(store.owns_target(user.user_id, TargetType::Provider, pid));
    }
    let ghost pred = |a: AvailabilityRow| a.provider_id == pid;
    let mut out: Vec<AvailabilityRow> = Vec::new();
    let n = store.availability.len();
    for i in 0..n
        invariant
            n == store.availability@.len(),
            out@ == store.availability@.subrange(0, i as int).filter(pred),
    {
        proof {
            crate::store::lemma_filter_push(
                store.availability@.subrange(0, i as int),
                store.availability@[i as int],
                pred,
            );
            assert(store.availability@.subrange(0, i as int).push(store.availability@[i as int])
                =~= store.availability@.subrange(0, i + 1 as int));
        }
        if store.availability[i].provider_id == pid {
            let a = &store.availability[i];
            out.push(
                AvailabilityRow {
                    id: a.id,
                    provider_id: a.provider_id,
                    day: a.day.clone(),
                    start_time: a.start_time.clone(),
                    end_time: a.end_time.clone(),
                    is_available: a.is_available,
                },
            );
        }
    }
    proof {
        assert(store.availability@.subrange(0, store.availability@.len() as int)
            =~= store.availability@);
    }
    Ok(out)
}

} // verus!
