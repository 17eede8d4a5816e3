//! Registration, login, identity lookup and password reset.

use vstd::prelude::*;

use crate::errors::ApiError;
use crate::passwords::{digest_matches, hash_password, verify_password};
use crate::store::{
    AdminRow, BusinessRow, ClientRow, ProviderRow, ResetRow, Role, Store, UserRow,
};
use crate::tokens::{create_jwt, token_of, TOKEN_TTL_SECS};
use crate::validate::{char_len, email_ok, is_valid_email, parse_role, role_of};

verus! {

/// A registration request. The role decides which profile row is created
/// beside the user row.
pub struct RegisterInput {
    pub username: String,
    pub email: String,
    pub password: String,
    pub confirm_password: String,
    pub role: String,
    pub service_description: Option<String>,
    pub business_name: Option<String>,
}

pub struct LoginRequest {
    pub email: String,
    pub password: String,
}

pub struct ForgotPasswordRequest {
    pub email: String,
}

pub struct ResetPasswordRequest {
    pub token: String,
    pub password: String,
    pub confirm_password: String,
}

/// The identity attached to an authenticated request.
#[derive(Clone, Copy, Debug, PartialEq, Eq, Structural)]
pub struct CurrentUser {
    pub user_id: i32,
}

/// What a successful login returns.
pub struct LoginOk {
    pub token: String,
    pub user_id: i32,
    pub username: String,
}

/// What the identity endpoint returns.
pub struct MeOut {
    pub id: i32,
    pub username: String,
    pub email: String,
    pub role: Role,
}

/// A registration payload passes validation: matching passwords, a
/// username of 3 to 32 characters, a well-shaped email, a password of at
/// least 8 characters, and a known role name.
pub open spec fn register_input_valid(p: RegisterInput) -> bool {
    &&& p.password@ == p.confirm_password@
    &&& 3 <= p.username@.len() <= 32
    &&& email_ok(p.email@)
    &&& p.password@.len() >= 8
    &&& role_of(p.role@) is Some
}

/// Some user already holds this username or this email.
pub open spec fn user_conflict(users: Seq<UserRow>, username: Seq<char>, email: Seq<char>) -> bool {
    exists|i: int|
        0 <= i < users.len() && ((#[trigger] users[i]).username@ == username || users[i].email@
            == email)
}

/// Everything a registration does not touch stays as it was.
pub open spec fn register_frame(pre: Store, post: Store) -> bool {
    &&& post.admins == pre.admins
    &&& post.password_resets == pre.password_resets
    &&& post.categories == pre.categories
    &&& post.services == pre.services
    &&& post.bookings == pre.bookings
    &&& post.messages == pre.messages
    &&& post.interactions == pre.interactions
    &&& post.favorites == pre.favorites
    &&& post.reviews == pre.reviews
    &&& post.availability == pre.availability
    &&& post.posts == pre.posts
    &&& post.attachments == pre.attachments
    &&& post.counties == pre.counties
    &&& post.constituencies == pre.constituencies
    &&& post.wards == pre.wards
    &&& post.provider_categories == pre.provider_categories
    &&& post.business_categories == pre.business_categories
    &&& post.branch_locations == pre.branch_locations
    &&& post.provider_locations == pre.provider_locations
}

/// The tables that no authentication endpoint touches stay as they were.
pub open spec fn non_auth_frame(pre: Store, post: Store) -> bool {
    &&& post.categories == pre.categories
    &&& post.services == pre.services
    &&& post.bookings == pre.bookings
    &&& post.messages == pre.messages
    &&& post.interactions == pre.interactions
    &&& post.favorites == pre.favorites
    &&& post.reviews == pre.reviews
    &&& post.availability == pre.availability
    &&& post.posts == pre.posts
    &&& post.attachments == pre.attachments
    &&& post.counties == pre.counties
    &&& post.constituencies == pre.constituencies
    &&& post.wards == pre.wards
    &&& post.provider_categories == pre.provider_categories
    &&& post.business_categories == pre.business_categories
    &&& post.branch_locations == pre.branch_locations
    &&& post.provider_locations == pre.provider_locations
}

/// Registers a user: validates the payload, refuses a taken username or
/// email with `Conflict`, hashes the password, and creates the user row
/// plus the role-specific profile row. Returns the new user's id.
///
/// The stored digest is a PHC string opening with `'$'`; that the digest
/// can never equal the raw password is not stated outright, because
/// [`digest_matches`] is an uninterpreted name and nothing sound ties its
/// text to the password's. The length bound on the password is argon2's
/// input cap.
pub fn register(store: &mut Store, payload: RegisterInput) -> (r: Result<i32, ApiError>)
    requires
        old(store).wf(),
        old(store).next_id + 2 <= i32::MAX,
        payload.password@.len() <= 0x3FFFFFFF,
    ensures
        final(store).wf(),
        register_frame(*old(store), *final(store)),
        !register_input_valid(payload) ==> r == Err::<i32, ApiError>(ApiError::Validation)
            && *final(store) == *old(store),
        register_input_valid(payload) && user_conflict(
            old(store).users@,
            payload.username@,
            payload.email@,
        ) ==> r == Err::<i32, ApiError>(ApiError::Conflict) && *final(store) == *old(store),
        register_input_valid(payload) && !user_conflict(
            old(store).users@,
            payload.username@,
            payload.email@,
        ) ==> {
            let uid = old(store).next_id;
            &&& r == Ok::<i32, ApiError>(uid)
            &&& final(store).next_id == uid + 2
            &&& final(store).users@.len() == old(store).users@.len() + 1
            &&& final(store).users@.subrange(0, old(store).users@.len() as int) == old(store).users@
            &&& final(store).users@.last().id == uid
            &&& final(store).users@.last().username@ == payload.username@
            &&& final(store).users@.last().email@ == payload.email@
            &&& final(store).users@.last().role == role_of(payload.role@)->Some_0
            &&& digest_matches(payload.password@, final(store).users@.last().password@)
            &&& final(store).users@.last().password@.len() > 0 && final(store).users@.last().password@[0] == '$' 
            &&& match role_of(payload.role@)->Some_0 {
                Role::Client => final(store).clients@.len() == old(store).clients@.len() + 1
                    && final(store).clients@.subrange(0, old(store).clients@.len() as int) == old(store).clients@ && final(store).clients@.last() == (ClientRow {
                    id: (uid + 1) as i32,
                    user_id: uid,
                    profile_picture: None,
                }) && final(store).providers == old(store).providers && final(store).businesses
                    == old(store).businesses,
                Role::Provider => final(store).providers@.len() == old(store).providers@.len() + 1
                    && final(store).providers@.subrange(0, old(store).providers@.len() as int)
                    == old(store).providers@ && final(store).providers@.last().id == uid + 1
                    && final(store).providers@.last().user_id == uid && final(store).providers@.last().service_description == payload.service_description && final(store).clients == old(store).clients && final(store).businesses == old(store).businesses,
                Role::Business => final(store).businesses@.len() == old(store).businesses@.len()
                    + 1 && final(store).businesses@.subrange(
                    0,
                    old(store).businesses@.len() as int,
                ) == old(store).businesses@ && final(store).businesses@.last().id == uid + 1
                    && final(store).businesses@.last().user_id == uid && final(store).businesses@.last().business_name == payload.business_name && final(store).clients
                    == old(store).clients && final(store).providers == old(store).providers,
            }
        },
{
    if !(payload.password == payload.confirm_password) {
        return Err(ApiError::Validation);
    }
    let username_len = char_len(payload.username.as_str());
    if username_len < 3 || username_len > 32 {
        return Err(ApiError::Validation);
    }
    if !is_valid_email(payload.email.as_str()) {
        return Err(ApiError::Validation);
    }
    if char_len(payload.password.as_str()) < 8 {
        return Err(ApiError::Validation);
    }
    let role = match parse_role(payload.role.as_str()) {
        Some(role) => role,
        None => {
            return Err(ApiError::Validation);
        },
    };

    let n = store.users.len();
    for i in 0..n
        invariant
            n == store.users@.len(),
            forall|j: int|
                0 <= j < i ==> !((#[trigger] store.users@[j]).username@ == payload.username@
                    || store.users@[j].email@ == payload.email@),
    {
        if store.users[i].username == payload.username || store.users[i].email == payload.email {
            assert(store.users@[i as int].username@ == payload.username@ || store.users@[i as int].email@
                == payload.email@);
            return Err(ApiError::Conflict);
        }
    }

    let digest = hash_password(payload.password.as_str());
    let uid = store.next_id;
    let user_row = UserRow {
        id: uid,
        username: payload.username,
        email: payload.email,
        password: digest,
        role,
    };
    store.users.push(user_row);
    match role {
        Role::Client => {
            store.clients.push(ClientRow { id: uid + 1, user_id: uid, profile_picture: None });
        },
        Role::Provider => {
            store.providers.push(
                ProviderRow {
                    id: uid + 1,
                    user_id: uid,
                    service_name: None,
                    service_description: payload.service_description,
                    category: None,
                    location: None,
                    phone_number: None,
                    email: None,
                    website: None,
                    whatsapp: None,
                    profile_photo: None,
                    cover_photo: None,
                },
            );
        },
        Role::Business => {
            store.businesses.push(
                BusinessRow {
                    id: uid + 1,
                    user_id: uid,
                    business_name: payload.business_name,
                    description: None,
                    category: None,
                    location: None,
                    license_number: None,
                    krapin: None,
                    phone_number: None,
                    email: None,
                    website: None,
                    whatsapp: None,
                    logo: None,
                    profile_photo: None,
                    cover_photo: None,
                },
            );
        },
    }
    store.next_id = uid + 2;
    Ok(uid)
}

/// Checks the credentials and issues a bearer token for 24 hours from
/// `now`. Succeeds exactly when some user holds this email and the
/// password matches that user's digest.
pub fn login_handler(store: &Store, payload: &LoginRequest, now: u64, secret: &str) -> (r: Result<
    LoginOk,
    ApiError,
>)
    requires
        store.wf(),
        now + TOKEN_TTL_SECS <= u64::MAX,
    ensures
        match r {
            Ok(out) => exists|i: int|
                0 <= i < store.users@.len() && (#[trigger] store.users@[i]).email@
                    == payload.email@ && digest_matches(payload.password@, store.users@[i].password@)
                    && out.user_id == store.users@[i].id && out.username@
                    == store.users@[i].username@ && out.token@ == token_of(
                    store.users@[i].id as u64,
                    (now + TOKEN_TTL_SECS) as u64,
                    secret@,
                ) && crate::tokens::decode_of(out.token@, secret@) == Some(
                    (store.users@[i].id as u64, (now + TOKEN_TTL_SECS) as u64),
                ),
            Err(e) => e == ApiError::Auth && forall|i: int|
                0 <= i < store.users@.len() && (#[trigger] store.users@[i]).email@
                    == payload.email@ ==> !digest_matches(
                    payload.password@,
                    store.users@[i].password@,
                ),
        },
{
    let n = store.users.len();
    for i in 0..n
        invariant
            n == store.users@.len(),
            forall|j: int| 0 <= j < i ==> (#[trigger] store.users@[j]).email@ != payload.email@,
    {
        if store.users[i].email == payload.email {
            // Emails are unique, so this is the only candidate row.
            if verify_password(payload.password.as_str(), store.users[i].password.as_str()) {
                let uid = store.users[i].id;
                let token = create_jwt(uid as u64, now, secret);
                assert(store.users@[i as int].email@ == payload.email@);
                return Ok(
                    LoginOk { token, user_id: uid, username: store.users[i].username.clone() },
                );
            } else {
                assert(forall|j: int|
                    0 <= j < store.users@.len() && (#[trigger] store.users@[j]).email@
                        == payload.email@ ==> j == i);
                return Err(ApiError::Auth);
            }
        }
    }
    Err(ApiError::Auth)
}

/// Returns the authenticated user's own record.
pub fn me(store: &Store, user: CurrentUser) -> (r: Result<MeOut, ApiError>)
    requires
        store.wf(),
    ensures
        match r {
            Ok(out) => exists|i: int|
                0 <= i < store.users@.len() && (#[trigger] store.users@[i]).id == user.user_id
                    && out.id == user.user_id && out.username@ == store.users@[i].username@
                    && out.email@ == store.users@[i].email@ && out.role == store.users@[i].role,
            Err(e) => e == ApiError::NotFound && !crate::store::user_exists(
                store.users@,
                user.user_id,
            ),
        },
{
    let n = store.users.len();
    for i in 0..n
        invariant
            n == store.users@.len(),
            forall|j: int| 0 <= j < i ==> (#[trigger] store.users@[j]).id != user.user_id,
    {
        if store.users[i].id == user.user_id {
            assert(store.users@[i as int].id == user.user_id);
            return Ok(
                MeOut {
                    id: user.user_id,
                    username: store.users[i].username.clone(),
                    email: store.users[i].email.clone(),
                    role: store.users[i].role,
                },
            );
        }
    }
    Err(ApiError::NotFound)
}

/// Some reset row carries this token.
pub open spec fn reset_token_present(resets: Seq<ResetRow>, token: Seq<char>) -> bool {
    exists|i: int| 0 <= i < resets.len() && (#[trigger] resets[i]).token@ == token
}

/// Relies on uuid's `Uuid::new_v4` rendered in the hyphenated format:
/// a fresh random token of 36 ASCII characters. Nothing more is assumed
/// of it; in particular two calls may or may not collide.
#[verifier::external_body]
fn fresh_token() -> (r: String)
    ensures
        r@.len() == 36,
{
    uuid::Uuid::new_v4().to_string()
}

/// Reset tokens live for 15 minutes.
pub const RESET_TTL_SECS: i64 = 900;

/// Starts a password reset: looks the user up by email, stores a fresh
/// reset token expiring 15 minutes after `now`, and returns the token.
pub fn forgot_password(store: &mut Store, payload: &ForgotPasswordRequest, now: i64) -> (r: Result<
    String,
    ApiError,
>)
    requires
        old(store).wf(),
        now + RESET_TTL_SECS <= i64::MAX,
    ensures
        final(store).wf(),
        final(store).users == old(store).users,
        final(store).next_id == old(store).next_id,
        non_auth_frame(*old(store), *final(store)),
        final(store).admins == old(store).admins,
        final(store).clients == old(store).clients,
        final(store).providers == old(store).providers,
        final(store).businesses == old(store).businesses,
        match r {
            Ok(token) => {
                &&& exists|i: int|
                    0 <= i < old(store).users@.len() && (#[trigger] old(store).users@[i]).email@
                        == payload.email@ && final(store).password_resets@ == old(store).password_resets@.push(
                        (ResetRow {
                            user_id: old(store).users@[i].id,
                            token: final(store).password_resets@.last().token,
                            expires_at: (now + RESET_TTL_SECS) as i64,
                        }),
                    )
                &&& final(store).password_resets@.last().token@ == token@
            },
            Err(e) => {
                &&& e == ApiError::NotFound
                &&& forall|i: int|
                    0 <= i < old(store).users@.len() ==> (#[trigger] old(store).users@[i]).email@
                        != payload.email@
                &&& *final(store) == *old(store)
            },
        },
{
    let n = store.users.len();
    for i in 0..n
        invariant
            n == store.users@.len(),
            *store == *old(store),
            forall|j: int| 0 <= j < i ==> (#[trigger] store.users@[j]).email@ != payload.email@,
    {
        if store.users[i].email == payload.email {
            let token = fresh_token();
            let row = ResetRow {
                user_id: store.users[i].id,
                token: token.clone(),
                expires_at: now + RESET_TTL_SECS,
            };
            store.password_resets.push(row);
            assert(store.users@[i as int].email@ == payload.email@);
            return Ok(token);
        }
    }
    Err(ApiError::NotFound)
}

/// Index of the first reset row carrying this token.
fn find_reset_index(resets: &Vec<ResetRow>, token: &String) -> (r: Option<usize>)
    ensures
        match r {
            Some(i) => 0 <= i < resets@.len() && resets@[i as int].token@ == token@ && forall|j:
                int| 0 <= j < i ==> (#[trigger] resets@[j]).token@ != token@,
            None => !reset_token_present(resets@, token@),
        },
{
    let n = resets.len();
    for i in 0..n
        invariant
            n == resets@.len(),
            forall|j: int| 0 <= j < i ==> (#[trigger] resets@[j]).token@ != token@,
    {
        if resets[i].token == *token {
            assert(resets@[i as int].token@ == token@);
            return Some(i);
        }
    }
    None
}

/// Completes a password reset: checks the passwords agree, finds the
/// reset row for the token, refuses an expired one, replaces the user's
/// digest, and discards every reset row carrying the token.
#[verifier::rlimit(30)]
pub fn reset_password(store: &mut Store, payload: &ResetPasswordRequest, now: i64) -> (r: Result<
    (),
    ApiError,
>)
    requires
        old(store).wf(),
        payload.password@.len() <= 0x3FFFFFFF,
    ensures
        final(store).wf(),
        final(store).next_id == old(store).next_id,
        non_auth_frame(*old(store), *final(store)),
        final(store).admins == old(store).admins,
        final(store).clients == old(store).clients,
        final(store).providers == old(store).providers,
        final(store).businesses == old(store).businesses,
        payload.password@ != payload.confirm_password@ ==> r == Err::<(), ApiError>(
            ApiError::Validation,
        ) && *final(store) == *old(store),
        payload.password@ == payload.confirm_password@ && !reset_token_present(
            old(store).password_resets@,
            payload.token@,
        ) ==> r == Err::<(), ApiError>(ApiError::NotFound) && *final(store) == *old(store),
        payload.password@ == payload.confirm_password@ && reset_token_present(
            old(store).password_resets@,
            payload.token@,
        ) ==> exists|i: int|
            {
                &&& 0 <= i < old(store).password_resets@.len()
                &&& (#[trigger] old(store).password_resets@[i]).token@ == payload.token@
                &&& forall|j: int|
                    0 <= j < i ==> (#[trigger] old(store).password_resets@[j]).token@
                        != payload.token@
                &&& if old(store).password_resets@[i].expires_at < now {
                    r == Err::<(), ApiError>(ApiError::Auth) && *final(store) == *old(store)
                } else {
                    &&& r == Ok::<(), ApiError>(())
                    &&& final(store).password_resets@ == old(store).password_resets@.filter(
                        |rr: ResetRow| rr.token@ != payload.token@,
                    )
                    &&& users_with_new_digest(
                        old(store).users@,
                        final(store).users@,
                        old(store).password_resets@[i].user_id,
                        payload.password@,
                    )
                }
            },
{
    if !(payload.password == payload.confirm_password) {
        return Err(ApiError::Validation);
    }
    let reset_at = find_reset_index(&store.password_resets, &payload.token);
    let idx = match reset_at {
        Some(idx) => idx,
        None => {
            return Err(ApiError::NotFound);
        },
    };
    assert(store.password_resets@[idx as int].token@ == payload.token@);
    if store.password_resets[idx].expires_at < now {
        return Err(ApiError::Auth);
    }
    let target_user = store.password_resets[idx].user_id;

    // Replace the user's digest, if the user still exists.
    let digest = hash_password(payload.password.as_str());
    let un = store.users.len();
    let mut updated = false;
    for k in 0..un
        invariant
            un == store.users@.len(),
            store.users@.len() == old(store).users@.len(),
            store.password_resets == old(store).password_resets,
            non_auth_frame(*old(store), *store),
            store.admins == old(store).admins,
            store.clients == old(store).clients,
            store.providers == old(store).providers,
            store.businesses == old(store).businesses,
            store.next_id == old(store).next_id,
            digest_matches(payload.password@, digest@),
            !updated ==> store.users == old(store).users && forall|j: int|
                0 <= j < k ==> (#[trigger] store.users@[j]).id != target_user,
            updated ==> users_with_new_digest(
                old(store).users@,
                store.users@,
                target_user,
                payload.password@,
            ),
            store.wf(),
    {
        if !updated && store.users[k].id == target_user {
            let row = UserRow {
                id: target_user,
                username: store.users[k].username.clone(),
                email: store.users[k].email.clone(),
                password: digest.clone(),
                role: store.users[k].role,
            };
            store.users[k] = row;
            updated = true;
            assert(store.users@[k as int].id == target_user);
        }
    }
    if !updated {
        assert(!crate::store::user_exists(store.users@, target_user));
    }

    // Discard every reset row carrying this token.
    let mut kept: Vec<ResetRow> = Vec::new();
    let rn = store.password_resets.len();
    for i in 0..rn
        invariant
            rn == store.password_resets@.len(),
            store.password_resets == old(store).password_resets,
            kept@ == store.password_resets@.subrange(0, i as int).filter(
                |rr: ResetRow| rr.token@ != payload.token@,
            ),
            non_auth_frame(*old(store), *store),
            store.admins == old(store).admins,
            store.clients == old(store).clients,
            store.providers == old(store).providers,
            store.businesses == old(store).businesses,
            store.next_id == old(store).next_id,
            store.wf(),
            updated ==> users_with_new_digest(
                old(store).users@,
                store.users@,
                target_user,
                payload.password@,
            ),
            !updated ==> store.users == old(store).users,
    {
        let keep = !(store.password_resets[i].token == payload.token);
        proof {
            crate::store::lemma_filter_push(
                store.password_resets@.subrange(0, i as int),
                store.password_resets@[i as int],
                |rr: ResetRow| rr.token@ != payload.token@,
            );
            assert(store.password_resets@.subrange(0, i as int).push(
                store.password_resets@[i as int],
            ) =~= store.password_resets@.subrange(0, i + 1 as int));
        }
        if keep {
            let row = ResetRow {
                user_id: store.password_resets[i].user_id,
                token: store.password_resets[i].token.clone(),
                expires_at: store.password_resets[i].expires_at,
            };
            kept.push(row);
        }
    }
    proof {
        assert(store.password_resets@.subrange(0, store.password_resets@.len() as int)
            =~= store.password_resets@);
    }
    store.password_resets = kept;
    Ok(())
}

/// The users table after a password reset: the same rows, except that the
/// user with id `user_id` (if any) carries a digest matching the new
/// password.
pub open spec fn users_with_new_digest(
    pre: Seq<UserRow>,
    post: Seq<UserRow>,
    user_id: i32,
    password: Seq<char>,
) -> bool {
    &&& post.len() == pre.len()
    &&& forall|j: int| 0 <= j < pre.len() && (#[trigger] pre[j]).id != user_id ==> post[j] == pre[j]
    &&& forall|j: int|
        0 <= j < pre.len() && (#[trigger] pre[j]).id == user_id ==> post[j].id == pre[j].id
            && post[j].username@ == pre[j].username@ && post[j].email@ == pre[j].email@
            && post[j].role == pre[j].role && digest_matches(password, post[j].password@)
}

/// The user has an administrator row with the super-admin flag set.
pub open spec fn is_admin(admins: Seq<crate::store::AdminRow>, user_id: i32) -> bool {
    exists|i: int|
        0 <= i < admins.len() && (#[trigger] admins[i]).id == user_id && admins[i].is_super_admin
}

/// The admin gate in front of the administrative endpoints: passes exactly
/// when the caller has the super-admin flag.
pub fn require_admin(store: &Store, user: CurrentUser) -> (r: Result<(), ApiError>)
    ensures
        r == Ok::<(), ApiError>(()) <==> is_admin(store.admins@, user.user_id),
        r is Err ==> r == Err::<(), ApiError>(ApiError::Forbidden),
{
    let n = store.admins.len();
    for i in 0..n
        invariant
            n == store.admins@.len(),
            forall|j: int|
                0 <= j < i ==> !((#[trigger] store.admins@[j]).id == user.user_id
                    && store.admins@[j].is_super_admin),
    {
        if store.admins[i].id == user.user_id && store.admins[i].is_super_admin {
            assert(store.admins@[i as int].id == user.user_id);
            return Ok(());
        }
    }
    Err(ApiError::Forbidden)
}

/// Grants or revokes the super-admin flag; this models rows of the admins
/// table, which no public endpoint of the service writes.
pub fn grant_admin(store: &mut Store, user_id: i32, flag: bool)
    requires
        old(store).wf(),
    ensures
        final(store).wf(),
        is_admin(final(store).admins@, user_id) == flag,
        final(store).users == old(store).users,
        final(store).next_id == old(store).next_id,
        non_auth_frame(*old(store), *final(store)),
        final(store).clients == old(store).clients,
        final(store).providers == old(store).providers,
        final(store).businesses == old(store).businesses,
        final(store).password_resets == old(store).password_resets,
        forall|u: i32| u != user_id ==> is_admin(final(store).admins@, u) == is_admin(old(store).admins@, u),
{
    let n = store.admins.len();
    for i in 0..n
        invariant
            n == store.admins@.len(),
            *store == *old(store),
            forall|j: int| 0 <= j < i ==> (#[trigger] store.admins@[j]).id != user_id,
    {
        if store.admins[i].id == user_id {
            store.admins[i] = AdminRow { id: user_id, is_super_admin: flag };
            proof {
                assert forall|u: i32| u != user_id implies is_admin(store.admins@, u) == is_admin(
                    old(store).admins@,
                    u,
                ) by {
                    assert(forall|j: int|
                        0 <= j < store.admins@.len() && j != i ==> store.admins@[j] == old(store).admins@[j]);
                }
            }
            return ;
        }
    }
    store.admins.push(AdminRow { id: user_id, is_super_admin: flag });
    proof {
        let s = store.admins@;
        let pre = old(store).admins@;
        assert(s.len() == pre.len() + 1);
        assert(forall|j: int| 0 <= j < pre.len() ==> s[j] == pre[j]);
        assert(s[s.len() - 1] == (AdminRow { id: user_id, is_super_admin: flag }));
        if flag {
            assert(is_admin(s, user_id));
        } else {
            assert forall|i: int| 0 <= i < s.len() implies !(s[i].id == user_id
                && s[i].is_super_admin) by {
                if i < pre.len() {
                    assert(pre[i].id != user_id);
                }
            }
        }
        assert forall|u: i32| u != user_id implies is_admin(s, u) == is_admin(pre, u) by {
            if is_admin(s, u) {
                let i = choose|i: int| 0 <= i < s.len() && (#[trigger] s[i]).id == u
                    && s[i].is_super_admin;
                assert(i < pre.len());
                assert(pre[i].id == u && pre[i].is_super_admin);
            }
            if is_admin(pre, u) {
                let i = choose|i: int| 0 <= i < pre.len() && (#[trigger] pre[i]).id == u
                    && pre[i].is_super_admin;
                assert(s[i].id == u && s[i].is_super_admin);
            }
        }
    }
}

/// Extracts the token from an `Authorization: Bearer <token>` header.
pub fn bearer_token(header: &str) -> (r: Option<String>)
    ensures
        match r {
            Some(t) => header@.len() >= 7 && header@.subrange(0, 7) == "Bearer "@ && t@
                == header@.subrange(7, header@.len() as int),
            None => header@.len() < 7 || header@.subrange(0, 7) != "Bearer "@,
        },
{
    let n = char_len(header);
    if n < 7 {
        return None;
    }
    let prefix = header.substring_char(0, 7);
    if crate::validate::str_eq(prefix, "Bearer ") {
        let rest = header.substring_char(7, n);
        Some(rest.to_owned())
    } else {
        None
    }
}

} // verus!
