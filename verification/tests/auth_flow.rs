//! Registration, login, tokens and password-reset flows, exercised
//! against the real hashing and signing crates.

use mtaalink::auth::{
    bearer_token, forgot_password, login_handler, me, register, require_admin, reset_password,
    grant_admin, CurrentUser, ForgotPasswordRequest, LoginRequest, RegisterInput,
    ResetPasswordRequest,
};
use mtaalink::errors::ApiError;
use mtaalink::store::{Role, Store};
use mtaalink::tokens::{create_jwt, decode_jwt, AuthError};

const NOW: u64 = 1_700_000_000;
const SECRET: &str = "a-test-signing-key";

fn reg(username: &str, email: &str, role: &str) -> RegisterInput {
    RegisterInput {
        username: username.to_string(),
        email: email.to_string(),
        password: "hunter2hunter2".to_string(),
        confirm_password: "hunter2hunter2".to_string(),
        role: role.to_string(),
        service_description: Some("fixes leaky plumbing fast".to_string()),
        business_name: Some("Acme Ltd".to_string()),
    }
}

#[test]
fn register_creates_user_and_profile_row() {
    let mut store = Store::new();
    let uid = register(&mut store, reg("alice", "alice@mail.com", "provider")).unwrap();
    assert_eq!(uid, 1);
    assert_eq!(store.users.len(), 1);
    assert_eq!(store.providers.len(), 1);
    assert_eq!(store.providers[0].user_id, uid);
    assert!(matches!(store.users[0].role, Role::Provider));
}

#[test]
fn register_rejects_bad_payloads() {
    let mut store = Store::new();
    let mut p = reg("bob", "bob@mail.com", "client");
    p.confirm_password = "different-pass".to_string();
    assert_eq!(register(&mut store, p), Err(ApiError::Validation));

    let mut p = reg("bo", "bob@mail.com", "client");
    p.confirm_password = p.password.clone();
    assert_eq!(register(&mut store, p), Err(ApiError::Validation));

    let p = reg("bob", "not-an-email", "client");
    assert_eq!(register(&mut store, p), Err(ApiError::Validation));

    let mut p = reg("bob", "bob@mail.com", "client");
    p.password = "short".to_string();
    p.confirm_password = "short".to_string();
    assert_eq!(register(&mut store, p), Err(ApiError::Validation));

    let p = reg("bob", "bob@mail.com", "superuser");
    assert_eq!(register(&mut store, p), Err(ApiError::Validation));
    assert_eq!(store.users.len(), 0);
}

#[test]
fn second_registration_with_same_username_or_email_conflicts() {
    let mut store = Store::new();
    register(&mut store, reg("carol", "carol@mail.com", "client")).unwrap();
    let r = register(&mut store, reg("carol", "other@mail.com", "client"));
    assert_eq!(r, Err(ApiError::Conflict));
    let r = register(&mut store, reg("other", "carol@mail.com", "client"));
    assert_eq!(r, Err(ApiError::Conflict));
    assert_eq!(store.users.len(), 1);
}

#[test]
fn login_checks_the_password_against_the_stored_digest() {
    let mut store = Store::new();
    let uid = register(&mut store, reg("dora", "dora@mail.com", "client")).unwrap();
    let ok = login_handler(
        &store,
        &LoginRequest { email: "dora@mail.com".to_string(), password: "hunter2hunter2".to_string() },
        NOW,
        SECRET,
    )
    .unwrap();
    assert_eq!(ok.user_id, uid);
    assert_eq!(ok.username, "dora");
    assert!(!ok.token.is_empty());

    let bad = login_handler(
        &store,
        &LoginRequest { email: "dora@mail.com".to_string(), password: "wrong-password".to_string() },
        NOW,
        SECRET,
    );
    assert!(matches!(bad, Err(ApiError::Auth)));
    let bad = login_handler(
        &store,
        &LoginRequest { email: "nobody@mail.com".to_string(), password: "hunter2hunter2".to_string() },
        NOW,
        SECRET,
    );
    assert!(matches!(bad, Err(ApiError::Auth)));
}

#[test]
fn tokens_round_trip_and_expire() {
    let token = create_jwt(42, NOW, SECRET);
    let claims = decode_jwt(&token, SECRET, NOW + 10).unwrap();
    assert_eq!(claims.sub, 42);
    assert_eq!(claims.exp, NOW + 86_400);

    assert_eq!(decode_jwt(&token, "another-key", NOW), Err(AuthError::Invalid));
    assert_eq!(decode_jwt("garbage.token.here", SECRET, NOW), Err(AuthError::Invalid));
    assert_eq!(decode_jwt(&token, SECRET, NOW + 86_401), Err(AuthError::Expired));
}

#[test]
fn bearer_header_must_carry_the_scheme() {
    assert_eq!(bearer_token("Bearer abc.def.ghi"), Some("abc.def.ghi".to_string()));
    assert_eq!(bearer_token("Basic abc"), None);
    assert_eq!(bearer_token(""), None);
}

#[test]
fn me_returns_the_callers_record() {
    let mut store = Store::new();
    let uid = register(&mut store, reg("erin", "erin@mail.com", "business")).unwrap();
    let out = me(&store, CurrentUser { user_id: uid }).unwrap();
    assert_eq!(out.username, "erin");
    assert_eq!(out.email, "erin@mail.com");
    assert!(matches!(out.role, Role::Business));
    assert!(matches!(me(&store, CurrentUser { user_id: 999 }), Err(ApiError::NotFound)));
}

#[test]
fn forgot_and_reset_password_flow() {
    let mut store = Store::new();
    register(&mut store, reg("fred", "fred@mail.com", "client")).unwrap();
    let now: i64 = NOW as i64;

    let missing = forgot_password(
        &mut store,
        &ForgotPasswordRequest { email: "nobody@mail.com".to_string() },
        now,
    );
    assert_eq!(missing, Err(ApiError::NotFound));

    let token = forgot_password(
        &mut store,
        &ForgotPasswordRequest { email: "fred@mail.com".to_string() },
        now,
    )
    .unwrap();
    assert_eq!(token.len(), 36);

    let r = reset_password(
        &mut store,
        &ResetPasswordRequest {
            token: token.clone(),
            password: "brand-new-pass".to_string(),
            confirm_password: "brand-new-pass".to_string(),
        },
        now + 60,
    );
    assert_eq!(r, Ok(()));

    // The new password works; the old one does not; the token is spent.
    assert!(login_handler(
        &store,
        &LoginRequest { email: "fred@mail.com".to_string(), password: "brand-new-pass".to_string() },
        NOW,
        SECRET,
    )
    .is_ok());
    assert!(login_handler(
        &store,
        &LoginRequest { email: "fred@mail.com".to_string(), password: "hunter2hunter2".to_string() },
        NOW,
        SECRET,
    )
    .is_err());
    let again = reset_password(
        &mut store,
        &ResetPasswordRequest {
            token,
            password: "yet-another-pw".to_string(),
            confirm_password: "yet-another-pw".to_string(),
        },
        now + 61,
    );
    assert_eq!(again, Err(ApiError::NotFound));
}

#[test]
fn expired_reset_tokens_are_refused() {
    let mut store = Store::new();
    register(&mut store, reg("gina", "gina@mail.com", "client")).unwrap();
    let now: i64 = NOW as i64;
    let token = forgot_password(
        &mut store,
        &ForgotPasswordRequest { email: "gina@mail.com".to_string() },
        now,
    )
    .unwrap();
    let r = reset_password(
        &mut store,
        &ResetPasswordRequest {
            token,
            password: "brand-new-pass".to_string(),
            confirm_password: "brand-new-pass".to_string(),
        },
        now + 901,
    );
    assert_eq!(r, Err(ApiError::Auth));
}

#[test]
fn admin_gate_needs_the_flag() {
    let mut store = Store::new();
    let uid = register(&mut store, reg("hana", "hana@mail.com", "client")).unwrap();
    let user = CurrentUser { user_id: uid };
    assert_eq!(require_admin(&store, user), Err(ApiError::Forbidden));
    grant_admin(&mut store, uid, true);
    assert_eq!(require_admin(&store, user), Ok(()));
    grant_admin(&mut store, uid, false);
    assert_eq!(require_admin(&store, user), Err(ApiError::Forbidden));
}

#[test]
fn status_codes_follow_the_taxonomy() {
    assert_eq!(ApiError::Validation.status_code(), 400);
    assert_eq!(ApiError::Auth.status_code(), 401);
    assert_eq!(ApiError::Forbidden.status_code(), 403);
    assert_eq!(ApiError::NotFound.status_code(), 404);
    assert_eq!(ApiError::Conflict.status_code(), 409);
    assert_eq!(ApiError::Store.status_code(), 500);
}
