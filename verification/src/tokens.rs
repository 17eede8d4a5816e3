//! Bearer tokens: issue on login, verify on every authenticated request.
//!
//! Signing and signature checking are delegated to the jsonwebtoken crate;
//! the expiry rule is checked here, against a caller-supplied clock, so
//! that it is part of the verified logic.

use vstd::prelude::*;

verus! {

/// What a token carries: the subject (a user id) and an expiry instant
/// (seconds since the Unix epoch).
#[derive(Clone, Copy, Debug, PartialEq, Eq, Structural)]
pub struct Claims {
    pub sub: u64,
    pub exp: u64,
}

/// Why token verification failed.
#[derive(Clone, Copy, Debug, PartialEq, Eq, Structural)]
pub enum AuthError {
    /// The token's expiry lies in the past.
    Expired,
    /// The token is malformed or its signature does not check out.
    Invalid,
}

/// The HS256 token that signs `{sub, exp}` with `secret`: a deterministic
/// function of the three.
pub uninterp spec fn token_of(sub: u64, exp: u64, secret: Seq<char>) -> Seq<char>;

/// What signature checking recovers from a token under `secret`: the signed
/// `(sub, exp)` pair, or nothing if the token is malformed or was not signed
/// with `secret`. Expiry plays no part here, so this is a function of the
/// two arguments alone.
pub uninterp spec fn decode_of(token: Seq<char>, secret: Seq<char>) -> Option<(u64, u64)>;

/// Relies on jsonwebtoken's `encode` with the default HS256 header: a
/// deterministic signature over the claims. jsonwebtoken's `decode` with
/// the same secret recovers exactly the claims that were signed.
#[verifier::external_body]
fn sign_claims(sub: u64, exp: u64, secret: &str) -> (r: String)
    ensures
        r@ == token_of(sub, exp, secret@),
        decode_of(r@, secret@) == Some((sub, exp)),
{
    let mut claims = serde_json::Map::new();
    claims.insert(String::from("sub"), serde_json::Value::from(sub));
    claims.insert(String::from("exp"), serde_json::Value::from(exp));
    let key = jsonwebtoken::EncodingKey::from_secret(secret.as_bytes());
    jsonwebtoken::encode(&jsonwebtoken::Header::default(), &serde_json::Value::Object(claims), &key)
        .unwrap()
}

/// Relies on jsonwebtoken's `decode` with expiry checking switched off, so
/// that the result depends on the token and the secret alone; the expiry
/// rule is applied afterwards in verified code.
#[verifier::external_body]
fn decode_claims(token: &str, secret: &str) -> (r: Option<(u64, u64)>)
    ensures
        r == decode_of(token@, secret@),
{
    let mut validation = jsonwebtoken::Validation::new(jsonwebtoken::Algorithm::HS256);
    validation.validate_exp = false;
    let key = jsonwebtoken::DecodingKey::from_secret(secret.as_bytes());
    match jsonwebtoken::decode::<serde_json::Value>(token, &key, &validation) {
        Ok(data) => match (
            data.claims.get("sub").and_then(|v| v.as_u64()),
            data.claims.get("exp").and_then(|v| v.as_u64()),
        ) {
            (Some(sub), Some(exp)) => Some((sub, exp)),
            _ => None,
        },
        Err(_) => None,
    }
}

/// Tokens live for 24 hours.
pub const TOKEN_TTL_SECS: u64 = 86400;

/// Issues the bearer token for `user_id`, expiring 24 hours after `now`.
pub fn create_jwt(user_id: u64, now: u64, secret: &str) -> (r: String)
    requires
        now + TOKEN_TTL_SECS <= u64::MAX,
    ensures
        r@ == token_of(user_id, (now + TOKEN_TTL_SECS) as u64, secret@),
        decode_of(r@, secret@) == Some((user_id, (now + TOKEN_TTL_SECS) as u64)),
{
    sign_claims(user_id, now + TOKEN_TTL_SECS, secret)
}

/// Verifies a bearer token at time `now`: the claims it was signed with if
/// the signature checks out and the expiry is not yet past, `Invalid` for a
/// malformed or foreign-signed token, `Expired` for one past its expiry.
pub fn decode_jwt(token: &str, secret: &str, now: u64) -> (r: Result<Claims, AuthError>)
    ensures
        match decode_of(token@, secret@) {
            None => r == Err::<Claims, AuthError>(AuthError::Invalid),
            Some(c) => if c.1 < now {
                r == Err::<Claims, AuthError>(AuthError::Expired)
            } else {
                r == Ok::<Claims, AuthError>((Claims { sub: c.0, exp: c.1 }))
            },
        },
{
    match decode_claims(token, secret) {
        None => Err(AuthError::Invalid),
        Some((sub, exp)) => {
            if exp < now {
                Err(AuthError::Expired)
            } else {
                Ok(Claims { sub, exp })
            }
        },
    }
}

} // verus!
