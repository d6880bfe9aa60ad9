use vstd::prelude::*;
use vstd::string::*;

use crate::error::ApiError;
use crate::signing::{sign_claims, signed_token};
use crate::pagination::same_text;

verus! {

/// The one password that the login check accepts.
pub const PASSWORD: &'static str = "password123";

/// The key that signs tokens.
pub const SIGNING_KEY: &'static str = "your-secret-key";

/// How long an issued token stays valid, in seconds (24 hours).
pub const TOKEN_LIFETIME: i64 = 86400;

/// A login attempt.
#[derive(Debug, Clone)]
pub struct LoginRequest {
    pub username: String,
    pub password: String,
}

/// The token handed out on a successful login.
#[derive(Debug, Clone)]
pub struct LoginResponse {
    pub token: String,
}

/// The expiry of a token issued at `now`, where it is a valid expiry.
pub open spec fn expiry_at(now: int) -> Option<int> {
    let e = now + TOKEN_LIFETIME;
    if 0 <= e <= i64::MAX {
        Some(e)
    } else {
        None
    }
}

/// The reply to a login, given what signing returned: a failed signing is
/// reported as invalid credentials.
pub fn token_outcome(signed: Result<String, jsonwebtoken::errors::Error>) -> (r: Result<
    LoginResponse,
    ApiError,
>)
    ensures
        match signed {
            Ok(t) => r matches Ok(resp) && resp.token == t,
            Err(_) => r == Err::<LoginResponse, ApiError>(ApiError::InvalidCredentials),
        },
{
    match signed {
        Ok(token) => Ok(LoginResponse { token }),
        Err(_) => Err(ApiError::InvalidCredentials),
    }
}

/// Checks the password and, at time `now` (seconds since the Unix epoch, as
/// the caller read its clock), issues a token for the user that expires 24
/// hours later.
pub fn login_handler(login: LoginRequest, now: i64) -> (r: Result<LoginResponse, ApiError>)
    ensures
        login.password@ != PASSWORD@ ==> r == Err::<LoginResponse, ApiError>(
            ApiError::InvalidCredentials,
        ),
        expiry_at(now as int) is None ==> r == Err::<LoginResponse, ApiError>(
            ApiError::InvalidCredentials,
        ),
        login.password@ == PASSWORD@ && expiry_at(now as int) is Some ==> r is Ok,
        r is Err ==> r == Err::<LoginResponse, ApiError>(ApiError::InvalidCredentials),
        r matches Ok(resp) ==> login.password@ == PASSWORD@ && expiry_at(now as int) is Some
            && resp.token@ == signed_token(
            login.username@,
            expiry_at(now as int)->0,
            SIGNING_KEY.spec_bytes(),
        ),
{
    if !same_text(login.password.as_str(), PASSWORD) {
        return Err(ApiError::InvalidCredentials);
    }
    if now > i64::MAX - TOKEN_LIFETIME || now + TOKEN_LIFETIME < 0 {
        return Err(ApiError::InvalidCredentials);
    }
    let expiry: u64 = (now + TOKEN_LIFETIME) as u64;
    let signed = sign_claims(login.username.as_str(), expiry, SIGNING_KEY.as_bytes());
    token_outcome(signed)
}

} // verus!
