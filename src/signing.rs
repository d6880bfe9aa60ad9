use vstd::prelude::*;

verus! {

/// jsonwebtoken's error type, carried through without looking inside.
#[verifier::external_type_specification]
#[verifier::external_body]
pub struct ExJwtError(jsonwebtoken::errors::Error);

/// The HS256 token that jsonwebtoken makes of the claims `{"sub", "exp"}`
/// under a secret key.
pub uninterp spec fn signed_token(subject: Seq<char>, expiry: int, key: Seq<u8>) -> Seq<char>;

/// Relies on jsonwebtoken::encode, with the default (HS256) header and a key
/// made by EncodingKey::from_secret, to sign the claims `sub = subject` and
/// `exp = expiry`; the token depends on these values alone. With an HMAC key
/// and the HS256 header the algorithm families agree and HMAC signing cannot
/// fail, so a token always comes back.
#[verifier::external_body]
pub(crate) fn sign_claims(subject: &str, expiry: u64, key: &[u8]) -> (r: Result<
    String,
    jsonwebtoken::errors::Error,
>)
    ensures
        r is Ok,
        r matches Ok(t) ==> t@ == signed_token(subject@, expiry as int, key@),
{
    let mut claims = serde_json::Map::new();
    claims.insert("sub".to_string(), serde_json::Value::from(subject));
    claims.insert("exp".to_string(), serde_json::Value::from(expiry));
    jsonwebtoken::encode(
        &jsonwebtoken::Header::default(),
        &claims,
        &jsonwebtoken::EncodingKey::from_secret(key),
    )
}

} // verus!
