//! Bearer tokens: HS256-signed JWTs whose claims name a user and the
//! second the token stops being valid.
use jsonwebtoken::errors::ErrorKind;
use jsonwebtoken::{Algorithm, DecodingKey, EncodingKey, Header, Validation};
use serde_json::Value;
use vstd::prelude::*;

use crate::errors::ServiceError;
use crate::ids::{parse_uuid, parsed_uuid, uuid_string, uuid_text};

verus! {

/// How long a token stays valid: twenty-four hours, in seconds.
pub const TOKEN_LIFETIME: i64 = 86400;

/// Why a token was refused.
#[derive(Debug, Clone, Copy, PartialEq, Eq, Structural)]
pub enum TokenError {
    /// It does not decode, or its claims are missing or not of their type.
    Malformed,
    /// Its `exp` lies before the time of the check.
    Expired,
    /// Its signature does not match the secret.
    BadSignature,
}

/// The claims a token carries: the subject's id in text, the second it
/// expires and the second it was issued.
#[derive(Debug)]
pub struct Claims {
    pub sub: String,
    pub exp: i64,
    pub iat: i64,
}

/// The token `jsonwebtoken::encode` makes of the claims `{sub, exp, iat}`
/// under an HS256 header and the secret's bytes as key.
pub uninterp spec fn hs256_token(sub: Seq<char>, exp: i64, iat: i64, secret: Seq<char>) -> Seq<char>;

/// What `jsonwebtoken::decode` finds in a token under the secret's bytes as
/// key: the `sub`, `exp` and `iat` claims where they are present with their
/// type, or why the token was refused.
pub uninterp spec fn hs256_claims(token: Seq<char>, secret: Seq<char>) -> Result<
    (Option<Seq<char>>, Option<i64>, Option<i64>),
    TokenError,
>;

pub open spec fn claims_view(r: Result<(Option<String>, Option<i64>, Option<i64>), TokenError>) -> Result<
    (Option<Seq<char>>, Option<i64>, Option<i64>),
    TokenError,
> {
    match r {
        Ok((sub, exp, iat)) => Ok(
            (
                match sub {
                    Some(s) => Some(s@),
                    None => None,
                },
                exp,
                iat,
            ),
        ),
        Err(e) => Err(e),
    }
}

/// Claims that are all present with their type.
pub open spec fn all_present(c: (Seq<char>, i64, i64)) -> Result<
    (Option<Seq<char>>, Option<i64>, Option<i64>),
    TokenError,
> {
    Ok((Some(c.0), Some(c.1), Some(c.2)))
}

/// Relies on `jsonwebtoken::encode`. With an HS256 header and a key made
/// by `EncodingKey::from_secret` the key family matches the algorithm, a
/// JSON object always serializes and HMAC signing cannot fail, so the call
/// succeeds.
#[verifier::external_body]
fn encode_claims(claims: &Claims, secret: &str) -> (r: Result<String, String>)
    ensures
        r is Ok,
        r matches Ok(t) ==> t@ == hs256_token(claims.sub@, claims.exp, claims.iat, secret@),
{
    let mut object = serde_json::Map::new();
    object.insert("sub".to_string(), Value::from(claims.sub.as_str()));
    object.insert("exp".to_string(), Value::from(claims.exp));
    object.insert("iat".to_string(), Value::from(claims.iat));
    let key = EncodingKey::from_secret(secret.as_bytes());
    jsonwebtoken::encode(&Header::default(), &Value::Object(object), &key).map_err(|e| e.to_string())
}

/// Relies on `jsonwebtoken::decode`, accepting HS256 only, requiring no
/// claim and leaving `exp` unchecked: the signature is checked first
/// (`InvalidSignature` on a mismatch), then the payload is read as JSON.
/// A token that `encode` made with the same secret decodes to its claims.
#[verifier::external_body]
fn decode_claims(token: &str, secret: &str) -> (r: Result<(Option<String>, Option<i64>, Option<i64>), TokenError>)
    ensures
        claims_view(r) == hs256_claims(token@, secret@),
        forall|c: (Seq<char>, i64, i64)|
            token@ == #[trigger] hs256_token(c.0, c.1, c.2, secret@) ==> claims_view(r)
                == all_present(c),
{
    let mut validation = Validation::new(Algorithm::HS256);
    validation.validate_exp = false;
    validation.required_spec_claims.clear();
    let key = DecodingKey::from_secret(secret.as_bytes());
    match jsonwebtoken::decode::<Value>(token, &key, &validation) {
        Ok(d) => Ok((d.claims["sub"].as_str().map(String::from), d.claims["exp"].as_i64(), d.claims["iat"].as_i64())),
        Err(e) => match e.kind() {
            ErrorKind::InvalidSignature => Err(TokenError::BadSignature),
            _ => Err(TokenError::Malformed),
        },
    }
}

/// The token issued to `user_id` at second `issued`.
pub open spec fn token_for(user_id: u128, issued: i64, secret: Seq<char>) -> Seq<char> {
    hs256_token(uuid_text(user_id), (issued + TOKEN_LIFETIME) as i64, issued, secret)
}

/// Whether a token is accepted at second `now`, and for whom.
pub open spec fn token_verdict(token: Seq<char>, secret: Seq<char>, now: i64) -> Result<u128, TokenError> {
    match hs256_claims(token, secret) {
        Err(e) => Err(e),
        Ok((Some(sub), Some(exp), Some(_iat))) => {
            if exp < now {
                Err(TokenError::Expired)
            } else {
                match parsed_uuid(sub) {
                    Some(id) => Ok(id),
                    None => Err(TokenError::Malformed),
                }
            }
        },
        Ok(_) => Err(TokenError::Malformed),
    }
}

/// Issues a token for `user_id` at second `now`, valid for
/// `TOKEN_LIFETIME` seconds.
pub fn generate_token(user_id: u128, secret: &str, now: i64) -> (r: Result<String, ServiceError>)
    ensures
        now <= i64::MAX - TOKEN_LIFETIME ==> (r matches Ok(t) && t@ == token_for(
            user_id,
            now,
            secret@,
        )),
        now > i64::MAX - TOKEN_LIFETIME ==> (r matches Err(e) && e is JwtError),
{
    if now > i64::MAX - TOKEN_LIFETIME {
        return Err(ServiceError::JwtError(String::from_str("token expiry out of range")));
    }
    let claims = Claims { sub: uuid_string(user_id), exp: now + TOKEN_LIFETIME, iat: now };
    match encode_claims(&claims, secret) {
        Ok(t) => Ok(t),
        Err(m) => Err(ServiceError::JwtError(m)),
    }
}

/// Checks a token at second `now` and returns the user it names.
///
/// A token signed with the secret whose subject is a user's id is accepted,
/// for that user, until its `exp` passes; in particular one issued by
/// `generate_token` is accepted from the second of issue for
/// `TOKEN_LIFETIME` seconds. One whose `exp` has passed is refused as
/// expired, which is told apart from a bad signature.
pub fn verify_token(token: &str, secret: &str, now: i64) -> (r: Result<u128, TokenError>)
    ensures
        r == token_verdict(token@, secret@, now),
        forall|id: u128, issued: i64|
            token@ == #[trigger] token_for(id, issued, secret@) && issued <= i64::MAX
                - TOKEN_LIFETIME && issued <= now <= issued + TOKEN_LIFETIME ==> r == Ok::<
                u128,
                TokenError,
            >(id),
        forall|id: u128, exp: i64, iat: i64|
            token@ == #[trigger] hs256_token(uuid_text(id), exp, iat, secret@) && now <= exp ==> r
                == Ok::<u128, TokenError>(id),
        forall|sub: Seq<char>, exp: i64, iat: i64|
            token@ == #[trigger] hs256_token(sub, exp, iat, secret@) && exp < now ==> r == Err::<
                u128,
                TokenError,
            >(TokenError::Expired),
{
    let decoded = decode_claims(token, secret);
    proof {
        assert forall|sub: Seq<char>, exp: i64, iat: i64|
            token@ == #[trigger] hs256_token(sub, exp, iat, secret@) implies claims_view(decoded)
                == all_present((sub, exp, iat)) by {
            let c = (sub, exp, iat);
            assert(hs256_token(c.0, c.1, c.2, secret@) == hs256_token(sub, exp, iat, secret@));
        }
    }
    match decoded {
        Err(e) => Err(e),
        Ok((Some(sub), Some(exp), Some(_iat))) => {
            if exp < now {
                Err(TokenError::Expired)
            } else {
                match parse_uuid(sub.as_str()) {
                    Some(id) => Ok(id),
                    None => Err(TokenError::Malformed),
                }
            }
        },
        Ok(_) => Err(TokenError::Malformed),
    }
}

} // verus!
