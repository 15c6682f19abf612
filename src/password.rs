//! Password digests, computed and checked by Argon2.
use argon2::password_hash::rand_core::OsRng;
use argon2::password_hash::{PasswordHash, PasswordHasher, PasswordVerifier, SaltString};
use vstd::prelude::*;

use crate::errors::ServiceError;

verus! {

/// What checking `password` against the PHC string `digest` gives:
/// `None` when the digest does not parse, else whether the password
/// matches it. It depends on the two texts alone.
pub uninterp spec fn password_verdict(password: Seq<char>, digest: Seq<char>) -> Option<bool>;

/// Relies on `argon2::Argon2::hash_password` with default parameters and a
/// salt drawn from the operating system: the digest is random, it parses,
/// and the password it was made from matches it.
#[verifier::external_body]
pub fn hash_password(password: &str) -> (r: Result<String, ServiceError>)
    ensures
        r matches Ok(digest) ==> password_verdict(password@, digest@) == Some(true),
        r matches Ok(digest) ==> forall|p: Seq<char>| #[trigger]
            password_verdict(p, digest@) is Some,
        r matches Err(e) ==> e is PasswordHashError,
{
    let salt = SaltString::generate(&mut OsRng);
    argon2::Argon2::default()
        .hash_password(password.as_bytes(), &salt)
        .map(|h| h.to_string())
        .map_err(|e| ServiceError::PasswordHashError(e.to_string()))
}

/// Relies on `argon2::password_hash::PasswordHash::new` to parse the
/// digest and on `PasswordVerifier::verify_password` to check it.
#[verifier::external_body]
pub fn verify_password(password: &str, password_hash: &str) -> (r: Result<bool, ServiceError>)
    ensures
        match password_verdict(password@, password_hash@) {
            Some(b) => r == Ok::<bool, ServiceError>(b),
            None => r matches Err(e) && e is PasswordHashError,
        },
{
    match PasswordHash::new(password_hash) {
        Ok(parsed) => Ok(argon2::Argon2::default().verify_password(password.as_bytes(), &parsed).is_ok()),
        Err(e) => Err(ServiceError::PasswordHashError(e.to_string())),
    }
}

} // verus!
