//! The parts of mirroring an account to the hosted identity provider that
//! are decided here; the request itself is sent by the caller.
use vstd::prelude::*;

verus! {

/// The account the identity provider reports after a sign-up.
#[derive(Debug)]
pub struct SupabaseSignUpResponse {
    pub id: String,
    pub email: String,
}

/// The provider's sign-up endpoint under its base URL.
pub fn signup_url(supabase_url: &str) -> (r: String)
    ensures
        r@ == supabase_url@ + "/auth/v1/signup"@,
{
    String::from_str(supabase_url).concat("/auth/v1/signup")
}

/// The `Authorization` header value that carries the provider's API key.
pub fn bearer_header(api_key: &str) -> (r: String)
    ensures
        r@ == "Bearer "@ + api_key@,
{
    String::from_str("Bearer ").concat(api_key)
}

} // verus!
