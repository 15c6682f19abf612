use vstd::prelude::*;

verus! {

/// The process-wide settings, read once at start-up and passed to the
/// services that need them.
pub struct Config {
    pub database_url: String,
    pub supabase_url: String,
    pub supabase_key: String,
    pub jwt_secret: String,
}

} // verus!
