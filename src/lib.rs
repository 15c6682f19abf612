//! Authentication and role-based access control: a credential store,
//! signed bearer tokens, the RBAC graph and the per-request authorization
//! decisions, each stated and proved with Verus.

pub mod config;
pub mod errors;
pub mod models;
pub mod ids;
pub mod store;
pub mod password;
pub mod jwt;
pub mod supabase;
pub mod rbac;
pub mod accounts;
pub mod middleware;
