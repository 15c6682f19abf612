//! Rows of the store and the values that requests carry. Identifiers are
//! UUIDs held as their 128-bit value; timestamps are Unix seconds.
use vstd::prelude::*;

verus! {

fn clone_text(s: &Option<String>) -> (r: Option<String>)
    ensures
        r == *s,
{
    match s {
        Some(t) => Some(t.clone()),
        None => None,
    }
}

/// A registered account.
#[derive(Debug)]
pub struct User {
    pub id: u128,
    pub email: String,
    pub password_hash: String,
    pub full_name: Option<String>,
    pub created_at: i64,
    pub updated_at: i64,
    pub last_login: Option<i64>,
    pub is_active: bool,
}

impl Clone for User {
    fn clone(&self) -> (r: Self)
        ensures
            r == *self,
    {
        User {
            id: self.id,
            email: self.email.clone(),
            password_hash: self.password_hash.clone(),
            full_name: clone_text(&self.full_name),
            created_at: self.created_at,
            updated_at: self.updated_at,
            last_login: self.last_login,
            is_active: self.is_active,
        }
    }
}

/// What a caller supplies to create a user; the store assigns the rest.
#[derive(Debug)]
pub struct NewUser {
    pub email: String,
    pub password_hash: String,
    pub full_name: Option<String>,
}

#[derive(Debug)]
pub struct RegisterRequest {
    pub email: String,
    pub password: String,
    pub full_name: Option<String>,
}

#[derive(Debug)]
pub struct LoginRequest {
    pub email: String,
    pub password: String,
}

/// The answer to a successful registration or login.
#[derive(Debug)]
pub struct LoginResponse {
    pub token: String,
    pub user_id: u128,
    pub email: String,
}

#[derive(Debug)]
pub struct UserResponse {
    pub id: u128,
    pub email: String,
    pub full_name: Option<String>,
}

#[derive(Debug)]
pub struct Role {
    pub id: u128,
    pub name: String,
    pub description: Option<String>,
    pub created_at: i64,
    pub updated_at: i64,
}

impl Clone for Role {
    fn clone(&self) -> (r: Self)
        ensures
            r == *self,
    {
        Role {
            id: self.id,
            name: self.name.clone(),
            description: clone_text(&self.description),
            created_at: self.created_at,
            updated_at: self.updated_at,
        }
    }
}

#[derive(Debug)]
pub struct NewRole {
    pub name: String,
    pub description: Option<String>,
}

/// A permission: `name` is a unique label, `(resource, action)` is what
/// authorization looks up.
#[derive(Debug)]
pub struct Permission {
    pub id: u128,
    pub name: String,
    pub description: Option<String>,
    pub resource: String,
    pub action: String,
    pub created_at: i64,
    pub updated_at: i64,
}

impl Clone for Permission {
    fn clone(&self) -> (r: Self)
        ensures
            r == *self,
    {
        Permission {
            id: self.id,
            name: self.name.clone(),
            description: clone_text(&self.description),
            resource: self.resource.clone(),
            action: self.action.clone(),
            created_at: self.created_at,
            updated_at: self.updated_at,
        }
    }
}

#[derive(Debug)]
pub struct NewPermission {
    pub name: String,
    pub description: Option<String>,
    pub resource: String,
    pub action: String,
}

/// An edge of the RBAC graph from a user to a role.
#[derive(Debug, Clone, Copy, PartialEq, Eq, Structural)]
pub struct UserRole {
    pub id: u128,
    pub user_id: u128,
    pub role_id: u128,
    pub created_at: i64,
}

/// An edge of the RBAC graph from a role to a permission.
#[derive(Debug, Clone, Copy, PartialEq, Eq, Structural)]
pub struct RolePermission {
    pub id: u128,
    pub role_id: u128,
    pub permission_id: u128,
    pub created_at: i64,
}

#[derive(Debug)]
pub struct CreateRoleRequest {
    pub name: String,
    pub description: Option<String>,
}

#[derive(Debug)]
pub struct CreatePermissionRequest {
    pub name: String,
    pub description: Option<String>,
    pub resource: String,
    pub action: String,
}

#[derive(Debug)]
pub struct RoleResponse {
    pub id: u128,
    pub name: String,
    pub description: Option<String>,
}

#[derive(Debug)]
pub struct PermissionResponse {
    pub id: u128,
    pub name: String,
    pub description: Option<String>,
    pub resource: String,
    pub action: String,
}

} // verus!
