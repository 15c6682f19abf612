//! The per-request authorization pipeline: find the bearer token, verify
//! it, and, on routes that name a `(resource, action)` requirement, check
//! that the caller's roles carry it. Each step either passes the request on
//! or ends it with its own error.
use vstd::prelude::*;

use crate::errors::ServiceError;
use crate::jwt::{token_verdict, verify_token};
use crate::store::Store;

verus! {

pub open spec fn bearer_prefix() -> Seq<char> {
    "Bearer "@
}

/// The token of an `Authorization` header, which must start with exactly
/// `"Bearer "`.
pub open spec fn bearer_token(header: Seq<char>) -> Option<Seq<char>> {
    if header.len() >= 7 && header.subrange(0, 7) == bearer_prefix() {
        Some(header.subrange(7, header.len() as int))
    } else {
        None
    }
}

/// Who a request is from, given its `Authorization` header, or why it is
/// refused. A token that fails verification, for whatever reason, is only
/// `InvalidToken` to the caller.
pub open spec fn authentication(header: Option<Seq<char>>, secret: Seq<char>, now: i64) -> Result<
    u128,
    ServiceError,
> {
    match header {
        None => Err(ServiceError::MissingToken),
        Some(h) => match bearer_token(h) {
            None => Err(ServiceError::InvalidTokenFormat),
            Some(t) => match token_verdict(t, secret, now) {
                Ok(id) => Ok(id),
                Err(_) => Err(ServiceError::InvalidToken),
            },
        },
    }
}

pub open spec fn header_view(header: Option<&str>) -> Option<Seq<char>> {
    match header {
        Some(h) => Some(h@),
        None => None,
    }
}

/// Authentication for the routes that require a signed-in caller.
pub struct AuthMiddleware;

impl AuthMiddleware {
    pub fn new() -> (r: Self) {
        AuthMiddleware
    }

    /// Reads the bearer token from the `Authorization` header and verifies
    /// it at second `now`; the user it names is the request's subject.
    pub fn authenticate(&self, authorization: Option<&str>, secret: &str, now: i64) -> (r: Result<
        u128,
        ServiceError,
    >)
        ensures
            r == authentication(header_view(authorization), secret@, now),
    {
        let header = match authorization {
            Some(h) => h,
            None => {
                return Err(ServiceError::MissingToken);
            },
        };
        let prefix = "Bearer ";
        proof {
            reveal_strlit("Bearer ");
        }
        let n = header.unicode_len();
        if n < 7 {
            return Err(ServiceError::InvalidTokenFormat);
        }
        let mut i: usize = 0;
        while i < 7
            invariant
                i <= 7 <= n,
                header_view(authorization) == Some(header@),
                n == header@.len(),
                prefix@ == bearer_prefix(),
                prefix@.len() == 7,
                forall|j: int| 0 <= j < i ==> header@[j] == prefix@[j],
            decreases 7 - i,
        {
            if header.get_char(i) != prefix.get_char(i) {
                assert(header@.subrange(0, 7)[i as int] != bearer_prefix()[i as int]);
                return Err(ServiceError::InvalidTokenFormat);
            }
            i += 1;
        }
        assert(header@.subrange(0, 7) =~= bearer_prefix());
        let token = header.substring_char(7, n);
        match verify_token(token, secret, now) {
            Ok(id) => Ok(id),
            Err(_) => Err(ServiceError::InvalidToken),
        }
    }
}

/// Authorization for a route that only holders of one permission may use.
pub struct PermissionCheckMiddleware {
    resource: String,
    action: String,
}

impl PermissionCheckMiddleware {
    pub closed spec fn required_resource(&self) -> Seq<char> {
        self.resource@
    }

    pub closed spec fn required_action(&self) -> Seq<char> {
        self.action@
    }

    pub fn new(resource: &str, action: &str) -> (r: Self)
        ensures
            r.required_resource() == resource@,
            r.required_action() == action@,
    {
        PermissionCheckMiddleware {
            resource: String::from_str(resource),
            action: String::from_str(action),
        }
    }

    /// Lets the request's subject through when one of its roles carries the
    /// required permission; a request with no subject, or one whose roles
    /// do not, is forbidden.
    pub fn authorize(&self, db: &Store, user_id: Option<u128>) -> (r: Result<(), ServiceError>)
        ensures
            (user_id matches Some(u) && db@.grants(u, self.required_resource(), self.required_action()))
                ==> r is Ok,
            !(user_id matches Some(u) && db@.grants(
                u,
                self.required_resource(),
                self.required_action(),
            )) ==> (r matches Err(e) && e is InsufficientPermissions),
    {
        let u = match user_id {
            Some(u) => u,
            None => {
                return Err(ServiceError::InsufficientPermissions);
            },
        };
        if crate::rbac::check_user_permission(db, u, self.resource.as_str(), self.action.as_str()) {
            Ok(())
        } else {
            Err(ServiceError::InsufficientPermissions)
        }
    }
}

} // verus!
