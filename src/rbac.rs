//! The RBAC graph: creating roles and permissions, assigning them, and
//! resolving whether a user may perform an action on a resource.
use vstd::prelude::*;

use crate::errors::ServiceError;
use crate::ids::new_uuid;
use crate::models::{
    CreatePermissionRequest, CreateRoleRequest, NewPermission, NewRole, Permission, Role,
    RolePermission, UserRole,
};
use crate::store::{Store, StoreView};

verus! {

/// What `create_role` may do, whatever id the store drew.
pub open spec fn create_role_outcome(
    old: StoreView,
    name: Seq<char>,
    description: Option<String>,
    now: i64,
    r: Result<Role, ServiceError>,
    new: StoreView,
) -> bool {
    if old.role_name_taken(name) {
        r matches Err(e) && e is RoleAlreadyExists && new == old
    } else {
        match r {
            Ok(role) => {
                &&& role.name@ == name
                &&& role.description == description
                &&& role.created_at == now
                &&& role.updated_at == now
                &&& !old.has_role(role.id)
                &&& new == old.with_role(role)
            },
            Err(e) => e is DatabaseError && new == old,
        }
    }
}

/// Creates a role with a name no other role has.
pub fn create_role(db: &mut Store, role_data: CreateRoleRequest, now: i64) -> (r: Result<
    Role,
    ServiceError,
>)
    requires
        old(db).wf(),
    ensures
        final(db).wf(),
        create_role_outcome(old(db)@, role_data.name@, role_data.description, now, r, final(db)@),
{
    if db.role_name_taken(&role_data.name) {
        return Err(ServiceError::RoleAlreadyExists);
    }
    let new_role = NewRole { name: role_data.name, description: role_data.description };
    db.insert_role(new_uuid(), new_role, now)
}

/// What `create_permission` may do, whatever id the store drew.
pub open spec fn create_permission_outcome(
    old: StoreView,
    data: CreatePermissionRequest,
    now: i64,
    r: Result<Permission, ServiceError>,
    new: StoreView,
) -> bool {
    if old.permission_name_taken(data.name@) {
        r matches Err(e) && e is PermissionAlreadyExists && new == old
    } else {
        match r {
            Ok(p) => {
                &&& p.name == data.name
                &&& p.description == data.description
                &&& p.resource == data.resource
                &&& p.action == data.action
                &&& p.created_at == now
                &&& p.updated_at == now
                &&& !old.has_permission(p.id)
                &&& new == old.with_permission(p)
            },
            Err(e) => e is DatabaseError && new == old,
        }
    }
}

/// Creates a permission with a name no other permission has.
pub fn create_permission(db: &mut Store, permission_data: CreatePermissionRequest, now: i64) -> (r:
    Result<Permission, ServiceError>)
    requires
        old(db).wf(),
    ensures
        final(db).wf(),
        create_permission_outcome(old(db)@, permission_data, now, r, final(db)@),
{
    if db.permission_name_taken(&permission_data.name) {
        return Err(ServiceError::PermissionAlreadyExists);
    }
    let new_permission = NewPermission {
        name: permission_data.name,
        description: permission_data.description,
        resource: permission_data.resource,
        action: permission_data.action,
    };
    db.insert_permission(new_uuid(), new_permission, now)
}

/// What `assign_role_to_user` may do, whatever id the store drew.
pub open spec fn assign_role_outcome(
    old: StoreView,
    user_id: u128,
    role_id: u128,
    now: i64,
    r: Result<UserRole, ServiceError>,
    new: StoreView,
) -> bool {
    if old.holds_role(user_id, role_id) {
        &&& new == old
        &&& r matches Ok(e) && exists|i: int| #[trigger] old.user_role_at(i, user_id, role_id)
            && old.user_roles[i] == e
    } else if !old.has_user(user_id) {
        r matches Err(e) && e is UserNotFound && new == old
    } else if !old.has_role(role_id) {
        r matches Err(e) && e is RoleNotFound && new == old
    } else {
        match r {
            Ok(e) => {
                &&& e.user_id == user_id
                &&& e.role_id == role_id
                &&& e.created_at == now
                &&& !old.has_user_role_id(e.id)
                &&& new == old.with_user_role(e)
            },
            Err(e) => e is DatabaseError && new == old,
        }
    }
}

/// Gives a user a role. An existing edge is returned as it is; otherwise
/// both ends must exist and a new edge is stored.
pub fn assign_role_to_user(db: &mut Store, user_id: u128, role_id: u128, now: i64) -> (r: Result<
    UserRole,
    ServiceError,
>)
    requires
        old(db).wf(),
    ensures
        final(db).wf(),
        assign_role_outcome(old(db)@, user_id, role_id, now, r, final(db)@),
{
    if let Some(existing) = db.find_user_role(user_id, role_id) {
        return Ok(existing);
    }
    if !db.has_user(user_id) {
        return Err(ServiceError::UserNotFound);
    }
    if !db.has_role(role_id) {
        return Err(ServiceError::RoleNotFound);
    }
    db.insert_user_role(new_uuid(), user_id, role_id, now)
}

/// What `assign_permission_to_role` may do, whatever id the store drew.
pub open spec fn assign_permission_outcome(
    old: StoreView,
    role_id: u128,
    permission_id: u128,
    now: i64,
    r: Result<RolePermission, ServiceError>,
    new: StoreView,
) -> bool {
    if old.carries(role_id, permission_id) {
        &&& new == old
        &&& r matches Ok(e) && exists|i: int| #[trigger] old.role_permission_at(
            i,
            role_id,
            permission_id,
        ) && old.role_permissions[i] == e
    } else if !old.has_role(role_id) {
        r matches Err(e) && e is RoleNotFound && new == old
    } else if !old.has_permission(permission_id) {
        r matches Err(e) && e is PermissionNotFound && new == old
    } else {
        match r {
            Ok(e) => {
                &&& e.role_id == role_id
                &&& e.permission_id == permission_id
                &&& e.created_at == now
                &&& !old.has_role_permission_id(e.id)
                &&& new == old.with_role_permission(e)
            },
            Err(e) => e is DatabaseError && new == old,
        }
    }
}

/// Gives a role a permission. An existing edge is returned as it is;
/// otherwise both ends must exist and a new edge is stored.
pub fn assign_permission_to_role(
    db: &mut Store,
    role_id: u128,
    permission_id: u128,
    now: i64,
) -> (r: Result<RolePermission, ServiceError>)
    requires
        old(db).wf(),
    ensures
        final(db).wf(),
        assign_permission_outcome(old(db)@, role_id, permission_id, now, r, final(db)@),
{
    if let Some(existing) = db.find_role_permission(role_id, permission_id) {
        return Ok(existing);
    }
    if !db.has_role(role_id) {
        return Err(ServiceError::RoleNotFound);
    }
    if !db.has_permission(permission_id) {
        return Err(ServiceError::PermissionNotFound);
    }
    db.insert_role_permission(new_uuid(), role_id, permission_id, now)
}

/// The role edges of a user, in the order they were made.
pub fn get_user_roles(db: &Store, target_user_id: u128) -> (r: Vec<UserRole>)
    ensures
        r@ == db@.roles_of(target_user_id),
        forall|j: int|
            0 <= j < r@.len() ==> db@.holds_role(target_user_id, #[trigger] r@[j].role_id),
        forall|role_id: u128|
            #[trigger] db@.holds_role(target_user_id, role_id) ==> exists|j: int|
                0 <= j < r@.len() && r@[j].role_id == role_id,
{
    db.user_roles_of(target_user_id)
}

/// The permission edges of a role, in the order they were made.
pub fn get_role_permissions(db: &Store, target_role_id: u128) -> (r: Vec<RolePermission>)
    ensures
        r@ == db@.permissions_of(target_role_id),
        forall|j: int|
            0 <= j < r@.len() ==> db@.carries(target_role_id, #[trigger] r@[j].permission_id),
{
    db.role_permissions_of(target_role_id)
}

/// Whether the user may perform `action` on `resource`: some role of the
/// user carries the permission keyed `(resource, action)`. Anything
/// missing (roles, the permission, an edge) means no.
pub fn check_user_permission(db: &Store, user_id: u128, resource: &str, action: &str) -> (r: bool)
    ensures
        r == db@.grants(user_id, resource@, action@),
{
    let user_roles_list = get_user_roles(db, user_id);
    if user_roles_list.len() == 0 {
        return false;
    }
    let wanted_resource = String::from_str(resource);
    let wanted_action = String::from_str(action);
    let k = match db.permission_index_by_key(&wanted_resource, &wanted_action) {
        Some(k) => k,
        None => {
            return false;
        },
    };
    let permission_id = db.permission_at(k).id;
    let mut i: usize = 0;
    while i < user_roles_list.len()
        invariant
            i <= user_roles_list@.len(),
            db@.is_first_key_match(k as int, resource@, action@),
            permission_id == db@.permissions[k as int].id,
            forall|j: int|
                0 <= j < user_roles_list@.len() ==> db@.holds_role(
                    user_id,
                    #[trigger] user_roles_list@[j].role_id,
                ),
            forall|j: int|
                0 <= j < i ==> !db@.carries(#[trigger] user_roles_list@[j].role_id, permission_id),
        decreases user_roles_list@.len() - i,
    {
        let role_id = user_roles_list[i].role_id;
        if db.find_role_permission(role_id, permission_id).is_some() {
            assert(db@.holds_role(user_id, user_roles_list@[i as int].role_id));
            assert(db@.is_first_key_match(k as int, resource@, action@) && db@.holds_role(
                user_id,
                role_id,
            ) && db@.carries(role_id, db@.permissions[k as int].id));
            return true;
        }
        i += 1;
    }
    proof {
        assert forall|kk: int, role_id: u128|
            #[trigger] db@.is_first_key_match(kk, resource@, action@) && #[trigger] db@.holds_role(
                user_id,
                role_id,
            ) implies !db@.carries(role_id, db@.permissions[kk].id) by {
            if kk != k {
                if kk < k {
                    assert(!StoreView::key_matches(db@.permissions[kk], resource@, action@));
                } else {
                    assert(!StoreView::key_matches(db@.permissions[k as int], resource@, action@));
                }
            }
            let j = choose|j: int| 0 <= j < user_roles_list@.len() && user_roles_list@[j].role_id == role_id;
        }
    }
    false
}

proof fn lemma_user_role_pairs(edges: Seq<UserRole>, user_id: u128, role_id: u128)
    requires
        forall|i: int, j: int|
            0 <= i < j < edges.len() ==> (#[trigger] edges[i].user_id, edges[i].role_id) != (
                #[trigger] edges[j].user_id,
                edges[j].role_id,
            ),
    ensures
        edges.filter(StoreView::joins_user_role(user_id, role_id)).len() == if exists|i: int|
            0 <= i < edges.len() && #[trigger] edges[i].user_id == user_id && edges[i].role_id
                == role_id {
            1int
        } else {
            0int
        },
    decreases edges.len(),
{
    reveal(Seq::filter);
    if edges.len() > 0 {
        let rest = edges.drop_last();
        let n = edges.len() - 1;
        assert forall|i: int, j: int| 0 <= i < j < rest.len() implies (
            #[trigger] rest[i].user_id,
            rest[i].role_id,
        ) != (#[trigger] rest[j].user_id, rest[j].role_id) by {
            assert(rest[i] == edges[i] && rest[j] == edges[j]);
            assert((edges[i].user_id, edges[i].role_id) != (edges[j].user_id, edges[j].role_id));
        }
        lemma_user_role_pairs(rest, user_id, role_id);
        if edges[n].user_id == user_id && edges[n].role_id == role_id {
            assert forall|i: int| 0 <= i < rest.len() implies !(#[trigger] rest[i].user_id == user_id
                && rest[i].role_id == role_id) by {
                assert(rest[i] == edges[i]);
                assert((edges[i].user_id, edges[i].role_id) != (edges[n].user_id, edges[n].role_id));
            }
        } else {
            if exists|i: int|
                0 <= i < edges.len() && #[trigger] edges[i].user_id == user_id && edges[i].role_id
                    == role_id {
                let i = choose|i: int|
                    0 <= i < edges.len() && #[trigger] edges[i].user_id == user_id
                        && edges[i].role_id == role_id;
                assert(rest[i] == edges[i]);
            }
            if exists|i: int|
                0 <= i < rest.len() && #[trigger] rest[i].user_id == user_id && rest[i].role_id
                    == role_id {
                let i = choose|i: int|
                    0 <= i < rest.len() && #[trigger] rest[i].user_id == user_id && rest[i].role_id
                        == role_id;
                assert(rest[i] == edges[i]);
            }
        }
    }
}

proof fn lemma_role_permission_pairs(edges: Seq<RolePermission>, role_id: u128, permission_id: u128)
    requires
        forall|i: int, j: int|
            0 <= i < j < edges.len() ==> (#[trigger] edges[i].role_id, edges[i].permission_id) != (
                #[trigger] edges[j].role_id,
                edges[j].permission_id,
            ),
    ensures
        edges.filter(StoreView::joins_role_permission(role_id, permission_id)).len() == if exists|
            i: int,
        |
            0 <= i < edges.len() && #[trigger] edges[i].role_id == role_id
                && edges[i].permission_id == permission_id {
            1int
        } else {
            0int
        },
    decreases edges.len(),
{
    reveal(Seq::filter);
    if edges.len() > 0 {
        let rest = edges.drop_last();
        let n = edges.len() - 1;
        assert forall|i: int, j: int| 0 <= i < j < rest.len() implies (
            #[trigger] rest[i].role_id,
            rest[i].permission_id,
        ) != (#[trigger] rest[j].role_id, rest[j].permission_id) by {
            assert(rest[i] == edges[i] && rest[j] == edges[j]);
            assert((edges[i].role_id, edges[i].permission_id) != (
                edges[j].role_id,
                edges[j].permission_id,
            ));
        }
        lemma_role_permission_pairs(rest, role_id, permission_id);
        if edges[n].role_id == role_id && edges[n].permission_id == permission_id {
            assert forall|i: int| 0 <= i < rest.len() implies !(#[trigger] rest[i].role_id == role_id
                && rest[i].permission_id == permission_id) by {
                assert(rest[i] == edges[i]);
                assert((edges[i].role_id, edges[i].permission_id) != (
                    edges[n].role_id,
                    edges[n].permission_id,
                ));
            }
        } else {
            if exists|i: int|
                0 <= i < edges.len() && #[trigger] edges[i].role_id == role_id
                    && edges[i].permission_id == permission_id {
                let i = choose|i: int|
                    0 <= i < edges.len() && #[trigger] edges[i].role_id == role_id
                        && edges[i].permission_id == permission_id;
                assert(rest[i] == edges[i]);
            }
            if exists|i: int|
                0 <= i < rest.len() && #[trigger] rest[i].role_id == role_id
                    && rest[i].permission_id == permission_id {
                let i = choose|i: int|
                    0 <= i < rest.len() && #[trigger] rest[i].role_id == role_id
                        && rest[i].permission_id == permission_id;
                assert(rest[i] == edges[i]);
            }
        }
    }
}

/// A well-formed store holds at most one edge for each (user, role) pair
/// and for each (role, permission) pair.
pub proof fn one_edge_per_pair(s: StoreView, user_id: u128, role_id: u128, permission_id: u128)
    requires
        s.wf(),
    ensures
        s.user_roles.filter(StoreView::joins_user_role(user_id, role_id)).len() <= 1,
        s.role_permissions.filter(StoreView::joins_role_permission(role_id, permission_id)).len()
            <= 1,
{
    assert forall|i: int, j: int| 0 <= i < j < s.user_roles.len() implies (
        #[trigger] s.user_roles[i].user_id,
        s.user_roles[i].role_id,
    ) != (#[trigger] s.user_roles[j].user_id, s.user_roles[j].role_id) by {
        assert(s.user_roles[i].id != s.user_roles[j].id);
    }
    lemma_user_role_pairs(s.user_roles, user_id, role_id);
    assert forall|i: int, j: int| 0 <= i < j < s.role_permissions.len() implies (
        #[trigger] s.role_permissions[i].role_id,
        s.role_permissions[i].permission_id,
    ) != (#[trigger] s.role_permissions[j].role_id, s.role_permissions[j].permission_id) by {
        assert(s.role_permissions[i].id != s.role_permissions[j].id);
    }
    lemma_role_permission_pairs(s.role_permissions, role_id, permission_id);
}

/// Assigning a role to a user a second time hands back the edge the first
/// call returned, with the same id, and changes nothing: the pair stays
/// held by exactly one edge, so no duplicate row is made.
pub proof fn assign_role_twice(
    s0: StoreView,
    s1: StoreView,
    s2: StoreView,
    user_id: u128,
    role_id: u128,
    now1: i64,
    now2: i64,
    first: UserRole,
    second: Result<UserRole, ServiceError>,
)
    requires
        s0.wf(),
        s1.wf(),
        assign_role_outcome(s0, user_id, role_id, now1, Ok(first), s1),
        assign_role_outcome(s1, user_id, role_id, now2, second, s2),
    ensures
        second == Ok::<UserRole, ServiceError>(first),
        s2 == s1,
        s2.user_roles.filter(StoreView::joins_user_role(user_id, role_id)).len() <= 1,
        forall|i: int, j: int|
            #[trigger] s1.user_role_at(i, user_id, role_id) && #[trigger] s1.user_role_at(
                j,
                user_id,
                role_id,
            ) ==> i == j,
{
    one_edge_per_pair(s1, user_id, role_id, 0);
    if !s0.holds_role(user_id, role_id) {
        let last = s0.user_roles.len() as int;
        assert(s1.user_role_at(last, user_id, role_id) && s1.user_roles[last] == first);
    }
    let a = choose|a: int| #[trigger] s1.user_role_at(a, user_id, role_id) && s1.user_roles[a] == first;
    assert(s1.holds_role(user_id, role_id));
    let b = choose|b: int| #[trigger] s1.user_role_at(b, user_id, role_id) && Ok::<UserRole, ServiceError>(s1.user_roles[b]) == second;
    assert forall|i: int, j: int|
        #[trigger] s1.user_role_at(i, user_id, role_id) && #[trigger] s1.user_role_at(
            j,
            user_id,
            role_id,
        ) implies i == j by {
        if i < j {
            assert(s1.user_roles[i].id != s1.user_roles[j].id);
            assert((s1.user_roles[i].user_id, s1.user_roles[i].role_id) != (
                s1.user_roles[j].user_id,
                s1.user_roles[j].role_id,
            ));
        } else if j < i {
            assert(s1.user_roles[j].id != s1.user_roles[i].id);
            assert((s1.user_roles[j].user_id, s1.user_roles[j].role_id) != (
                s1.user_roles[i].user_id,
                s1.user_roles[i].role_id,
            ));
        }
    }
    assert(a == b);
}

/// Giving a role a permission a second time hands back the edge the first
/// call returned, with the same id, and changes nothing: the pair stays
/// held by exactly one edge, so no duplicate row is made.
pub proof fn assign_permission_twice(
    s0: StoreView,
    s1: StoreView,
    s2: StoreView,
    role_id: u128,
    permission_id: u128,
    now1: i64,
    now2: i64,
    first: RolePermission,
    second: Result<RolePermission, ServiceError>,
)
    requires
        s0.wf(),
        s1.wf(),
        assign_permission_outcome(s0, role_id, permission_id, now1, Ok(first), s1),
        assign_permission_outcome(s1, role_id, permission_id, now2, second, s2),
    ensures
        second == Ok::<RolePermission, ServiceError>(first),
        s2 == s1,
        s2.role_permissions.filter(StoreView::joins_role_permission(role_id, permission_id)).len()
            <= 1,
        forall|i: int, j: int|
            #[trigger] s1.role_permission_at(i, role_id, permission_id)
                && #[trigger] s1.role_permission_at(j, role_id, permission_id) ==> i == j,
{
    one_edge_per_pair(s1, 0, role_id, permission_id);
    if !s0.carries(role_id, permission_id) {
        let last = s0.role_permissions.len() as int;
        assert(s1.role_permission_at(last, role_id, permission_id) && s1.role_permissions[last]
            == first);
    }
    let a = choose|a: int|
        #[trigger] s1.role_permission_at(a, role_id, permission_id) && s1.role_permissions[a]
            == first;
    assert(s1.carries(role_id, permission_id));
    let b = choose|b: int|
        #[trigger] s1.role_permission_at(b, role_id, permission_id) && Ok::<
            RolePermission,
            ServiceError,
        >(s1.role_permissions[b]) == second;
    assert forall|i: int, j: int|
        #[trigger] s1.role_permission_at(i, role_id, permission_id)
            && #[trigger] s1.role_permission_at(j, role_id, permission_id) implies i == j by {
        if i < j {
            assert(s1.role_permissions[i].id != s1.role_permissions[j].id);
            assert((s1.role_permissions[i].role_id, s1.role_permissions[i].permission_id) != (
                s1.role_permissions[j].role_id,
                s1.role_permissions[j].permission_id,
            ));
        } else if j < i {
            assert(s1.role_permissions[j].id != s1.role_permissions[i].id);
            assert((s1.role_permissions[j].role_id, s1.role_permissions[j].permission_id) != (
                s1.role_permissions[i].role_id,
                s1.role_permissions[i].permission_id,
            ));
        }
    }
    assert(a == b);
}

/// Deny by default: access is refused to a user who holds no role, for a
/// key that no permission carries, and when none of the user's roles
/// carries the permission.
pub proof fn deny_by_default(s: StoreView, user_id: u128, resource: Seq<char>, action: Seq<char>)
    ensures
        (forall|i: int| 0 <= i < s.user_roles.len() ==> #[trigger] s.user_roles[i].user_id != user_id)
            ==> !s.grants(user_id, resource, action),
        !s.has_key(resource, action) ==> !s.grants(user_id, resource, action),
        (forall|k: int, role_id: u128|
            #[trigger] s.is_first_key_match(k, resource, action) && #[trigger] s.holds_role(
                user_id,
                role_id,
            ) ==> !s.carries(role_id, s.permissions[k].id)) ==> !s.grants(user_id, resource, action),
{
    if s.grants(user_id, resource, action) {
        let (k, role_id) = choose|k: int, role_id: u128|
            #[trigger] s.is_first_key_match(k, resource, action) && #[trigger] s.holds_role(
                user_id,
                role_id,
            ) && s.carries(role_id, s.permissions[k].id);
        let i = choose|i: int| #[trigger] s.user_role_at(i, user_id, role_id);
        assert(s.user_roles[i].user_id == user_id);
        assert(StoreView::key_matches(s.permissions[k], resource, action));
    }
}

} // verus!
