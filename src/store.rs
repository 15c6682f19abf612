//! The relational store: five tables whose uniqueness and reference
//! constraints are the store's well-formedness, enforced on every insert.
use vstd::prelude::*;

use crate::errors::ServiceError;
use crate::models::{
    NewPermission, NewRole, NewUser, Permission, Role, RolePermission, User, UserRole,
};

verus! {

/// The contents of the store, table by table, in insertion order.
pub struct StoreView {
    pub users: Seq<User>,
    pub roles: Seq<Role>,
    pub permissions: Seq<Permission>,
    pub user_roles: Seq<UserRole>,
    pub role_permissions: Seq<RolePermission>,
}

impl StoreView {
    pub open spec fn empty() -> StoreView {
        StoreView {
            users: Seq::empty(),
            roles: Seq::empty(),
            permissions: Seq::empty(),
            user_roles: Seq::empty(),
            role_permissions: Seq::empty(),
        }
    }

    pub open spec fn has_user(self, id: u128) -> bool {
        exists|i: int| 0 <= i < self.users.len() && #[trigger] self.users[i].id == id
    }

    pub open spec fn email_taken(self, email: Seq<char>) -> bool {
        exists|i: int| 0 <= i < self.users.len() && #[trigger] self.users[i].email@ == email
    }

    pub open spec fn has_role(self, id: u128) -> bool {
        exists|i: int| 0 <= i < self.roles.len() && #[trigger] self.roles[i].id == id
    }

    pub open spec fn role_name_taken(self, name: Seq<char>) -> bool {
        exists|i: int| 0 <= i < self.roles.len() && #[trigger] self.roles[i].name@ == name
    }

    pub open spec fn has_permission(self, id: u128) -> bool {
        exists|i: int| 0 <= i < self.permissions.len() && #[trigger] self.permissions[i].id == id
    }

    pub open spec fn permission_name_taken(self, name: Seq<char>) -> bool {
        exists|i: int|
            0 <= i < self.permissions.len() && #[trigger] self.permissions[i].name@ == name
    }

    pub open spec fn has_user_role_id(self, id: u128) -> bool {
        exists|i: int| 0 <= i < self.user_roles.len() && #[trigger] self.user_roles[i].id == id
    }

    pub open spec fn has_role_permission_id(self, id: u128) -> bool {
        exists|i: int|
            0 <= i < self.role_permissions.len() && #[trigger] self.role_permissions[i].id == id
    }

    /// Index `i` holds the edge from `user_id` to `role_id`.
    pub open spec fn user_role_at(self, i: int, user_id: u128, role_id: u128) -> bool {
        &&& 0 <= i < self.user_roles.len()
        &&& self.user_roles[i].user_id == user_id
        &&& self.user_roles[i].role_id == role_id
    }

    /// Index `i` holds the edge from `role_id` to `permission_id`.
    pub open spec fn role_permission_at(self, i: int, role_id: u128, permission_id: u128) -> bool {
        &&& 0 <= i < self.role_permissions.len()
        &&& self.role_permissions[i].role_id == role_id
        &&& self.role_permissions[i].permission_id == permission_id
    }

    pub open spec fn holds_role(self, user_id: u128, role_id: u128) -> bool {
        exists|i: int| #[trigger] self.user_role_at(i, user_id, role_id)
    }

    pub open spec fn carries(self, role_id: u128, permission_id: u128) -> bool {
        exists|i: int| #[trigger] self.role_permission_at(i, role_id, permission_id)
    }

    /// The store's constraints: unique keys in every table, unique edge
    /// pairs, and edges that point at existing rows.
    pub open spec fn wf(self) -> bool {
        &&& forall|i: int, j: int|
            0 <= i < j < self.users.len() ==> {
                &&& #[trigger] self.users[i].id != #[trigger] self.users[j].id
                &&& self.users[i].email@ != self.users[j].email@
            }
        &&& forall|i: int, j: int|
            0 <= i < j < self.roles.len() ==> {
                &&& #[trigger] self.roles[i].id != #[trigger] self.roles[j].id
                &&& self.roles[i].name@ != self.roles[j].name@
            }
        &&& forall|i: int, j: int|
            0 <= i < j < self.permissions.len() ==> {
                &&& #[trigger] self.permissions[i].id != #[trigger] self.permissions[j].id
                &&& self.permissions[i].name@ != self.permissions[j].name@
            }
        &&& forall|i: int, j: int|
            0 <= i < j < self.user_roles.len() ==> {
                &&& #[trigger] self.user_roles[i].id != #[trigger] self.user_roles[j].id
                &&& (self.user_roles[i].user_id, self.user_roles[i].role_id) != (
                    self.user_roles[j].user_id,
                    self.user_roles[j].role_id,
                )
            }
        &&& forall|i: int, j: int|
            0 <= i < j < self.role_permissions.len() ==> {
                &&& #[trigger] self.role_permissions[i].id != #[trigger] self.role_permissions[j].id
                &&& (self.role_permissions[i].role_id, self.role_permissions[i].permission_id) != (
                    self.role_permissions[j].role_id,
                    self.role_permissions[j].permission_id,
                )
            }
        &&& forall|i: int|
            0 <= i < self.user_roles.len() ==> {
                &&& self.has_user(#[trigger] self.user_roles[i].user_id)
                &&& self.has_role(self.user_roles[i].role_id)
            }
        &&& forall|i: int|
            0 <= i < self.role_permissions.len() ==> {
                &&& self.has_role(#[trigger] self.role_permissions[i].role_id)
                &&& self.has_permission(self.role_permissions[i].permission_id)
            }
    }

    pub open spec fn new_user_row(id: u128, new_user: NewUser, now: i64) -> User {
        User {
            id,
            email: new_user.email,
            password_hash: new_user.password_hash,
            full_name: new_user.full_name,
            created_at: now,
            updated_at: now,
            last_login: None,
            is_active: true,
        }
    }

    pub open spec fn with_user(self, u: User) -> StoreView {
        StoreView { users: self.users.push(u), ..self }
    }

    pub open spec fn new_role_row(id: u128, new_role: NewRole, now: i64) -> Role {
        Role {
            id,
            name: new_role.name,
            description: new_role.description,
            created_at: now,
            updated_at: now,
        }
    }

    pub open spec fn new_permission_row(id: u128, p: NewPermission, now: i64) -> Permission {
        Permission {
            id,
            name: p.name,
            description: p.description,
            resource: p.resource,
            action: p.action,
            created_at: now,
            updated_at: now,
        }
    }

    pub open spec fn with_role(self, r: Role) -> StoreView {
        StoreView { roles: self.roles.push(r), ..self }
    }

    pub open spec fn with_permission(self, p: Permission) -> StoreView {
        StoreView { permissions: self.permissions.push(p), ..self }
    }

    pub open spec fn with_user_role(self, e: UserRole) -> StoreView {
        StoreView { user_roles: self.user_roles.push(e), ..self }
    }

    pub open spec fn with_role_permission(self, e: RolePermission) -> StoreView {
        StoreView { role_permissions: self.role_permissions.push(e), ..self }
    }

    pub open spec fn leaves_user(user_id: u128) -> spec_fn(UserRole) -> bool {
        |e: UserRole| e.user_id == user_id
    }

    pub open spec fn leaves_role(role_id: u128) -> spec_fn(RolePermission) -> bool {
        |e: RolePermission| e.role_id == role_id
    }

    pub open spec fn joins_user_role(user_id: u128, role_id: u128) -> spec_fn(UserRole) -> bool {
        |e: UserRole| e.user_id == user_id && e.role_id == role_id
    }

    pub open spec fn joins_role_permission(role_id: u128, permission_id: u128) -> spec_fn(
        RolePermission,
    ) -> bool {
        |e: RolePermission| e.role_id == role_id && e.permission_id == permission_id
    }

    /// The edges that leave `user_id`, in insertion order.
    pub open spec fn roles_of(self, user_id: u128) -> Seq<UserRole> {
        self.user_roles.filter(StoreView::leaves_user(user_id))
    }

    /// The edges that leave `role_id`, in insertion order.
    pub open spec fn permissions_of(self, role_id: u128) -> Seq<RolePermission> {
        self.role_permissions.filter(StoreView::leaves_role(role_id))
    }

    pub open spec fn key_matches(p: Permission, resource: Seq<char>, action: Seq<char>) -> bool {
        p.resource@ == resource && p.action@ == action
    }

    /// Some permission carries the key `(resource, action)`.
    pub open spec fn has_key(self, resource: Seq<char>, action: Seq<char>) -> bool {
        exists|k: int|
            0 <= k < self.permissions.len() && #[trigger] StoreView::key_matches(
                self.permissions[k],
                resource,
                action,
            )
    }

    /// Index `k` holds the first permission, in insertion order, keyed
    /// `(resource, action)`: the one that authorization consults.
    pub open spec fn is_first_key_match(self, k: int, resource: Seq<char>, action: Seq<char>) -> bool {
        &&& 0 <= k < self.permissions.len()
        &&& StoreView::key_matches(self.permissions[k], resource, action)
        &&& forall|j: int|
            0 <= j < k ==> !#[trigger] StoreView::key_matches(self.permissions[j], resource, action)
    }

    /// The user holds a role that carries the permission keyed
    /// `(resource, action)`.
    pub open spec fn grants(self, user_id: u128, resource: Seq<char>, action: Seq<char>) -> bool {
        exists|k: int, role_id: u128|
            #[trigger] self.is_first_key_match(k, resource, action) && #[trigger] self.holds_role(
                user_id,
                role_id,
            ) && self.carries(role_id, self.permissions[k].id)
    }

    /// The user at index `i` after a login at time `now`.
    pub open spec fn logged_in(self, i: int, now: i64) -> StoreView {
        StoreView {
            users: self.users.update(
                i,
                User { last_login: Some(now), updated_at: now, ..self.users[i] },
            ),
            ..self
        }
    }
}

/// The store itself. Its tables are private: every change goes through
/// a method that keeps `wf`.
pub struct Store {
    users: Vec<User>,
    roles: Vec<Role>,
    permissions: Vec<Permission>,
    user_roles: Vec<UserRole>,
    role_permissions: Vec<RolePermission>,
}

impl View for Store {
    type V = StoreView;

    closed spec fn view(&self) -> StoreView {
        StoreView {
            users: self.users@,
            roles: self.roles@,
            permissions: self.permissions@,
            user_roles: self.user_roles@,
            role_permissions: self.role_permissions@,
        }
    }
}

fn constraint_violation() -> (r: ServiceError)
    ensures
        r is DatabaseError,
{
    ServiceError::DatabaseError(String::from_str("constraint violated"))
}

proof fn lemma_with_user_wf(pre: StoreView, u: User)
    requires
        pre.wf(),
        !pre.has_user(u.id),
        !pre.email_taken(u.email@),
    ensures
        pre.with_user(u).wf(),
{
    let post = pre.with_user(u);
    assert forall|i: int, j: int| 0 <= i < j < post.users.len() implies {
        &&& #[trigger] post.users[i].id != #[trigger] post.users[j].id
        &&& post.users[i].email@ != post.users[j].email@
    } by {
        assert(post.users[i] == pre.users[i]);
        if j == pre.users.len() {
            assert(post.users[j] == u);
            assert(pre.users[i].id != u.id);
            assert(pre.users[i].email@ != u.email@);
        } else {
            assert(post.users[j] == pre.users[j]);
            assert(pre.users[i].id != pre.users[j].id);
        }
    }
    assert forall|i: int| 0 <= i < post.user_roles.len() implies {
        &&& post.has_user(#[trigger] post.user_roles[i].user_id)
        &&& post.has_role(post.user_roles[i].role_id)
    } by {
        let k = choose|k: int|
            0 <= k < pre.users.len() && #[trigger] pre.users[k].id == pre.user_roles[i].user_id;
        assert(post.users[k] == pre.users[k]);
    }
    assert forall|i: int| 0 <= i < post.role_permissions.len() implies {
        &&& post.has_role(#[trigger] post.role_permissions[i].role_id)
        &&& post.has_permission(post.role_permissions[i].permission_id)
    } by {
        assert(pre.has_role(pre.role_permissions[i].role_id));
    }
}

proof fn lemma_logged_in_wf(pre: StoreView, i: int, now: i64)
    requires
        pre.wf(),
        0 <= i < pre.users.len(),
    ensures
        pre.logged_in(i, now).wf(),
{
    let post = pre.logged_in(i, now);
    assert forall|k: int| 0 <= k < post.users.len() implies {
        &&& #[trigger] post.users[k].id == pre.users[k].id
        &&& post.users[k].email@ == pre.users[k].email@
    } by {}
    assert forall|a: int, b: int| 0 <= a < b < post.users.len() implies {
        &&& #[trigger] post.users[a].id != #[trigger] post.users[b].id
        &&& post.users[a].email@ != post.users[b].email@
    } by {
        assert(pre.users[a].id != pre.users[b].id);
    }
    assert forall|k: int| 0 <= k < post.user_roles.len() implies {
        &&& post.has_user(#[trigger] post.user_roles[k].user_id)
        &&& post.has_role(post.user_roles[k].role_id)
    } by {
        let w = choose|w: int|
            0 <= w < pre.users.len() && #[trigger] pre.users[w].id == pre.user_roles[k].user_id;
        assert(post.users[w].id == pre.users[w].id);
    }
    assert forall|k: int| 0 <= k < post.role_permissions.len() implies {
        &&& post.has_role(#[trigger] post.role_permissions[k].role_id)
        &&& post.has_permission(post.role_permissions[k].permission_id)
    } by {
        assert(pre.has_role(pre.role_permissions[k].role_id));
    }
}

proof fn lemma_with_role_wf(pre: StoreView, r: Role)
    requires
        pre.wf(),
        !pre.has_role(r.id),
        !pre.role_name_taken(r.name@),
    ensures
        pre.with_role(r).wf(),
{
    let post = pre.with_role(r);
    assert forall|i: int, j: int| 0 <= i < j < post.roles.len() implies {
        &&& #[trigger] post.roles[i].id != #[trigger] post.roles[j].id
        &&& post.roles[i].name@ != post.roles[j].name@
    } by {
        assert(post.roles[i] == pre.roles[i]);
        if j == pre.roles.len() {
            assert(post.roles[j] == r);
            assert(pre.roles[i].id != r.id);
            assert(pre.roles[i].name@ != r.name@);
        } else {
            assert(post.roles[j] == pre.roles[j]);
            assert(pre.roles[i].id != pre.roles[j].id);
        }
    }
    assert forall|id: u128| pre.has_role(id) implies post.has_role(id) by {
        let w = choose|w: int| 0 <= w < pre.roles.len() && #[trigger] pre.roles[w].id == id;
        assert(post.roles[w] == pre.roles[w]);
    }
    assert forall|i: int| 0 <= i < post.user_roles.len() implies {
        &&& post.has_user(#[trigger] post.user_roles[i].user_id)
        &&& post.has_role(post.user_roles[i].role_id)
    } by {
        assert(pre.has_user(pre.user_roles[i].user_id) && pre.has_role(pre.user_roles[i].role_id));
    }
    assert forall|i: int| 0 <= i < post.role_permissions.len() implies {
        &&& post.has_role(#[trigger] post.role_permissions[i].role_id)
        &&& post.has_permission(post.role_permissions[i].permission_id)
    } by {
        assert(pre.has_role(pre.role_permissions[i].role_id));
    }
}

proof fn lemma_with_permission_wf(pre: StoreView, p: Permission)
    requires
        pre.wf(),
        !pre.has_permission(p.id),
        !pre.permission_name_taken(p.name@),
    ensures
        pre.with_permission(p).wf(),
{
    let post = pre.with_permission(p);
    assert forall|i: int, j: int| 0 <= i < j < post.permissions.len() implies {
        &&& #[trigger] post.permissions[i].id != #[trigger] post.permissions[j].id
        &&& post.permissions[i].name@ != post.permissions[j].name@
    } by {
        assert(post.permissions[i] == pre.permissions[i]);
        if j == pre.permissions.len() {
            assert(post.permissions[j] == p);
            assert(pre.permissions[i].id != p.id);
            assert(pre.permissions[i].name@ != p.name@);
        } else {
            assert(post.permissions[j] == pre.permissions[j]);
            assert(pre.permissions[i].id != pre.permissions[j].id);
        }
    }
    assert forall|i: int| 0 <= i < post.role_permissions.len() implies {
        &&& post.has_role(#[trigger] post.role_permissions[i].role_id)
        &&& post.has_permission(post.role_permissions[i].permission_id)
    } by {
        assert(pre.has_role(pre.role_permissions[i].role_id));
        let w = choose|w: int|
            0 <= w < pre.permissions.len() && #[trigger] pre.permissions[w].id
                == pre.role_permissions[i].permission_id;
        assert(post.permissions[w] == pre.permissions[w]);
    }
}

proof fn lemma_with_user_role_wf(pre: StoreView, e: UserRole)
    requires
        pre.wf(),
        !pre.has_user_role_id(e.id),
        !pre.holds_role(e.user_id, e.role_id),
        pre.has_user(e.user_id),
        pre.has_role(e.role_id),
    ensures
        pre.with_user_role(e).wf(),
{
    let post = pre.with_user_role(e);
    assert forall|i: int, j: int| 0 <= i < j < post.user_roles.len() implies {
        &&& #[trigger] post.user_roles[i].id != #[trigger] post.user_roles[j].id
        &&& (post.user_roles[i].user_id, post.user_roles[i].role_id) != (
            post.user_roles[j].user_id,
            post.user_roles[j].role_id,
        )
    } by {
        assert(post.user_roles[i] == pre.user_roles[i]);
        if j == pre.user_roles.len() {
            assert(post.user_roles[j] == e);
            assert(pre.user_roles[i].id != e.id);
            assert(!pre.user_role_at(i, e.user_id, e.role_id));
        } else {
            assert(post.user_roles[j] == pre.user_roles[j]);
            assert(pre.user_roles[i].id != pre.user_roles[j].id);
        }
    }
    assert forall|i: int| 0 <= i < post.user_roles.len() implies {
        &&& post.has_user(#[trigger] post.user_roles[i].user_id)
        &&& post.has_role(post.user_roles[i].role_id)
    } by {
        if i < pre.user_roles.len() {
            assert(post.user_roles[i] == pre.user_roles[i]);
            assert(pre.has_user(pre.user_roles[i].user_id) && pre.has_role(pre.user_roles[i].role_id));
        }
    }
    assert forall|i: int| 0 <= i < post.role_permissions.len() implies {
        &&& post.has_role(#[trigger] post.role_permissions[i].role_id)
        &&& post.has_permission(post.role_permissions[i].permission_id)
    } by {
        assert(pre.has_role(pre.role_permissions[i].role_id));
    }
}

proof fn lemma_with_role_permission_wf(pre: StoreView, e: RolePermission)
    requires
        pre.wf(),
        !pre.has_role_permission_id(e.id),
        !pre.carries(e.role_id, e.permission_id),
        pre.has_role(e.role_id),
        pre.has_permission(e.permission_id),
    ensures
        pre.with_role_permission(e).wf(),
{
    let post = pre.with_role_permission(e);
    assert forall|i: int, j: int| 0 <= i < j < post.role_permissions.len() implies {
        &&& #[trigger] post.role_permissions[i].id != #[trigger] post.role_permissions[j].id
        &&& (post.role_permissions[i].role_id, post.role_permissions[i].permission_id) != (
            post.role_permissions[j].role_id,
            post.role_permissions[j].permission_id,
        )
    } by {
        assert(post.role_permissions[i] == pre.role_permissions[i]);
        if j == pre.role_permissions.len() {
            assert(post.role_permissions[j] == e);
            assert(pre.role_permissions[i].id != e.id);
            assert(!pre.role_permission_at(i, e.role_id, e.permission_id));
        } else {
            assert(post.role_permissions[j] == pre.role_permissions[j]);
            assert(pre.role_permissions[i].id != pre.role_permissions[j].id);
        }
    }
    assert forall|i: int| 0 <= i < post.user_roles.len() implies {
        &&& post.has_user(#[trigger] post.user_roles[i].user_id)
        &&& post.has_role(post.user_roles[i].role_id)
    } by {
        assert(pre.has_user(pre.user_roles[i].user_id) && pre.has_role(pre.user_roles[i].role_id));
    }
    assert forall|i: int| 0 <= i < post.role_permissions.len() implies {
        &&& post.has_role(#[trigger] post.role_permissions[i].role_id)
        &&& post.has_permission(post.role_permissions[i].permission_id)
    } by {
        if i < pre.role_permissions.len() {
            assert(post.role_permissions[i] == pre.role_permissions[i]);
            assert(pre.has_role(pre.role_permissions[i].role_id));
        }
    }
}

impl Store {
    pub open spec fn wf(&self) -> bool {
        self@.wf()
    }

    pub fn new() -> (r: Store)
        ensures
            r.wf(),
            r@ == StoreView::empty(),
    {
        let r = Store {
            users: Vec::new(),
            roles: Vec::new(),
            permissions: Vec::new(),
            user_roles: Vec::new(),
            role_permissions: Vec::new(),
        };
        assert(r@ =~= StoreView::empty());
        r
    }

    pub fn user_count(&self) -> (r: usize)
        ensures
            r == self@.users.len(),
    {
        self.users.len()
    }

    pub fn user_at(&self, i: usize) -> (r: &User)
        requires
            i < self@.users.len(),
        ensures
            *r == self@.users[i as int],
    {
        &self.users[i]
    }

    /// The index of the user with this id.
    pub fn user_index(&self, id: u128) -> (r: Option<usize>)
        ensures
            r matches Some(i) ==> i < self@.users.len() && self@.users[i as int].id == id,
            r is None <==> !self@.has_user(id),
    {
        let mut i: usize = 0;
        while i < self.users.len()
            invariant
                i <= self.users.len(),
                forall|k: int| 0 <= k < i ==> self.users@[k].id != id,
            decreases self.users.len() - i,
        {
            if self.users[i].id == id {
                return Some(i);
            }
            i += 1;
        }
        None
    }

    /// The index of the user with this email.
    pub fn user_index_by_email(&self, email: &String) -> (r: Option<usize>)
        ensures
            r matches Some(i) ==> i < self@.users.len() && self@.users[i as int].email@ == email@,
            r is None <==> !self@.email_taken(email@),
    {
        let mut i: usize = 0;
        while i < self.users.len()
            invariant
                i <= self.users.len(),
                forall|k: int| 0 <= k < i ==> self.users@[k].email@ != email@,
            decreases self.users.len() - i,
        {
            if self.users[i].email == *email {
                return Some(i);
            }
            i += 1;
        }
        None
    }

    /// Adds a user row; fails as the store's constraints would when the id
    /// or the email is already taken.
    pub fn insert_user(&mut self, id: u128, new_user: NewUser, now: i64) -> (r: Result<
        User,
        ServiceError,
    >)
        requires
            old(self).wf(),
        ensures
            final(self).wf(),
            old(self)@.has_user(id) || old(self)@.email_taken(new_user.email@) ==> {
                &&& r matches Err(e) && e is DatabaseError
                &&& final(self)@ == old(self)@
            },
            !old(self)@.has_user(id) && !old(self)@.email_taken(new_user.email@) ==> {
                &&& r == Ok::<User, ServiceError>(StoreView::new_user_row(id, new_user, now))
                &&& final(self)@ == old(self)@.with_user(StoreView::new_user_row(id, new_user, now))
            },
    {
        if self.user_index(id).is_some() || self.user_index_by_email(&new_user.email).is_some() {
            return Err(constraint_violation());
        }
        let ghost spec_row = StoreView::new_user_row(id, new_user, now);
        let user = User {
            id,
            email: new_user.email,
            password_hash: new_user.password_hash,
            full_name: new_user.full_name,
            created_at: now,
            updated_at: now,
            last_login: None,
            is_active: true,
        };
        let ghost pre = self@;
        self.users.push(user.clone());
        proof {
            assert(self@ =~= pre.with_user(spec_row));
            lemma_with_user_wf(pre, spec_row);
        }
        Ok(user)
    }

    /// Records a login of the user at index `i` at time `now`.
    pub fn record_login(&mut self, i: usize, now: i64) -> (r: User)
        requires
            old(self).wf(),
            i < old(self)@.users.len(),
        ensures
            final(self).wf(),
            final(self)@ == old(self)@.logged_in(i as int, now),
            r == final(self)@.users[i as int],
    {
        let ghost pre = self@;
        let mut user = self.users[i].clone();
        user.last_login = Some(now);
        user.updated_at = now;
        self.users.set(i, user.clone());
        proof {
            assert(self@ =~= pre.logged_in(i as int, now));
            lemma_logged_in_wf(pre, i as int, now);
        }
        user
    }
    pub fn has_user(&self, id: u128) -> (r: bool)
        ensures
            r == self@.has_user(id),
    {
        self.user_index(id).is_some()
    }

    pub fn has_role(&self, id: u128) -> (r: bool)
        ensures
            r == self@.has_role(id),
    {
        let mut i: usize = 0;
        while i < self.roles.len()
            invariant
                i <= self.roles.len(),
                forall|k: int| 0 <= k < i ==> self.roles@[k].id != id,
            decreases self.roles.len() - i,
        {
            if self.roles[i].id == id {
                return true;
            }
            i += 1;
        }
        false
    }

    pub fn role_name_taken(&self, name: &String) -> (r: bool)
        ensures
            r == self@.role_name_taken(name@),
    {
        let mut i: usize = 0;
        while i < self.roles.len()
            invariant
                i <= self.roles.len(),
                forall|k: int| 0 <= k < i ==> self.roles@[k].name@ != name@,
            decreases self.roles.len() - i,
        {
            if self.roles[i].name == *name {
                return true;
            }
            i += 1;
        }
        false
    }

    pub fn has_permission(&self, id: u128) -> (r: bool)
        ensures
            r == self@.has_permission(id),
    {
        let mut i: usize = 0;
        while i < self.permissions.len()
            invariant
                i <= self.permissions.len(),
                forall|k: int| 0 <= k < i ==> self.permissions@[k].id != id,
            decreases self.permissions.len() - i,
        {
            if self.permissions[i].id == id {
                return true;
            }
            i += 1;
        }
        false
    }

    pub fn permission_name_taken(&self, name: &String) -> (r: bool)
        ensures
            r == self@.permission_name_taken(name@),
    {
        let mut i: usize = 0;
        while i < self.permissions.len()
            invariant
                i <= self.permissions.len(),
                forall|k: int| 0 <= k < i ==> self.permissions@[k].name@ != name@,
            decreases self.permissions.len() - i,
        {
            if self.permissions[i].name == *name {
                return true;
            }
            i += 1;
        }
        false
    }

    pub fn permission_at(&self, k: usize) -> (r: &Permission)
        requires
            k < self@.permissions.len(),
        ensures
            *r == self@.permissions[k as int],
    {
        &self.permissions[k]
    }

    /// The index of the first permission keyed `(resource, action)`.
    pub fn permission_index_by_key(&self, resource: &String, action: &String) -> (r: Option<usize>)
        ensures
            r matches Some(k) ==> self@.is_first_key_match(k as int, resource@, action@),
            r is None <==> !self@.has_key(resource@, action@),
    {
        let mut i: usize = 0;
        while i < self.permissions.len()
            invariant
                i <= self.permissions.len(),
                forall|k: int|
                    0 <= k < i ==> !#[trigger] StoreView::key_matches(
                        self.permissions@[k],
                        resource@,
                        action@,
                    ),
            decreases self.permissions.len() - i,
        {
            if self.permissions[i].resource == *resource && self.permissions[i].action == *action {
                assert(StoreView::key_matches(self@.permissions[i as int], resource@, action@));
                return Some(i);
            }
            i += 1;
        }
        None
    }

    fn has_user_role_id(&self, id: u128) -> (r: bool)
        ensures
            r == self@.has_user_role_id(id),
    {
        let mut i: usize = 0;
        while i < self.user_roles.len()
            invariant
                i <= self.user_roles.len(),
                forall|k: int| 0 <= k < i ==> self.user_roles@[k].id != id,
            decreases self.user_roles.len() - i,
        {
            if self.user_roles[i].id == id {
                assert(self@.user_roles[i as int].id == id);
                return true;
            }
            i += 1;
        }
        false
    }

    fn has_role_permission_id(&self, id: u128) -> (r: bool)
        ensures
            r == self@.has_role_permission_id(id),
    {
        let mut i: usize = 0;
        while i < self.role_permissions.len()
            invariant
                i <= self.role_permissions.len(),
                forall|k: int| 0 <= k < i ==> self.role_permissions@[k].id != id,
            decreases self.role_permissions.len() - i,
        {
            if self.role_permissions[i].id == id {
                assert(self@.role_permissions[i as int].id == id);
                return true;
            }
            i += 1;
        }
        false
    }

    /// The edge from `user_id` to `role_id`, if there is one.
    pub fn find_user_role(&self, user_id: u128, role_id: u128) -> (r: Option<UserRole>)
        ensures
            r matches Some(e) ==> exists|i: int| #[trigger] self@.user_role_at(i, user_id, role_id)
                && self@.user_roles[i] == e,
            r is None <==> !self@.holds_role(user_id, role_id),
    {
        let mut i: usize = 0;
        while i < self.user_roles.len()
            invariant
                i <= self.user_roles.len(),
                forall|k: int| 0 <= k < i ==> !#[trigger] self@.user_role_at(k, user_id, role_id),
            decreases self.user_roles.len() - i,
        {
            if self.user_roles[i].user_id == user_id && self.user_roles[i].role_id == role_id {
                assert(self@.user_role_at(i as int, user_id, role_id));
                return Some(self.user_roles[i]);
            }
            i += 1;
        }
        None
    }

    /// The edge from `role_id` to `permission_id`, if there is one.
    pub fn find_role_permission(&self, role_id: u128, permission_id: u128) -> (r: Option<
        RolePermission,
    >)
        ensures
            r matches Some(e) ==> exists|i: int| #[trigger] self@.role_permission_at(
                i,
                role_id,
                permission_id,
            ) && self@.role_permissions[i] == e,
            r is None <==> !self@.carries(role_id, permission_id),
    {
        let mut i: usize = 0;
        while i < self.role_permissions.len()
            invariant
                i <= self.role_permissions.len(),
                forall|k: int|
                    0 <= k < i ==> !#[trigger] self@.role_permission_at(k, role_id, permission_id),
            decreases self.role_permissions.len() - i,
        {
            if self.role_permissions[i].role_id == role_id
                && self.role_permissions[i].permission_id == permission_id {
                assert(self@.role_permission_at(i as int, role_id, permission_id));
                return Some(self.role_permissions[i]);
            }
            i += 1;
        }
        None
    }

    /// The edges that leave `user_id`, in insertion order.
    pub fn user_roles_of(&self, user_id: u128) -> (r: Vec<UserRole>)
        ensures
            r@ == self@.roles_of(user_id),
            forall|j: int| 0 <= j < r@.len() ==> self@.holds_role(user_id, #[trigger] r@[j].role_id),
            forall|role_id: u128|
                #[trigger] self@.holds_role(user_id, role_id) ==> exists|j: int|
                    0 <= j < r@.len() && r@[j].role_id == role_id,
    {
        let mut r: Vec<UserRole> = Vec::new();
        let mut i: usize = 0;
        while i < self.user_roles.len()
            invariant
                i <= self.user_roles.len(),
                r@ == self.user_roles@.subrange(0, i as int).filter(StoreView::leaves_user(user_id)),
                forall|j: int| 0 <= j < r@.len() ==> self@.holds_role(user_id, #[trigger] r@[j].role_id),
                forall|k: int|
                    0 <= k < i && #[trigger] self@.user_role_at(k, user_id, self@.user_roles[k].role_id)
                        ==> exists|j: int|
                        0 <= j < r@.len() && r@[j].role_id == self@.user_roles[k].role_id,
            decreases self.user_roles.len() - i,
        {
            let e = self.user_roles[i];
            proof {
                assert(self.user_roles@.subrange(0, i + 1) =~= self.user_roles@.subrange(
                    0,
                    i as int,
                ).push(e));
                self.user_roles@.subrange(0, i as int).lemma_filter_push(
                    e,
                    StoreView::leaves_user(user_id),
                );
            }
            let ghost before = r@;
            if e.user_id == user_id {
                r.push(e);
                assert(self@.user_role_at(i as int, user_id, e.role_id));
                assert(r@[r@.len() - 1].role_id == e.role_id);
            }
            proof {
                assert forall|k: int|
                    0 <= k < i + 1 && #[trigger] self@.user_role_at(
                        k,
                        user_id,
                        self@.user_roles[k].role_id,
                    ) implies exists|j: int|
                    0 <= j < r@.len() && r@[j].role_id == self@.user_roles[k].role_id by {
                    if k < i {
                        let j = choose|j: int|
                            0 <= j < before.len() && before[j].role_id
                                == self@.user_roles[k].role_id;
                        assert(r@[j] == before[j]);
                    } else {
                        assert(r@[r@.len() - 1].role_id == e.role_id);
                    }
                }
            }
            i += 1;
        }
        assert(self.user_roles@.subrange(0, i as int) =~= self.user_roles@);
        proof {
            assert forall|role_id: u128| #[trigger] self@.holds_role(user_id, role_id) implies exists|
                j: int,
            | 0 <= j < r@.len() && r@[j].role_id == role_id by {
                let k = choose|k: int| #[trigger] self@.user_role_at(k, user_id, role_id);
                assert(self@.user_role_at(k, user_id, self@.user_roles[k].role_id));
            }
        }
        r
    }

    /// The edges that leave `role_id`, in insertion order.
    pub fn role_permissions_of(&self, role_id: u128) -> (r: Vec<RolePermission>)
        ensures
            r@ == self@.permissions_of(role_id),
            forall|j: int|
                0 <= j < r@.len() ==> self@.carries(role_id, #[trigger] r@[j].permission_id),
    {
        let mut r: Vec<RolePermission> = Vec::new();
        let mut i: usize = 0;
        while i < self.role_permissions.len()
            invariant
                i <= self.role_permissions.len(),
                r@ == self.role_permissions@.subrange(0, i as int).filter(
                    StoreView::leaves_role(role_id),
                ),
                forall|j: int|
                    0 <= j < r@.len() ==> self@.carries(role_id, #[trigger] r@[j].permission_id),
            decreases self.role_permissions.len() - i,
        {
            let e = self.role_permissions[i];
            proof {
                assert(self.role_permissions@.subrange(0, i + 1) =~= self.role_permissions@.subrange(
                    0,
                    i as int,
                ).push(e));
                self.role_permissions@.subrange(0, i as int).lemma_filter_push(
                    e,
                    StoreView::leaves_role(role_id),
                );
            }
            if e.role_id == role_id {
                r.push(e);
                assert(self@.role_permission_at(i as int, role_id, e.permission_id));
                assert(r@[r@.len() - 1].permission_id == e.permission_id);
            }
            i += 1;
        }
        assert(self.role_permissions@.subrange(0, i as int) =~= self.role_permissions@);
        r
    }

    /// Adds a role row; fails as the store's constraints would when the id
    /// or the name is already taken.
    pub fn insert_role(&mut self, id: u128, new_role: NewRole, now: i64) -> (r: Result<
        Role,
        ServiceError,
    >)
        requires
            old(self).wf(),
        ensures
            final(self).wf(),
            old(self)@.has_role(id) || old(self)@.role_name_taken(new_role.name@) ==> {
                &&& r matches Err(e) && e is DatabaseError
                &&& final(self)@ == old(self)@
            },
            !old(self)@.has_role(id) && !old(self)@.role_name_taken(new_role.name@) ==> {
                &&& r == Ok::<Role, ServiceError>(StoreView::new_role_row(id, new_role, now))
                &&& final(self)@ == old(self)@.with_role(StoreView::new_role_row(id, new_role, now))
            },
    {
        if self.has_role(id) || self.role_name_taken(&new_role.name) {
            return Err(constraint_violation());
        }
        let ghost row = StoreView::new_role_row(id, new_role, now);
        let role = Role {
            id,
            name: new_role.name,
            description: new_role.description,
            created_at: now,
            updated_at: now,
        };
        let ghost pre = self@;
        self.roles.push(role.clone());
        proof {
            assert(self@ =~= pre.with_role(row));
            lemma_with_role_wf(pre, row);
        }
        Ok(role)
    }

    /// Adds a permission row; fails as the store's constraints would when
    /// the id or the name is already taken.
    pub fn insert_permission(&mut self, id: u128, new_permission: NewPermission, now: i64) -> (r:
        Result<Permission, ServiceError>)
        requires
            old(self).wf(),
        ensures
            final(self).wf(),
            old(self)@.has_permission(id) || old(self)@.permission_name_taken(
                new_permission.name@,
            ) ==> {
                &&& r matches Err(e) && e is DatabaseError
                &&& final(self)@ == old(self)@
            },
            !old(self)@.has_permission(id) && !old(self)@.permission_name_taken(
                new_permission.name@,
            ) ==> {
                &&& r == Ok::<Permission, ServiceError>(
                    StoreView::new_permission_row(id, new_permission, now),
                )
                &&& final(self)@ == old(self)@.with_permission(
                    StoreView::new_permission_row(id, new_permission, now),
                )
            },
    {
        if self.has_permission(id) || self.permission_name_taken(&new_permission.name) {
            return Err(constraint_violation());
        }
        let ghost row = StoreView::new_permission_row(id, new_permission, now);
        let permission = Permission {
            id,
            name: new_permission.name,
            description: new_permission.description,
            resource: new_permission.resource,
            action: new_permission.action,
            created_at: now,
            updated_at: now,
        };
        let ghost pre = self@;
        self.permissions.push(permission.clone());
        proof {
            assert(self@ =~= pre.with_permission(row));
            lemma_with_permission_wf(pre, row);
        }
        Ok(permission)
    }

    /// Adds the edge `user_id -> role_id`; fails as the store's constraints
    /// would on a taken id, a repeated pair or a missing endpoint.
    pub fn insert_user_role(&mut self, id: u128, user_id: u128, role_id: u128, now: i64) -> (r:
        Result<UserRole, ServiceError>)
        requires
            old(self).wf(),
        ensures
            final(self).wf(),
            ({
                let ok = !old(self)@.has_user_role_id(id) && !old(self)@.holds_role(user_id, role_id)
                    && old(self)@.has_user(user_id) && old(self)@.has_role(role_id);
                let e = UserRole { id, user_id, role_id, created_at: now };
                &&& ok ==> r == Ok::<UserRole, ServiceError>(e) && final(self)@
                    == old(self)@.with_user_role(e)
                &&& !ok ==> final(self)@ == old(self)@ && (r matches Err(err) && err is DatabaseError)
            }),
    {
        if self.has_user_role_id(id) || self.find_user_role(user_id, role_id).is_some()
            || !self.has_user(user_id) || !self.has_role(role_id) {
            return Err(constraint_violation());
        }
        let e = UserRole { id, user_id, role_id, created_at: now };
        let ghost pre = self@;
        self.user_roles.push(e);
        proof {
            assert(self@ =~= pre.with_user_role(e));
            lemma_with_user_role_wf(pre, e);
        }
        Ok(e)
    }

    /// Adds the edge `role_id -> permission_id`; fails as the store's
    /// constraints would on a taken id, a repeated pair or a missing endpoint.
    pub fn insert_role_permission(
        &mut self,
        id: u128,
        role_id: u128,
        permission_id: u128,
        now: i64,
    ) -> (r: Result<RolePermission, ServiceError>)
        requires
            old(self).wf(),
        ensures
            final(self).wf(),
            ({
                let ok = !old(self)@.has_role_permission_id(id) && !old(self)@.carries(
                    role_id,
                    permission_id,
                ) && old(self)@.has_role(role_id) && old(self)@.has_permission(permission_id);
                let e = RolePermission { id, role_id, permission_id, created_at: now };
                &&& ok ==> r == Ok::<RolePermission, ServiceError>(e) && final(self)@
                    == old(self)@.with_role_permission(e)
                &&& !ok ==> final(self)@ == old(self)@ && (r matches Err(err) && err is DatabaseError)
            }),
    {
        if self.has_role_permission_id(id) || self.find_role_permission(
            role_id,
            permission_id,
        ).is_some() || !self.has_role(role_id) || !self.has_permission(permission_id) {
            return Err(constraint_violation());
        }
        let e = RolePermission { id, role_id, permission_id, created_at: now };
        let ghost pre = self@;
        self.role_permissions.push(e);
        proof {
            assert(self@ =~= pre.with_role_permission(e));
            lemma_with_role_permission_wf(pre, e);
        }
        Ok(e)
    }
}

} // verus!
