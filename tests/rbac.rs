use rbac_auth::errors::ServiceError;
use rbac_auth::models::{CreatePermissionRequest, CreateRoleRequest, NewUser, Permission, Role};
use rbac_auth::rbac::{
    assign_permission_to_role, assign_role_to_user, check_user_permission, create_permission,
    create_role, get_role_permissions, get_user_roles,
};
use rbac_auth::store::Store;

const NOW: i64 = 1_700_000_000;

fn add_user(db: &mut Store, id: u128, email: &str) {
    let new_user = NewUser {
        email: email.to_string(),
        password_hash: "digest".to_string(),
        full_name: None,
    };
    db.insert_user(id, new_user, NOW).unwrap();
}

fn role(db: &mut Store, name: &str) -> Role {
    create_role(db, CreateRoleRequest { name: name.to_string(), description: None }, NOW).unwrap()
}

fn permission(db: &mut Store, name: &str, resource: &str, action: &str) -> Permission {
    let data = CreatePermissionRequest {
        name: name.to_string(),
        description: Some("d".to_string()),
        resource: resource.to_string(),
        action: action.to_string(),
    };
    create_permission(db, data, NOW).unwrap()
}

#[test]
fn admin_can_view_dashboard_but_not_edit() {
    let mut db = Store::new();
    add_user(&mut db, 7, "u@x.com");
    let admin = role(&mut db, "admin");
    let view = permission(&mut db, "dashboard.view", "dashboard", "view");
    assign_permission_to_role(&mut db, admin.id, view.id, NOW).unwrap();
    assign_role_to_user(&mut db, 7, admin.id, NOW).unwrap();
    assert!(check_user_permission(&db, 7, "dashboard", "view"));
    assert!(!check_user_permission(&db, 7, "dashboard", "edit"));
}

#[test]
fn created_rows_carry_request_fields() {
    let mut db = Store::new();
    let r = create_role(
        &mut db,
        CreateRoleRequest { name: "editor".to_string(), description: Some("edits".to_string()) },
        NOW,
    )
    .unwrap();
    assert_eq!(r.name, "editor");
    assert_eq!(r.description, Some("edits".to_string()));
    assert_eq!(r.created_at, NOW);
    assert_eq!(r.updated_at, NOW);
    let p = permission(&mut db, "doc.edit", "doc", "edit");
    assert_eq!(p.resource, "doc");
    assert_eq!(p.action, "edit");
    assert_eq!(p.name, "doc.edit");
    assert_ne!(p.id, r.id);
}

#[test]
fn duplicate_role_name_is_a_conflict() {
    let mut db = Store::new();
    role(&mut db, "admin");
    let again = create_role(
        &mut db,
        CreateRoleRequest { name: "admin".to_string(), description: None },
        NOW,
    );
    assert!(matches!(again, Err(ServiceError::RoleAlreadyExists)));
    assert_eq!(again.unwrap_err().status_code(), 409);
}

#[test]
fn duplicate_permission_name_is_a_conflict() {
    let mut db = Store::new();
    permission(&mut db, "p", "a", "b");
    let data = CreatePermissionRequest {
        name: "p".to_string(),
        description: None,
        resource: "c".to_string(),
        action: "d".to_string(),
    };
    assert!(matches!(create_permission(&mut db, data, NOW), Err(ServiceError::PermissionAlreadyExists)));
}

#[test]
fn assigning_a_role_twice_returns_the_same_edge() {
    let mut db = Store::new();
    add_user(&mut db, 1, "a@x.com");
    let r = role(&mut db, "admin");
    let first = assign_role_to_user(&mut db, 1, r.id, NOW).unwrap();
    let second = assign_role_to_user(&mut db, 1, r.id, NOW + 50).unwrap();
    assert_eq!(first, second);
    assert_eq!(first.id, second.id);
    assert_eq!(second.created_at, NOW);
    assert_eq!(get_user_roles(&db, 1).len(), 1);
}

#[test]
fn assigning_a_permission_twice_returns_the_same_edge() {
    let mut db = Store::new();
    let r = role(&mut db, "admin");
    let p = permission(&mut db, "p", "a", "b");
    let first = assign_permission_to_role(&mut db, r.id, p.id, NOW).unwrap();
    let second = assign_permission_to_role(&mut db, r.id, p.id, NOW + 1).unwrap();
    assert_eq!(first, second);
    assert_eq!(get_role_permissions(&db, r.id).len(), 1);
}

#[test]
fn assign_role_reports_missing_endpoints() {
    let mut db = Store::new();
    add_user(&mut db, 1, "a@x.com");
    let r = role(&mut db, "admin");
    let no_user = assign_role_to_user(&mut db, 2, r.id, NOW);
    assert!(matches!(no_user, Err(ServiceError::UserNotFound)));
    assert_eq!(no_user.unwrap_err().status_code(), 404);
    assert!(matches!(assign_role_to_user(&mut db, 1, r.id + 1, NOW), Err(ServiceError::RoleNotFound)));
    assert!(get_user_roles(&db, 1).is_empty());
}

#[test]
fn assign_permission_reports_missing_endpoints() {
    let mut db = Store::new();
    let r = role(&mut db, "admin");
    let p = permission(&mut db, "p", "a", "b");
    assert!(matches!(
        assign_permission_to_role(&mut db, r.id + 1, p.id, NOW),
        Err(ServiceError::RoleNotFound)
    ));
    assert!(matches!(
        assign_permission_to_role(&mut db, r.id, p.id + 1, NOW),
        Err(ServiceError::PermissionNotFound)
    ));
    assert!(get_role_permissions(&db, r.id).is_empty());
}

#[test]
fn user_without_roles_is_denied() {
    let mut db = Store::new();
    add_user(&mut db, 1, "a@x.com");
    let r = role(&mut db, "admin");
    let p = permission(&mut db, "p", "dashboard", "view");
    assign_permission_to_role(&mut db, r.id, p.id, NOW).unwrap();
    assert!(!check_user_permission(&db, 1, "dashboard", "view"));
}

#[test]
fn unknown_permission_is_denied() {
    let mut db = Store::new();
    add_user(&mut db, 1, "a@x.com");
    let r = role(&mut db, "admin");
    assign_role_to_user(&mut db, 1, r.id, NOW).unwrap();
    assert!(!check_user_permission(&db, 1, "reports", "export"));
}

#[test]
fn role_without_the_permission_is_denied() {
    let mut db = Store::new();
    add_user(&mut db, 1, "a@x.com");
    let viewer = role(&mut db, "viewer");
    let admin = role(&mut db, "admin");
    let p = permission(&mut db, "p", "dashboard", "edit");
    assign_permission_to_role(&mut db, admin.id, p.id, NOW).unwrap();
    assign_role_to_user(&mut db, 1, viewer.id, NOW).unwrap();
    assert!(!check_user_permission(&db, 1, "dashboard", "edit"));
    assign_role_to_user(&mut db, 1, admin.id, NOW).unwrap();
    assert!(check_user_permission(&db, 1, "dashboard", "edit"));
}

#[test]
fn first_permission_with_the_key_decides() {
    let mut db = Store::new();
    add_user(&mut db, 1, "a@x.com");
    let r = role(&mut db, "admin");
    permission(&mut db, "first", "dashboard", "view");
    let second = permission(&mut db, "second", "dashboard", "view");
    assign_permission_to_role(&mut db, r.id, second.id, NOW).unwrap();
    assign_role_to_user(&mut db, 1, r.id, NOW).unwrap();
    assert!(!check_user_permission(&db, 1, "dashboard", "view"));
}

#[test]
fn edges_are_listed_in_insertion_order() {
    let mut db = Store::new();
    add_user(&mut db, 1, "a@x.com");
    add_user(&mut db, 2, "b@x.com");
    let a = role(&mut db, "a");
    let b = role(&mut db, "b");
    let e1 = assign_role_to_user(&mut db, 1, b.id, NOW).unwrap();
    assign_role_to_user(&mut db, 2, a.id, NOW).unwrap();
    let e2 = assign_role_to_user(&mut db, 1, a.id, NOW).unwrap();
    assert_eq!(get_user_roles(&db, 1), vec![e1, e2]);
}

#[test]
fn new_rows_get_random_version_four_ids() {
    let mut db = Store::new();
    let a = role(&mut db, "a");
    let b = role(&mut db, "b");
    assert_ne!(a.id, b.id);
    for id in [a.id, b.id] {
        assert_eq!((id >> 76) & 0xF, 4);
        assert_eq!((id >> 62) & 0x3, 2);
    }
}
