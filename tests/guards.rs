use rbac_auth::errors::ServiceError;
use rbac_auth::jwt::generate_token;
use rbac_auth::middleware::{AuthMiddleware, PermissionCheckMiddleware};
use rbac_auth::models::{CreatePermissionRequest, CreateRoleRequest, NewUser};
use rbac_auth::rbac::{assign_permission_to_role, assign_role_to_user, create_permission, create_role};
use rbac_auth::store::Store;
use rbac_auth::supabase::{bearer_header, signup_url};

const NOW: i64 = 1_700_000_000;

#[test]
fn missing_header_is_missing_token() {
    let guard = AuthMiddleware::new();
    assert!(matches!(guard.authenticate(None, "k", NOW), Err(ServiceError::MissingToken)));
}

#[test]
fn header_without_bearer_prefix_is_rejected() {
    let guard = AuthMiddleware::new();
    let token = generate_token(5, "k", NOW).unwrap();
    for header in [format!("bearer {}", token), format!("Token {}", token), token.clone(), "Bearer".to_string()] {
        let r = guard.authenticate(Some(&header), "k", NOW);
        assert!(matches!(r, Err(ServiceError::InvalidTokenFormat)), "{}", header);
    }
}

#[test]
fn bad_tokens_are_all_invalid_token() {
    let guard = AuthMiddleware::new();
    let token = generate_token(5, "k", NOW).unwrap();
    let header = format!("Bearer {}", token);
    assert!(matches!(guard.authenticate(Some(&header), "other", NOW), Err(ServiceError::InvalidToken)));
    assert!(matches!(guard.authenticate(Some(&header), "k", NOW + 200_000), Err(ServiceError::InvalidToken)));
    assert!(matches!(guard.authenticate(Some("Bearer x.y.z"), "k", NOW), Err(ServiceError::InvalidToken)));
    assert!(matches!(guard.authenticate(Some("Bearer "), "k", NOW), Err(ServiceError::InvalidToken)));
}

#[test]
fn valid_bearer_token_names_the_user() {
    let guard = AuthMiddleware::new();
    let token = generate_token(5, "k", NOW).unwrap();
    let header = format!("Bearer {}", token);
    assert_eq!(guard.authenticate(Some(&header), "k", NOW + 1).unwrap(), 5);
}

#[test]
fn permission_gate_follows_the_graph() {
    let mut db = Store::new();
    db.insert_user(9, NewUser { email: "z@x.com".to_string(), password_hash: "h".to_string(), full_name: None }, NOW)
        .unwrap();
    let admin = create_role(&mut db, CreateRoleRequest { name: "admin".to_string(), description: None }, NOW).unwrap();
    let view = create_permission(
        &mut db,
        CreatePermissionRequest {
            name: "dash".to_string(),
            description: None,
            resource: "dashboard".to_string(),
            action: "view".to_string(),
        },
        NOW,
    )
    .unwrap();
    let guard = PermissionCheckMiddleware::new("dashboard", "view");
    let denied = guard.authorize(&db, Some(9));
    assert!(matches!(denied, Err(ServiceError::InsufficientPermissions)));
    assert_eq!(denied.unwrap_err().status_code(), 403);
    assign_permission_to_role(&mut db, admin.id, view.id, NOW).unwrap();
    assign_role_to_user(&mut db, 9, admin.id, NOW).unwrap();
    assert!(guard.authorize(&db, Some(9)).is_ok());
    assert!(matches!(guard.authorize(&db, None), Err(ServiceError::InsufficientPermissions)));
    let edit = PermissionCheckMiddleware::new("dashboard", "edit");
    assert!(edit.authorize(&db, Some(9)).is_err());
}

#[test]
fn provider_request_parts() {
    assert_eq!(signup_url("https://p.example"), "https://p.example/auth/v1/signup");
    assert_eq!(bearer_header("abc"), "Bearer abc");
}
