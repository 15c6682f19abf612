use rbac_auth::errors::ServiceError;
use rbac_auth::models::{NewPermission, NewRole, NewUser};
use rbac_auth::password::{hash_password, verify_password};
use rbac_auth::store::Store;

fn new_user(email: &str) -> NewUser {
    NewUser { email: email.to_string(), password_hash: "h".to_string(), full_name: None }
}

#[test]
fn store_constraints_refuse_duplicates() {
    let mut db = Store::new();
    assert_eq!(db.user_count(), 0);
    let u = db.insert_user(1, new_user("a@x.com"), 10).unwrap();
    assert_eq!(u.id, 1);
    assert!(matches!(db.insert_user(1, new_user("b@x.com"), 10), Err(ServiceError::DatabaseError(_))));
    assert!(matches!(db.insert_user(2, new_user("a@x.com"), 10), Err(ServiceError::DatabaseError(_))));
    assert_eq!(db.user_count(), 1);
    db.insert_role(3, NewRole { name: "r".to_string(), description: None }, 10).unwrap();
    assert!(matches!(
        db.insert_role(4, NewRole { name: "r".to_string(), description: None }, 10),
        Err(ServiceError::DatabaseError(_))
    ));
    let p = NewPermission { name: "p".to_string(), description: None, resource: "x".to_string(), action: "y".to_string() };
    db.insert_permission(5, p, 10).unwrap();
    assert!(db.insert_user_role(6, 1, 3, 10).is_ok());
    assert!(db.insert_user_role(7, 1, 3, 10).is_err());
    assert!(db.insert_user_role(8, 2, 3, 10).is_err());
    assert!(db.insert_role_permission(6, 3, 5, 10).is_ok());
    assert!(db.insert_role_permission(9, 3, 99, 10).is_err());
}

#[test]
fn password_digest_checks() {
    let digest = hash_password("pw1").unwrap();
    assert_ne!(digest, "pw1");
    assert!(verify_password("pw1", &digest).unwrap());
    assert!(!verify_password("pw2", &digest).unwrap());
}

#[test]
fn unparsable_digest_is_a_hash_error() {
    let r = verify_password("pw", "not a digest");
    assert!(matches!(r, Err(ServiceError::PasswordHashError(_))));
    assert_eq!(r.unwrap_err().status_code(), 500);
}

#[test]
fn error_texts() {
    assert_eq!(ServiceError::InvalidCredentials.message(), "无效的凭证");
    assert_eq!(ServiceError::DatabaseError("boom".to_string()).message(), "数据库错误: boom");
    assert_eq!(ServiceError::BadRequest("x".to_string()).message(), "错误的请求: x");
    assert_eq!(ServiceError::InsufficientPermissions.message(), "权限不足");
    assert_eq!(ServiceError::JwtError("k".to_string()).message(), "JWT错误: k");
    assert_eq!(ServiceError::MissingToken.status_code(), 401);
    assert_eq!(ServiceError::UserAlreadyExists.status_code(), 409);
    assert_eq!(ServiceError::InternalServerError.status_code(), 500);
    assert_eq!(ServiceError::BadRequest("x".to_string()).status_code(), 400);
}

#[test]
fn every_error_has_its_status() {
    let cases: Vec<(ServiceError, u16)> = vec![
        (ServiceError::InternalServerError, 500),
        (ServiceError::BadRequest("b".to_string()), 400),
        (ServiceError::Unauthorized("u".to_string()), 401),
        (ServiceError::NotFound("n".to_string()), 404),
        (ServiceError::Conflict("c".to_string()), 409),
        (ServiceError::InvalidCredentials, 401),
        (ServiceError::UserAlreadyExists, 409),
        (ServiceError::RoleAlreadyExists, 409),
        (ServiceError::PermissionAlreadyExists, 409),
        (ServiceError::UserRoleAlreadyExists, 409),
        (ServiceError::RolePermissionAlreadyExists, 409),
        (ServiceError::UserNotFound, 404),
        (ServiceError::RoleNotFound, 404),
        (ServiceError::PermissionNotFound, 404),
        (ServiceError::DatabaseError("d".to_string()), 500),
        (ServiceError::JwtError("j".to_string()), 500),
        (ServiceError::PasswordHashError("p".to_string()), 500),
        (ServiceError::SupabaseError("s".to_string()), 500),
        (ServiceError::MissingToken, 401),
        (ServiceError::InvalidTokenFormat, 401),
        (ServiceError::InvalidToken, 401),
        (ServiceError::InsufficientPermissions, 403),
    ];
    for (e, status) in cases {
        assert_eq!(e.status_code(), status, "{:?}", e);
    }
}

#[test]
fn internal_detail_is_kept_from_callers() {
    let e = ServiceError::DatabaseError("duplicate key on users_email".to_string());
    assert_eq!(e.public_message(), "内部服务器错误");
    let token_failure = ServiceError::JwtError("InvalidKeyFormat".to_string());
    assert_eq!(token_failure.public_message(), "内部服务器错误");
    assert_eq!(ServiceError::InvalidToken.public_message(), "无效的令牌");
    assert_eq!(ServiceError::Conflict("name".to_string()).public_message(), "冲突: name");
}
