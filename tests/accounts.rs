use rbac_auth::accounts::{complete_registration, get_user_by_id, login_user, register_user};
use rbac_auth::config::Config;
use rbac_auth::errors::ServiceError;
use rbac_auth::jwt::verify_token;
use rbac_auth::models::{LoginRequest, RegisterRequest, User};
use rbac_auth::store::Store;
use rbac_auth::supabase::SupabaseSignUpResponse;

const NOW: i64 = 1_700_000_000;

fn config() -> Config {
    Config {
        database_url: String::new(),
        supabase_url: "https://example.supabase.co".to_string(),
        supabase_key: "key".to_string(),
        jwt_secret: "test-secret".to_string(),
    }
}

fn register(db: &mut Store, email: &str, password: &str) -> User {
    let data = RegisterRequest {
        email: email.to_string(),
        password: password.to_string(),
        full_name: Some("A".to_string()),
    };
    register_user(db, data, NOW).unwrap()
}

fn login(db: &mut Store, email: &str, password: &str, now: i64) -> Result<rbac_auth::models::LoginResponse, ServiceError> {
    let data = LoginRequest { email: email.to_string(), password: password.to_string() };
    login_user(db, data, &config(), now)
}

#[test]
fn register_then_login_right_and_wrong_password() {
    let mut db = Store::new();
    let user = register(&mut db, "a@x.com", "pw1");
    let ok = login(&mut db, "a@x.com", "pw1", NOW + 10).unwrap();
    assert_eq!(ok.user_id, user.id);
    assert_eq!(ok.email, "a@x.com");
    let wrong = login(&mut db, "a@x.com", "wrong", NOW + 20);
    assert!(matches!(wrong, Err(ServiceError::InvalidCredentials)));
}

#[test]
fn login_token_verifies_to_the_registered_id() {
    let mut db = Store::new();
    let user = register(&mut db, "b@x.com", "secret pw");
    let response = complete_registration(
        &user,
        Ok(SupabaseSignUpResponse { id: "ext".to_string(), email: "b@x.com".to_string() }),
        &config(),
        NOW,
    )
    .unwrap();
    assert_eq!(response.user_id, user.id);
    let ok = login(&mut db, "b@x.com", "secret pw", NOW + 5).unwrap();
    assert_eq!(verify_token(&ok.token, "test-secret", NOW + 6), Ok(user.id));
    assert_eq!(verify_token(&response.token, "test-secret", NOW + 6), Ok(response.user_id));
}

#[test]
fn registered_user_row_fields() {
    let mut db = Store::new();
    let user = register(&mut db, "c@x.com", "pw");
    assert_eq!(user.email, "c@x.com");
    assert_eq!(user.full_name, Some("A".to_string()));
    assert_eq!(user.created_at, NOW);
    assert_eq!(user.updated_at, NOW);
    assert_eq!(user.last_login, None);
    assert!(user.is_active);
    assert_ne!(user.password_hash, "pw");
    assert!(user.password_hash.starts_with("$argon2"));
    assert_eq!(db.user_count(), 1);
}

#[test]
fn login_records_the_time() {
    let mut db = Store::new();
    let user = register(&mut db, "d@x.com", "pw");
    login(&mut db, "d@x.com", "pw", NOW + 100).unwrap();
    let stored = get_user_by_id(&db, user.id).unwrap();
    assert_eq!(stored.last_login, Some(NOW + 100));
    assert_eq!(stored.updated_at, NOW + 100);
    assert_eq!(stored.created_at, NOW);
}

#[test]
fn unknown_email_fails_like_a_wrong_password() {
    let mut db = Store::new();
    let unknown = login(&mut db, "nobody@x.com", "pw", NOW);
    assert!(matches!(unknown, Err(ServiceError::InvalidCredentials)));
    assert_eq!(unknown.unwrap_err().status_code(), 401);
    assert_eq!(db.user_count(), 0);
}

#[test]
fn email_is_registered_once() {
    let mut db = Store::new();
    register(&mut db, "e@x.com", "pw");
    let data = RegisterRequest { email: "e@x.com".to_string(), password: "other".to_string(), full_name: None };
    let again = register_user(&mut db, data, NOW);
    assert!(matches!(again, Err(ServiceError::UserAlreadyExists)));
    assert_eq!(db.user_count(), 1);
}

#[test]
fn emails_match_case_sensitively() {
    let mut db = Store::new();
    register(&mut db, "f@x.com", "pw");
    let upper = login(&mut db, "F@x.com", "pw", NOW);
    assert!(matches!(upper, Err(ServiceError::InvalidCredentials)));
}

#[test]
fn provider_failure_fails_the_registration() {
    let mut db = Store::new();
    let user = register(&mut db, "g@x.com", "pw");
    let failed = complete_registration(
        &user,
        Err(ServiceError::SupabaseError("down".to_string())),
        &config(),
        NOW,
    );
    match failed {
        Err(ServiceError::SupabaseError(m)) => assert_eq!(m, "down"),
        other => panic!("unexpected {:?}", other),
    }
}

#[test]
fn unknown_user_id_is_not_found() {
    let db = Store::new();
    assert!(matches!(get_user_by_id(&db, 42), Err(ServiceError::UserNotFound)));
}
