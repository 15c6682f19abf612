use rbac_auth::errors::ServiceError;
use rbac_auth::jwt::{generate_token, verify_token, TokenError, TOKEN_LIFETIME};

const NOW: i64 = 1_700_000_000;
const ID: u128 = 0x67e5_5044_10b1_426f_9247_bb68_0e5f_e0c8;

#[test]
fn token_round_trip() {
    let token = generate_token(ID, "s3cret", NOW).unwrap();
    assert_eq!(verify_token(&token, "s3cret", NOW), Ok(ID));
    assert_eq!(verify_token(&token, "s3cret", NOW + TOKEN_LIFETIME), Ok(ID));
}

#[test]
fn expired_token_is_refused_as_expired() {
    let token = generate_token(ID, "s3cret", NOW - 2 * TOKEN_LIFETIME).unwrap();
    assert_eq!(verify_token(&token, "s3cret", NOW), Err(TokenError::Expired));
    let just_after = generate_token(ID, "s3cret", NOW).unwrap();
    assert_eq!(verify_token(&just_after, "s3cret", NOW + TOKEN_LIFETIME + 1), Err(TokenError::Expired));
}

#[test]
fn other_secret_is_a_bad_signature() {
    let token = generate_token(ID, "s3cret", NOW).unwrap();
    assert_eq!(verify_token(&token, "another", NOW), Err(TokenError::BadSignature));
}

#[test]
fn garbage_is_malformed() {
    assert_eq!(verify_token("not a token", "s3cret", NOW), Err(TokenError::Malformed));
    assert_eq!(verify_token("", "s3cret", NOW), Err(TokenError::Malformed));
}

#[test]
fn token_claims_name_the_user_and_the_day() {
    let token = generate_token(ID, "s3cret", NOW).unwrap();
    let mut validation = jsonwebtoken::Validation::new(jsonwebtoken::Algorithm::HS256);
    validation.validate_exp = false;
    let data = jsonwebtoken::decode::<serde_json::Value>(
        &token,
        &jsonwebtoken::DecodingKey::from_secret(b"s3cret"),
        &validation,
    )
    .unwrap();
    assert_eq!(data.claims["sub"], "67e55044-10b1-426f-9247-bb680e5fe0c8");
    assert_eq!(data.claims["iat"], NOW);
    assert_eq!(data.claims["exp"], NOW + 86400);
}

fn signed(sub: &str, with_iat: bool) -> String {
    let mut claims = serde_json::Map::new();
    claims.insert("sub".to_string(), serde_json::Value::from(sub));
    claims.insert("exp".to_string(), serde_json::Value::from(NOW + 100));
    if with_iat {
        claims.insert("iat".to_string(), serde_json::Value::from(NOW));
    }
    jsonwebtoken::encode(
        &jsonwebtoken::Header::default(),
        &serde_json::Value::Object(claims),
        &jsonwebtoken::EncodingKey::from_secret(b"s3cret"),
    )
    .unwrap()
}

#[test]
fn subject_that_is_not_a_uuid_is_malformed() {
    assert_eq!(verify_token(&signed("nobody", true), "s3cret", NOW), Err(TokenError::Malformed));
    assert_eq!(
        verify_token(&signed("67e55044-10b1-426f-9247-bb680e5fe0c8", true), "s3cret", NOW),
        Ok(ID)
    );
}

#[test]
fn missing_claim_is_malformed() {
    assert_eq!(
        verify_token(&signed("67e55044-10b1-426f-9247-bb680e5fe0c8", false), "s3cret", NOW),
        Err(TokenError::Malformed)
    );
}

#[test]
fn expiry_out_of_range_is_refused() {
    let r = generate_token(ID, "s3cret", i64::MAX - 10);
    assert!(matches!(r, Err(ServiceError::JwtError(_))));
    assert_eq!(r.unwrap_err().status_code(), 500);
}

#[test]
fn unexpired_token_is_accepted_before_its_issue_time() {
    let token = generate_token(ID, "s3cret", NOW).unwrap();
    assert_eq!(verify_token(&token, "s3cret", NOW - 1000), Ok(ID));
    assert_eq!(verify_token(&signed("67e55044-10b1-426f-9247-bb680e5fe0c8", true), "s3cret", NOW + 100), Ok(ID));
    assert_eq!(
        verify_token(&signed("67e55044-10b1-426f-9247-bb680e5fe0c8", true), "s3cret", NOW + 101),
        Err(TokenError::Expired)
    );
}
