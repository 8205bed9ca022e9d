use rust_server::error::ApiError;
use rust_server::jwt::{
    accept_token, bearer_token, claims_at, claims_with, extract_token_from_ws, generate_claims,
    jwt_secret,
    validate_claims, validate_claims_at, Claims, JWT_EXP_HOURS,
};
use rust_server::user::{UserAuthInfo, UserRole};

fn claims(email: &str, exp: u64) -> Claims {
    Claims { id: 7, email: email.to_string(), exp, public_id: 3, role: UserRole::User }
}

fn info() -> UserAuthInfo {
    UserAuthInfo { id: 0xabc, public_id: 12, email: "e@x".to_string(), role: UserRole::Admin }
}

fn unix_now() -> u64 {
    std::time::SystemTime::now().duration_since(std::time::UNIX_EPOCH).unwrap().as_secs()
}

#[test]
fn claims_that_hold_are_accepted() {
    assert_eq!(validate_claims_at(&claims("e@x", 1001), 1000), Ok(200));
    assert_eq!(validate_claims_at(&claims("e@x", u64::MAX), 0), Ok(200));
}

#[test]
fn token_that_expires_now_is_expired() {
    assert_eq!(
        validate_claims_at(&claims("e@x", 1000), 1000),
        Err(ApiError::MultipleAuthorizationErrors(vec!["Expired token".to_string()]))
    );
    assert_eq!(
        validate_claims_at(&claims("e@x", 999), 1000),
        Err(ApiError::MultipleAuthorizationErrors(vec!["Expired token".to_string()]))
    );
}

#[test]
fn empty_address_is_reported() {
    assert_eq!(
        validate_claims_at(&claims("", 2000), 1000),
        Err(ApiError::MultipleAuthorizationErrors(vec!["Invalid E-mail".to_string()]))
    );
}

#[test]
fn everything_that_is_wrong_is_listed_in_order() {
    assert_eq!(
        validate_claims_at(&claims("", 0), 1000),
        Err(ApiError::MultipleAuthorizationErrors(vec![
            "Invalid E-mail".to_string(),
            "Invalid expiration date".to_string(),
            "Expired token".to_string(),
        ]))
    );
    assert_eq!(
        validate_claims_at(&claims("e@x", 0), 0),
        Err(ApiError::MultipleAuthorizationErrors(vec![
            "Invalid expiration date".to_string(),
            "Expired token".to_string(),
        ]))
    );
}

#[test]
fn claims_are_examined_at_the_present_time() {
    let now = unix_now();
    assert_eq!(validate_claims(&claims("e@x", now + 3600)), Ok(200));
    assert_eq!(
        validate_claims(&claims("e@x", now - 3600)),
        Err(ApiError::MultipleAuthorizationErrors(vec!["Expired token".to_string()]))
    );
}

#[test]
fn token_is_good_for_seven_days() {
    assert_eq!(JWT_EXP_HOURS, 168);
    let c = claims_at(info(), 1_700_000_000);
    assert_eq!(c.exp, 1_700_000_000 + 7 * 24 * 3600);
    assert_eq!(c.exp, 1_700_604_800);
    assert_eq!(c.id, 0xabc);
    assert_eq!(c.public_id, 12);
    assert_eq!(c.email, "e@x");
    assert_eq!(c.role, UserRole::Admin);
    assert_eq!(claims_at(info(), 0).exp, 604_800);
}

#[test]
fn token_issued_now_expires_in_seven_days() {
    let before = unix_now();
    let c = generate_claims(info()).unwrap();
    let after = unix_now();
    assert!(before + 604_800 <= c.exp && c.exp <= after + 604_800);
    assert_eq!(c.email, "e@x");
    assert_eq!(validate_claims(&c), Ok(200));
}

#[test]
fn bearer_token_is_taken_from_the_header() {
    assert_eq!(bearer_token(Some("Bearer abc.def.ghi")), Ok("abc.def.ghi".to_string()));
    assert_eq!(bearer_token(Some("Bearer   abc  ")), Ok("abc".to_string()));
    assert_eq!(bearer_token(Some("Bearer Bearer abc")), Ok("Bearer abc".to_string()));
    assert_eq!(bearer_token(Some("Bearer ")), Ok(String::new()));
}

#[test]
fn header_without_bearer_is_refused() {
    assert_eq!(bearer_token(None), Err(ApiError::InvalidAuthorizationToken));
    assert_eq!(bearer_token(Some("abc")), Err(ApiError::InvalidAuthorizationToken));
    assert_eq!(bearer_token(Some("bearer abc")), Err(ApiError::InvalidAuthorizationToken));
    assert_eq!(bearer_token(Some("Bearer")), Err(ApiError::InvalidAuthorizationToken));
    assert_eq!(bearer_token(Some(" Bearer abc")), Err(ApiError::InvalidAuthorizationToken));
    assert_eq!(bearer_token(Some("")), Err(ApiError::InvalidAuthorizationToken));
}

#[test]
fn handshake_token_is_the_second_field() {
    assert_eq!(extract_token_from_ws(Some("notebook, tok.en")), Some("tok.en".to_string()));
    assert_eq!(extract_token_from_ws(Some("notebook,tok")), Some("tok".to_string()));
    assert_eq!(extract_token_from_ws(Some("a, b , c")), Some("b".to_string()));
    assert_eq!(extract_token_from_ws(Some("a,")), Some(String::new()));
    assert_eq!(extract_token_from_ws(Some(",x")), Some("x".to_string()));
}

#[test]
fn handshake_without_second_field_has_no_token() {
    assert_eq!(extract_token_from_ws(Some("notebook")), None);
    assert_eq!(extract_token_from_ws(Some("")), None);
    assert_eq!(extract_token_from_ws(None), None);
}

#[test]
fn decoded_token_is_examined() {
    let ok = accept_token("t".to_string(), Some(claims("e@x", 2000)), 1000);
    assert_eq!(ok, Ok(("t".to_string(), claims("e@x", 2000))));
    let undecoded = accept_token("t".to_string(), None, 1000);
    assert_eq!(undecoded, Err(ApiError::InvalidAuthorizationToken));
    let expired = accept_token("t".to_string(), Some(claims("e@x", 10)), 1000);
    assert_eq!(expired, Err(ApiError::MultipleAuthorizationErrors(vec!["Expired token".to_string()])));
}

#[test]
fn missing_secret_is_a_connection_failure() {
    assert_eq!(jwt_secret(Ok("s3cret".to_string())), Ok("s3cret".to_string()));
    assert_eq!(
        jwt_secret(Err("environment variable not found".to_string())),
        Err(ApiError::DatabaseConnection("environment variable not found".to_string()))
    );
}

#[test]
fn no_token_is_issued_where_the_clock_cannot_tell_its_end() {
    let last = 8_210_266_876_799i64;
    assert_eq!(claims_with(info(), 1_700_000_000).unwrap().exp, 1_700_604_800);
    assert_eq!(claims_with(info(), 0).unwrap().exp, 604_800);
    assert_eq!(claims_with(info(), last - 604_800).unwrap().exp, last as u64);
    let refused = Err(ApiError::CreateToken("Invalid timestamp".to_string()));
    assert_eq!(claims_with(info(), last - 604_799), refused);
    assert_eq!(claims_with(info(), i64::MAX), refused);
    assert_eq!(claims_with(info(), -1), refused);
    let c = claims_with(info(), 5).unwrap();
    assert_eq!((c.id, c.public_id, c.email.as_str(), c.role), (0xabc, 12, "e@x", UserRole::Admin));
}
