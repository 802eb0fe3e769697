use std::sync::Arc;
use chat_backend::auth::{
    access_claim, admit_sign_in, admit_sign_up, auth_from_claim, bearer_token, check_password, refresh_claim,
    validate_sign_up, Auth, AuthHandler, AuthReadServiceImpl, Claim, Config, SignInRequest, SignUpRequest,
    ACCESS_TOKEN_LIFETIME_SECS, REFRESH_TOKEN_LIFETIME_SECS,
};
use chat_backend::common::Error;
use chat_backend::user::User;

fn sign_up(email: &str, username: &str, password: &str) -> SignUpRequest {
    SignUpRequest {
        email: email.to_string(),
        username: username.to_string(),
        name: "Ada".to_string(),
        password: password.to_string(),
    }
}

fn stored_user(password_hash: String) -> User {
    User {
        id: 3,
        username: "ada".to_string(),
        email: "ada@example.com".to_string(),
        password: password_hash,
        name: "Ada".to_string(),
        photo_url: None,
        deleted_at: None,
        created_at: 1,
        updated_at: 1,
    }
}

#[test]
fn sign_up_shape_rules() {
    assert!(validate_sign_up(&sign_up("ada@example.com", "ada", "secret1")).is_ok());
    assert!(matches!(validate_sign_up(&sign_up("not-an-email", "ada", "secret1")), Err(Error::BadRequest(_))));
    assert!(matches!(validate_sign_up(&sign_up("", "ada", "secret1")), Err(Error::BadRequest(_))));
    assert!(matches!(validate_sign_up(&sign_up("ada@example.com", "", "secret1")), Err(Error::BadRequest(_))));
    assert!(matches!(validate_sign_up(&sign_up("ada@example.com", "elevenchars", "secret1")), Err(Error::BadRequest(_))));
    assert!(matches!(validate_sign_up(&sign_up("ada@example.com", "ada", "short")), Err(Error::BadRequest(_))));
    assert!(matches!(validate_sign_up(&sign_up("ada@example.com", "ada", "seventeen_chars__")), Err(Error::BadRequest(_))));
}

#[test]
fn sign_up_conflicts_and_success() {
    match admit_sign_up(sign_up("ada@example.com", "ada", "secret1"), true, true) {
        Err(Error::Conflict(m)) => assert_eq!(m, "Email already exists"),
        other => panic!("unexpected {:?}", other.map(|u| u.username)),
    }
    match admit_sign_up(sign_up("ada@example.com", "ada", "secret1"), false, true) {
        Err(Error::Conflict(m)) => assert_eq!(m, "Username already exists"),
        other => panic!("unexpected {:?}", other.map(|u| u.username)),
    }
    assert!(matches!(admit_sign_up(sign_up("bad", "ada", "secret1"), true, true), Err(Error::BadRequest(_))));
    let user = admit_sign_up(sign_up("ada@example.com", "ada", "secret1"), false, false).unwrap();
    assert_eq!(user.username, "ada");
    assert_eq!(user.email, "ada@example.com");
    assert_eq!(user.name, "Ada");
    assert!(user.photo_url.is_none());
    assert_ne!(user.password, "secret1");
    assert!(bcrypt::verify("secret1", &user.password).unwrap());
}

#[test]
fn passwords_are_checked_against_hashes() {
    let hash = bcrypt::hash("secret1", 4).unwrap();
    assert!(check_password("secret1", &hash).is_ok());
    match check_password("secret2", &hash) {
        Err(Error::BadRequest(m)) => assert_eq!(m, "Password does not match"),
        other => panic!("unexpected {:?}", other),
    }
    assert!(matches!(check_password("secret1", "not a hash"), Err(Error::InternalServerError(_))));
}

#[test]
fn sign_in_needs_a_user_and_a_matching_password() {
    let req = SignInRequest { username: "ada".to_string(), password: "secret1".to_string() };
    match admit_sign_in(None, &req) {
        Err(Error::NotFound(m)) => assert_eq!(m, "User not found"),
        other => panic!("unexpected {:?}", other.map(|u| u.id)),
    }
    let user = stored_user(bcrypt::hash("secret1", 4).unwrap());
    assert_eq!(admit_sign_in(Some(user.clone()), &req).unwrap().id, 3);
    let wrong = SignInRequest { username: "ada".to_string(), password: "nope".to_string() };
    assert!(matches!(admit_sign_in(Some(user), &wrong), Err(Error::BadRequest(_))));
}

#[test]
fn token_claims_and_lifetimes() {
    let access = access_claim(42, "ada", 1_000);
    assert_eq!(access.sub, "42");
    assert_eq!(access.username, "ada");
    assert_eq!(access.iat, 1_000);
    assert_eq!(access.exp, 1_600);
    assert_eq!(ACCESS_TOKEN_LIFETIME_SECS, 600);
    let refresh = refresh_claim(-5, "bob", 0);
    assert_eq!(refresh.sub, "-5");
    assert_eq!(refresh.exp, 604_800);
    assert_eq!(REFRESH_TOKEN_LIFETIME_SECS, 7 * 24 * 3600);
}

#[test]
fn bearer_header_is_cut_after_seven_characters() {
    assert_eq!(bearer_token("Bearer abc.def").unwrap(), "abc.def");
    assert_eq!(bearer_token("Bearer ").unwrap(), "");
    match bearer_token("Bearer") {
        Err(Error::UnAuthorized(m)) => assert_eq!(m, "Invalid authorization bearer token"),
        other => panic!("unexpected {:?}", other),
    }
}

#[test]
fn caller_comes_from_claim_subject() {
    let claim = Claim { sub: "42".to_string(), exp: 0, iat: 0, username: "ada".to_string() };
    assert_eq!(auth_from_claim(&claim).unwrap(), Auth { user_id: 42 });
    let bad = Claim { sub: "forty-two".to_string(), exp: 0, iat: 0, username: "ada".to_string() };
    assert!(matches!(auth_from_claim(&bad), Err(Error::UnAuthorized(_))));
}

#[test]
fn services_hold_their_settings() {
    let config = Arc::new(Config {
        database_url: "postgres://localhost/chat".to_string(),
        port: 8080,
        max_connections: 5,
        min_connections: 1,
        acquire_timeout_secs: 3,
        idle_timeout_secs: 60,
        access_token_key_secret: "access".to_string(),
        refresh_token_key_secret: "refresh".to_string(),
    });
    let service = AuthReadServiceImpl::new(Arc::clone(&config));
    assert_eq!(service.access_secret(), "access");
    let handler = AuthHandler::new(Arc::new(7u8));
    assert_eq!(*handler.auth_write_service, 7);
}

#[test]
fn subject_parsing_agrees_with_std() {
    let cases = [
        "0", "42", "+5", "-0", "-17", "007", "", "-", "+", "+-1", "--1", "12a", " 1", "1 ", "١", "１",
        "9223372036854775807", "9223372036854775808", "-9223372036854775808", "-9223372036854775809",
        "99999999999999999999999", "-99999999999999999999999",
    ];
    for case in cases {
        assert_eq!(chat_backend::keys::parse_i64(case), case.parse::<i64>().ok(), "on {:?}", case);
    }
}
