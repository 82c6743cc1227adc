use auth_server::error::ServiceError;
use auth_server::service::{LoginArgs, UserService};
use auth_server::token::{PasswordToken, TokenKey};

/// Signs up five users; the fifth, "e@x.com", gets id 5.
fn service_with_five_users() -> UserService {
    let mut service = UserService::new();
    for n in 1..=5 {
        let key = format!("k{}", n);
        let email = if n == 5 { "e@x.com".to_string() } else { format!("u{}@x.com", n) };
        let blob = format!(
            "{{\"name\":\"user{}\",\"email\":\"{}\",\"password\":\"oldPW\",\"avatar_url\":\"a\",\"pin\":\"1234\"}}",
            n, email
        );
        service.tokens.put(TokenKey::sign_up(&key), blob, i64::MAX);
        assert!(matches!(service.create("pk", &key, "1234"), Ok(true)));
    }
    service
}

fn login_ok(service: &UserService, email: &str, password: &str) -> bool {
    service.login(LoginArgs { email: email.to_string(), password: password.to_string() }).is_ok()
}

#[test]
fn reset_password_then_again() {
    let mut service = service_with_five_users();
    let i = service.users.index_of_email("e@x.com").unwrap();
    assert_eq!(service.users.row(i).id, 5);
    service.tokens.put(
        TokenKey::password_reset(5),
        "{\"id\":\"rst1\",\"password\":\"tmpPW\"}".to_string(),
        i64::MAX,
    );
    let r = service.reset_password("e@x.com", "rst1", "tmpPW", "NewPW1");
    assert!(matches!(r, Ok(true)));
    assert!(login_ok(&service, "e@x.com", "NewPW1"));
    assert!(!login_ok(&service, "e@x.com", "oldPW"));
    assert!(service.tokens.find(&TokenKey::password_reset(5), 0).is_err());

    let again = service.reset_password("e@x.com", "rst1", "tmpPW", "NewPW1");
    assert!(matches!(again, Err(ServiceError::TokenNotFound(TokenKey::PasswordReset(5)))));
}

#[test]
fn reset_with_wrong_temporary_password() {
    let mut service = service_with_five_users();
    service.tokens.put(
        TokenKey::password_reset(5),
        "{\"id\":\"rst1\",\"password\":\"tmpPW\"}".to_string(),
        i64::MAX,
    );
    let r = service.reset_password("e@x.com", "rst1", "wrong", "NewPW1");
    assert!(matches!(r, Err(ServiceError::UserNotFound(ref e)) if e == "e@x.com"));
    let r = service.reset_password("e@x.com", "other", "wrong", "NewPW1");
    assert!(matches!(r, Err(ServiceError::UserNotFound(ref e)) if e == "e@x.com"));
    let r = service.reset_password("e@x.com", "other", "tmpPW", "NewPW1");
    assert!(matches!(r, Err(ServiceError::UserNotFound(ref e)) if e == "e@x.com"));
    // nothing changed: the token is still there and the old password works
    assert!(service.tokens.find(&TokenKey::password_reset(5), 0).is_ok());
    assert!(login_ok(&service, "e@x.com", "oldPW"));
    assert!(matches!(service.reset_password("e@x.com", "rst1", "tmpPW", "NewPW1"), Ok(true)));
}

#[test]
fn reset_for_unknown_email() {
    let mut service = service_with_five_users();
    let r = service.reset_password("nobody@x.com", "rst1", "tmpPW", "NewPW1");
    assert!(matches!(r, Err(ServiceError::UserNotFound(ref e)) if e == "nobody@x.com"));
}

#[test]
fn reset_without_token_or_with_bad_token() {
    let mut service = service_with_five_users();
    let r = service.reset_password("u2@x.com", "rst1", "tmpPW", "NewPW1");
    assert!(matches!(r, Err(ServiceError::TokenNotFound(TokenKey::PasswordReset(2)))));
    service.tokens.put(TokenKey::password_reset(2), "{\"id\":\"rst1\"}".to_string(), i64::MAX);
    let r = service.reset_password("u2@x.com", "rst1", "tmpPW", "NewPW1");
    assert!(matches!(r, Err(ServiceError::InvalidFormat)));
}

#[test]
fn complete_reset_with_decoded_token() {
    let mut service = service_with_five_users();
    let token = PasswordToken { id: "rst1".to_string(), password: "tmpPW".to_string() };
    let r = service.complete_reset("e@x.com", 5, "rst1", "tmpPW", "NewPW1", Some(token));
    assert!(matches!(r, Ok(true)));
    assert!(login_ok(&service, "e@x.com", "NewPW1"));
    let token = PasswordToken { id: "rst1".to_string(), password: "tmpPW".to_string() };
    let r = service.complete_reset("e@x.com", 99, "rst1", "tmpPW", "NewPW1", Some(token));
    assert!(matches!(r, Err(ServiceError::NotFound(99))));
}

#[test]
fn decode_password_token() {
    let t = PasswordToken::decode("{\"id\":\"rst1\",\"password\":\"tmpPW\",\"extra\":3}").unwrap();
    assert_eq!(t.id, "rst1");
    assert_eq!(t.password, "tmpPW");
    assert!(PasswordToken::decode("{\"id\":\"rst1\",\"password\":7}").is_none());
}

#[test]
fn reset_password_at_judges_expiry() {
    let mut service = service_with_five_users();
    service.tokens.put(
        TokenKey::password_reset(5),
        "{\"id\":\"rst1\",\"password\":\"tmpPW\"}".to_string(),
        50,
    );
    let r = service.reset_password_at("e@x.com", "rst1", "tmpPW", "NewPW1", 60);
    assert!(matches!(r, Err(ServiceError::TokenNotFound(TokenKey::PasswordReset(5)))));
    assert!(login_ok(&service, "e@x.com", "oldPW"));
    let r = service.reset_password_at("e@x.com", "rst1", "tmpPW", "NewPW1", 49);
    assert!(matches!(r, Ok(true)));
    assert!(login_ok(&service, "e@x.com", "NewPW1"));
}
