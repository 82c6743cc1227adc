use auth_server::error::ServiceError;
use auth_server::service::{LoginArgs, UserService};
use auth_server::token::{SignUpToken, TokenKey};

fn sign_up_blob(name: &str, email: &str, password: &str, avatar_url: &str, pin: &str) -> String {
    format!(
        "{{\"name\":\"{}\",\"email\":\"{}\",\"password\":\"{}\",\"avatar_url\":\"{}\",\"pin\":\"{}\"}}",
        name, email, password, avatar_url, pin
    )
}

fn service_with_park_token() -> UserService {
    let mut service = UserService::new();
    service.tokens.put(
        TokenKey::sign_up("tok123"),
        sign_up_blob("park", "park@email.com", "x", "a", "0000"),
        i64::MAX,
    );
    service
}

#[test]
fn create_with_right_pin_then_again() {
    let mut service = service_with_park_token();
    let r = service.create("pubkey1", "tok123", "0000");
    assert!(matches!(r, Ok(true)));
    let i = service.users.index_of_email("park@email.com").expect("park is stored");
    let user = service.users.row(i);
    assert_eq!(user.name, "park");
    assert_eq!(user.avatar_url, "a");
    assert_eq!(service.keys.len(), 1);
    assert_eq!(service.keys.binding(0).user_id, user.id);
    assert_eq!(service.keys.binding(0).public_key, "pubkey1");
    assert!(service.tokens.find(&TokenKey::sign_up("tok123"), 0).is_err());

    let again = service.create("pubkey1", "tok123", "0000");
    match again {
        Err(ServiceError::TokenNotFound(TokenKey::SignUp(k))) => assert_eq!(k, "tok123"),
        other => panic!("unexpected {:?}", other),
    }
    assert_eq!(service.users.len(), 1);
    assert_eq!(service.keys.len(), 1);
}

#[test]
fn create_stores_the_password_hashed() {
    let mut service = service_with_park_token();
    assert!(matches!(service.create("pubkey1", "tok123", "0000"), Ok(true)));
    let i = service.users.index_of_email("park@email.com").unwrap();
    let user = service.users.row(i);
    assert_ne!(user.password, b"x".to_vec());
    assert_eq!(user.password.len(), 32);
    assert_eq!(user.password, auth_server::password::hash_password("x"));
}

#[test]
fn create_with_wrong_pin_keeps_token() {
    let mut service = service_with_park_token();
    let r = service.create("pubkey1", "tok123", "9999");
    assert!(matches!(r, Err(ServiceError::Unauthorized)));
    assert!(service.tokens.find(&TokenKey::sign_up("tok123"), 0).is_ok());
    assert_eq!(service.users.len(), 0);
    assert_eq!(service.keys.len(), 0);
    // the token can still be used with the right pin
    assert!(matches!(service.create("pubkey1", "tok123", "0000"), Ok(true)));
}

#[test]
fn create_with_unknown_token() {
    let mut service = UserService::new();
    let r = service.create("pubkey1", "missing", "0000");
    assert!(matches!(r, Err(ServiceError::TokenNotFound(TokenKey::SignUp(ref k))) if k == "missing"));
}

#[test]
fn create_with_undecodable_token() {
    let mut service = UserService::new();
    service.tokens.put(TokenKey::sign_up("bad"), "not json".to_string(), i64::MAX);
    let r = service.create("pubkey1", "bad", "0000");
    assert!(matches!(r, Err(ServiceError::InvalidFormat)));
    assert!(service.tokens.find(&TokenKey::sign_up("bad"), 0).is_ok());

    service.tokens.put(TokenKey::sign_up("partial"), "{\"name\":\"park\",\"pin\":\"0000\"}".to_string(), i64::MAX);
    let r = service.create("pubkey1", "partial", "0000");
    assert!(matches!(r, Err(ServiceError::InvalidFormat)));
}

#[test]
fn create_with_taken_email_consumes_token() {
    let mut service = service_with_park_token();
    assert!(matches!(service.create("pubkey1", "tok123", "0000"), Ok(true)));
    service.tokens.put(
        TokenKey::sign_up("tok456"),
        sign_up_blob("other", "park@email.com", "y", "b", "1111"),
        i64::MAX,
    );
    let r = service.create("pubkey2", "tok456", "1111");
    assert!(matches!(r, Err(ServiceError::QueryExecutionFailure)));
    assert!(service.tokens.find(&TokenKey::sign_up("tok456"), 0).is_err());
    assert_eq!(service.users.len(), 1);
    assert_eq!(service.keys.len(), 1);
}

#[test]
fn decode_sign_up_token() {
    let t = SignUpToken::decode(&sign_up_blob("park", "park@email.com", "x", "a", "0000")).unwrap();
    assert_eq!(t.name, "park");
    assert_eq!(t.email, "park@email.com");
    assert_eq!(t.password, "x");
    assert_eq!(t.avatar_url, "a");
    assert_eq!(t.pin, "0000");
    assert!(SignUpToken::decode("[1,2]").is_none());
    assert!(SignUpToken::decode("{\"name\":1,\"email\":\"e\",\"password\":\"p\",\"avatar_url\":\"a\",\"pin\":\"0\"}").is_none());
}

#[test]
fn login_after_sign_up() {
    let mut service = service_with_park_token();
    assert!(matches!(service.create("pubkey1", "tok123", "0000"), Ok(true)));
    let session = service
        .login(LoginArgs { email: "park@email.com".to_string(), password: "x".to_string() })
        .unwrap();
    assert_eq!(session.user_email, "park@email.com");
    assert_eq!(session.user_name, "park");
    assert_eq!(session.user_id, 1);

    let wrong = service.login(LoginArgs { email: "park@email.com".to_string(), password: "".to_string() });
    assert!(matches!(wrong, Err(ServiceError::Unauthorized)));
    let unknown = service.login(LoginArgs { email: "nobody@email.com".to_string(), password: "x".to_string() });
    assert!(matches!(unknown, Err(ServiceError::UserNotFound(ref e)) if e == "nobody@email.com"));
}

#[test]
fn complete_sign_up_with_decoded_token() {
    let mut service = service_with_park_token();
    let token = SignUpToken {
        name: "park".to_string(),
        email: "park@email.com".to_string(),
        password: "x".to_string(),
        avatar_url: "a".to_string(),
        pin: "0000".to_string(),
    };
    let r = service.complete_sign_up("pubkey1", "tok123", "0000", Some(token));
    assert!(matches!(r, Ok(true)));
    assert_eq!(service.users.len(), 1);
    let r = service.complete_sign_up("pubkey1", "tok123", "0000", None);
    assert!(matches!(r, Err(ServiceError::InvalidFormat)));
}

#[test]
fn create_at_judges_expiry() {
    let mut service = UserService::new();
    service.tokens.put(
        TokenKey::sign_up("tok123"),
        sign_up_blob("park", "park@email.com", "x", "a", "0000"),
        1000,
    );
    let r = service.create_at("pubkey1", "tok123", "0000", 1000);
    assert!(matches!(r, Err(ServiceError::TokenNotFound(TokenKey::SignUp(ref k))) if k == "tok123"));
    assert_eq!(service.users.len(), 0);
    let r = service.create_at("pubkey1", "tok123", "0000", 999);
    assert!(matches!(r, Ok(true)));
    assert_eq!(service.users.len(), 1);
}
