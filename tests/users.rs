use auth_server::error::ServiceError;
use auth_server::password::{hash_password, verify_password};
use auth_server::service::{LoginArgs, UserService};
use auth_server::text::is_blank;
use auth_server::token::{TokenKey, TokenStore};

fn service_with_users(n: u64) -> UserService {
    let mut service = UserService::new();
    for i in 1..=n {
        let key = format!("k{}", i);
        let blob = format!(
            "{{\"name\":\"user{}\",\"email\":\"u{}@x.com\",\"password\":\"pw{}\",\"avatar_url\":\"av{}\",\"pin\":\"1\"}}",
            i, i, i, i
        );
        service.tokens.put(TokenKey::sign_up(&key), blob, i64::MAX);
        assert!(matches!(service.create("pk", &key, "1"), Ok(true)));
    }
    service
}

#[test]
fn get_one_and_get_list() {
    let service = service_with_users(3);
    let dto = service.get_one(2).unwrap();
    assert_eq!(dto.id, 2);
    assert_eq!(dto.name, "user2");
    assert_eq!(dto.email, "u2@x.com");
    assert_eq!(dto.avatar_url, "av2");
    assert_eq!(dto.created_at, dto.updated_at);
    assert!(matches!(service.get_one(7), Err(ServiceError::NotFound(7))));
    let list = service.get_list().unwrap();
    let names: Vec<&str> = list.iter().map(|u| u.name.as_str()).collect();
    assert_eq!(names, vec!["user1", "user2", "user3"]);
    assert!(UserService::new().get_list().unwrap().is_empty());
}

#[test]
fn delete_user() {
    let mut service = service_with_users(2);
    assert!(matches!(service.delete(1), Ok(true)));
    assert!(matches!(service.get_one(1), Err(ServiceError::NotFound(1))));
    assert!(matches!(service.delete(1), Err(ServiceError::NotFound(1))));
    assert_eq!(service.get_list().unwrap().len(), 1);
}

#[test]
fn update_fields() {
    let mut service = service_with_users(1);
    let r = service.update(1, &Some("renamed".to_string()), &None, &None);
    assert!(matches!(r, Ok(true)));
    let dto = service.get_one(1).unwrap();
    assert_eq!(dto.name, "renamed");
    assert_eq!(dto.avatar_url, "av1");

    let r = service.update(1, &None, &Some("newpw".to_string()), &Some("av9".to_string()));
    assert!(matches!(r, Ok(true)));
    assert_eq!(service.get_one(1).unwrap().avatar_url, "av9");
    let login = service.login(LoginArgs { email: "u1@x.com".to_string(), password: "newpw".to_string() });
    assert!(login.is_ok());
}

#[test]
fn update_rejects_bad_arguments() {
    let mut service = service_with_users(1);
    assert!(matches!(service.update(1, &None, &None, &None), Err(ServiceError::InvalidArgument)));
    let r = service.update(1, &Some("  ".to_string()), &Some("p".to_string()), &Some("a".to_string()));
    assert!(matches!(r, Err(ServiceError::InvalidArgument)));
    let r = service.update(1, &Some("n".to_string()), &Some("\t\n".to_string()), &Some("a".to_string()));
    assert!(matches!(r, Err(ServiceError::InvalidArgument)));
    // a blank field is only refused when all three are given
    let r = service.update(1, &Some(" ".to_string()), &None, &None);
    assert!(matches!(r, Ok(true)));
    let r = service.update(9, &Some("n".to_string()), &None, &None);
    assert!(matches!(r, Err(ServiceError::NotFound(9))));
}

#[test]
fn blank_texts() {
    assert!(is_blank(""));
    assert!(is_blank(" \t\n\u{3000}"));
    assert!(!is_blank(" a "));
}

#[test]
fn password_hash_round_trip() {
    let h = hash_password("secret");
    assert_eq!(h.len(), 32);
    assert_ne!(h, b"secret".to_vec());
    assert_eq!(h, hash_password("secret"));
    assert_ne!(h, hash_password("secreT"));
    assert!(verify_password("secret", &h));
    assert!(!verify_password("", &h));
    let empty = hash_password("");
    assert_eq!(empty.len(), 32);
    assert!(verify_password("", &empty));
    assert!(!verify_password("secret", &empty));
}

#[test]
fn delete_token_twice() {
    let mut store = TokenStore::new();
    store.put(TokenKey::sign_up("t"), "blob".to_string(), i64::MAX);
    assert!(matches!(store.delete(&TokenKey::sign_up("t")), Ok(true)));
    let second = store.delete(&TokenKey::sign_up("t"));
    let never = store.delete(&TokenKey::sign_up("never"));
    assert!(matches!(second, Err(ServiceError::TokenNotFound(TokenKey::SignUp(ref k))) if k == "t"));
    assert!(matches!(never, Err(ServiceError::TokenNotFound(TokenKey::SignUp(ref k))) if k == "never"));
}

#[test]
fn token_store_put_replaces() {
    let mut store = TokenStore::new();
    store.put(TokenKey::password_reset(3), "one".to_string(), i64::MAX);
    store.put(TokenKey::password_reset(3), "two".to_string(), i64::MAX);
    store.put(TokenKey::sign_up("3"), "three".to_string(), i64::MAX);
    assert_eq!(store.find(&TokenKey::password_reset(3), 0).unwrap(), "two");
    assert_eq!(store.find(&TokenKey::sign_up("3"), 0).unwrap(), "three");
    assert!(matches!(store.delete(&TokenKey::password_reset(3)), Ok(true)));
    assert!(store.find(&TokenKey::password_reset(3), 0).is_err());
    assert_eq!(store.find(&TokenKey::sign_up("3"), 0).unwrap(), "three");
}

#[test]
fn status_codes() {
    assert_eq!(ServiceError::NotFound(1).status_code(), 404);
    assert_eq!(ServiceError::TokenNotFound(TokenKey::sign_up("k")).status_code(), 404);
    assert_eq!(ServiceError::Unauthorized.status_code(), 401);
    assert_eq!(ServiceError::UserNotFound("e".to_string()).status_code(), 500);
    assert_eq!(ServiceError::InvalidFormat.status_code(), 500);
    assert_eq!(ServiceError::StoreFailure.status_code(), 500);
}
