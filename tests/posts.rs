use auth_server::error::ServiceError;
use auth_server::post::{create, delete, get_list, update, CreateArgs, PostStore, UpdateArgs};

fn args(author: &str, content: &str) -> CreateArgs {
    CreateArgs { author: author.to_string(), content: content.to_string() }
}

#[test]
fn create_and_list_newest_first() {
    let mut store = PostStore::new();
    assert!(get_list(&store).unwrap().is_empty());
    assert!(matches!(create(&mut store, args("park", "first")), Ok(true)));
    assert!(matches!(create(&mut store, args("kim", "second")), Ok(true)));
    let list = get_list(&store).unwrap();
    assert_eq!(list.len(), 2);
    assert_eq!(list[0].content, "second");
    assert_eq!(list[0].id, 2);
    assert_eq!(list[1].content, "first");
    assert_eq!(list[1].author, "park");
    assert_eq!(list[1].id, 1);
    assert!(list[0].created_at >= list[1].created_at);
}

#[test]
fn create_refuses_blank_fields() {
    let mut store = PostStore::new();
    assert!(matches!(create(&mut store, args(" ", "x")), Err(ServiceError::InvalidArgument)));
    assert!(matches!(create(&mut store, args("a", "")), Err(ServiceError::InvalidArgument)));
    assert!(get_list(&store).unwrap().is_empty());
}

#[test]
fn delete_post() {
    let mut store = PostStore::new();
    assert!(matches!(create(&mut store, args("park", "first")), Ok(true)));
    assert!(matches!(delete(&mut store, 1), Ok(true)));
    assert!(matches!(delete(&mut store, 1), Err(ServiceError::NotFound(1))));
    assert!(get_list(&store).unwrap().is_empty());
}

#[test]
fn update_post() {
    let mut store = PostStore::new();
    assert!(matches!(create(&mut store, args("park", "first")), Ok(true)));
    let none = UpdateArgs { author: None, content: None };
    assert!(matches!(update(&mut store, 1, none), Err(ServiceError::InvalidArgument)));
    let blank = UpdateArgs { author: Some("a".to_string()), content: Some("  ".to_string()) };
    assert!(matches!(update(&mut store, 1, blank), Err(ServiceError::InvalidArgument)));
    let missing = UpdateArgs { author: None, content: Some("c".to_string()) };
    assert!(matches!(update(&mut store, 4, missing), Err(ServiceError::NotFound(4))));
    let change = UpdateArgs { author: None, content: Some("edited".to_string()) };
    assert!(matches!(update(&mut store, 1, change), Ok(true)));
    let list = get_list(&store).unwrap();
    assert_eq!(list[0].content, "edited");
    assert_eq!(list[0].author, "park");
}
