use ocean::controller::topic::{self, NewTopic};
use ocean::controller::user::{self, AuthReq, ChangePasswordReq, CreateReq, UpdateReq};
use ocean::controller::ApiError;
use ocean::model::Store;
use ocean::token::{decimal_bytes, make_token};

fn one_user() -> Store {
    let mut s = Store::new();
    assert_eq!(s.add_group("admin".to_string()), Ok(1));
    assert_eq!(user::create(&mut s, CreateReq { name: Some("ann".to_string()), code: "admin".to_string() }, 3), Ok(2));
    s
}

#[test]
fn token_is_sha1_of_id_and_password() {
    assert_eq!(make_token(1, "secret"), "bc2f114099d16656d37e45fd9e8744cb9386d462");
    assert_eq!(make_token(2, "pw"), "a0d33497b5d41fdd89f0aa050949d8c14baa2d7d");
}

#[test]
fn decimal_writes_sign_and_digits() {
    assert_eq!(decimal_bytes(0), b"0".to_vec());
    assert_eq!(decimal_bytes(-120), b"-120".to_vec());
    assert_eq!(decimal_bytes(i32::MIN), b"-2147483648".to_vec());
    assert_eq!(decimal_bytes(907), b"907".to_vec());
}

#[test]
fn auth_with_current_password_returns_token() {
    let mut s = one_user();
    let t = user::change_password(&mut s, &ChangePasswordReq { id: 2, password: "pw".to_string() }).unwrap();
    assert_eq!(t, "a0d33497b5d41fdd89f0aa050949d8c14baa2d7d");
    let a = user::auth(&s, &AuthReq { id: 2, password: "pw".to_string() }).unwrap();
    assert_eq!(a.token, "a0d33497b5d41fdd89f0aa050949d8c14baa2d7d");
    assert_eq!(a.code, "admin");
    assert_eq!(a.name, Some("ann".to_string()));
}

#[test]
fn auth_with_wrong_password_fails() {
    let mut s = one_user();
    user::change_password(&mut s, &ChangePasswordReq { id: 2, password: "pw".to_string() }).unwrap();
    let r = user::auth(&s, &AuthReq { id: 2, password: "other".to_string() });
    assert!(matches!(r, Err(ApiError::WrongUserPassword)));
    let r = user::auth(&s, &AuthReq { id: 7, password: "pw".to_string() });
    assert!(matches!(r, Err(ApiError::WrongUserPassword)));
}

#[test]
fn create_with_unknown_group_fails() {
    let mut s = one_user();
    let r = user::create(&mut s, CreateReq { name: None, code: "nobody".to_string() }, 3);
    assert_eq!(r, Err(ApiError::UnknownGroup));
    assert_eq!(s.users.len(), 1);
}

#[test]
fn get_one_finds_user_by_token() {
    let mut s = one_user();
    let t = user::change_password(&mut s, &ChangePasswordReq { id: 2, password: "pw".to_string() }).unwrap();
    let i = user::get_one(&s, &t).unwrap();
    assert_eq!(i.id, 2);
    assert_eq!(i.name, Some("ann".to_string()));
    assert_eq!(i.code, "admin");
    assert_eq!(i.create_ts, 3);
    assert!(matches!(user::get_one(&s, "nope"), Err(ApiError::NotFound)));
}

#[test]
fn update_changes_name_and_group() {
    let mut s = one_user();
    assert_eq!(s.add_group("guest".to_string()), Ok(3));
    let r = user::update(&mut s, UpdateReq { id: 2, name: "bob".to_string(), code: "guest".to_string() }, 8);
    assert_eq!(r, Ok(()));
    assert_eq!(s.users[0].name, Some("bob".to_string()));
    assert_eq!(s.users[0].group_id, 3);
    assert_eq!(s.users[0].update_ts, 8);
    let r = user::update(&mut s, UpdateReq { id: 2, name: "x".to_string(), code: "none".to_string() }, 9);
    assert_eq!(r, Err(ApiError::UnknownGroup));
}

#[test]
fn topics_create_read_delete() {
    let mut s = one_user();
    let a = topic::create(&mut s, NewTopic { title: "a".to_string(), description: "d".to_string(), user_id: 2 }, 4).unwrap();
    let b = topic::create(&mut s, NewTopic { title: "b".to_string(), description: "d".to_string(), user_id: 2 }, 4).unwrap();
    let one = topic::get_one(&s, a);
    assert_eq!(one.len(), 1);
    assert_eq!(one[0].title, "a");
    assert!(topic::get_one(&s, 99).is_empty());
    let all: Vec<i32> = topic::get_all(&s).iter().map(|t| t.id).collect();
    assert_eq!(all, vec![b, a]);
    topic::delete(&mut s, &vec![b]).unwrap();
    let all: Vec<i32> = topic::get_all(&s).iter().map(|t| t.id).collect();
    assert_eq!(all, vec![a]);
    let r = topic::create(&mut s, NewTopic { title: "c".to_string(), description: "d".to_string(), user_id: 9 }, 4);
    assert_eq!(r, Err(ApiError::MissingReference));
}

#[test]
fn token_is_forty_lowercase_hex_digits() {
    let t = make_token(-5, "päss");
    assert_eq!(t.len(), 40);
    assert!(t.chars().all(|c| c.is_ascii_digit() || ('a'..='f').contains(&c)));
}

#[test]
fn fresh_store_starts_ids_at_one() {
    let s = Store::new();
    assert_eq!(s.next_id, 1);
}
