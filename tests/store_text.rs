use minikern::codec::{decode_users, encode_users, StoreError};
use minikern::digest::hash_password;
use minikern::user::User;

fn user(name: &str, password: &str, is_admin: bool) -> User {
    User { username: name.to_string(), password_hash: hash_password(password), is_admin }
}

fn same(a: &[User], b: &[User]) -> bool {
    a.len() == b.len()
        && a.iter().zip(b).all(|(x, y)| {
            x.username == y.username && x.password_hash == y.password_hash && x.is_admin == y.is_admin
        })
}

#[test]
fn encode_exact_text() {
    let users = vec![User { username: "root".to_string(), password_hash: "ab12".to_string(), is_admin: true }];
    assert_eq!(
        encode_users(&users),
        "<users><user><username>root</username><password>ab12</password><isadmin>yes</isadmin></user></users>"
    );
    assert_eq!(encode_users(&Vec::new()), "<users></users>");
}

#[test]
fn encode_escapes_digest_text() {
    let users = vec![User { username: "a".to_string(), password_hash: "x<y".to_string(), is_admin: false }];
    assert_eq!(
        encode_users(&users),
        "<users><user><username>a</username><password>x&lt;y</password><isadmin>no</isadmin></user></users>"
    );
}

#[test]
fn round_trip_keeps_order_and_fields() {
    let users = vec![user("root", "hunter2", true), user("alice", "a", true), user("bob", "b", false)];
    let back = decode_users(&encode_users(&users)).unwrap();
    assert!(same(&users, &back));
    assert_eq!(back[0].username, "root");
    assert_eq!(back[2].username, "bob");
    assert!(!back[2].is_admin);
}

#[test]
fn round_trip_empty() {
    assert!(decode_users(&encode_users(&Vec::new())).unwrap().is_empty());
}

#[test]
fn decode_with_layout_and_declaration() {
    let text = "<?xml version=\"1.0\"?>\n<users>\n  <user>\n    <username>bob</username>\n    <password> abc </password>\n    <isadmin>YeS</isadmin>\n  </user>\n  <!-- note -->\n</users>\n";
    let users = decode_users(text).unwrap();
    assert_eq!(users.len(), 1);
    assert_eq!(users[0].username, "bob");
    assert_eq!(users[0].password_hash, "abc");
    assert!(users[0].is_admin);
}

#[test]
fn decode_flag_other_than_yes_is_false() {
    let text = "<users><user><username>bob</username><password>abc</password><isadmin>true</isadmin></user></users>";
    assert!(!decode_users(text).unwrap()[0].is_admin);
}

#[test]
fn decode_drops_incomplete_records() {
    let text = "<users><user><username>bob</username><password>abc</password></user><user><username>eve</username><isadmin>yes</isadmin></user><user><password>x</password><isadmin>no</isadmin></user><user><username>amy</username><password>d</password><isadmin>no</isadmin></user></users>";
    let users = decode_users(text).unwrap();
    assert_eq!(users.len(), 1);
    assert_eq!(users[0].username, "amy");
}

#[test]
fn decode_unescapes_text() {
    let text = "<users><user><username>bob</username><password>a&amp;b</password><isadmin>yes</isadmin></user></users>";
    assert_eq!(decode_users(text).unwrap()[0].password_hash, "a&b");
}

#[test]
fn decode_refuses_broken_text() {
    assert_eq!(decode_users("<users><user>").unwrap_err(), StoreError::StoreCorrupt);
    assert_eq!(decode_users("<users></user>").unwrap_err(), StoreError::StoreCorrupt);
    assert_eq!(decode_users("<users").unwrap_err(), StoreError::StoreCorrupt);
    assert_eq!(
        decode_users("<users><user><username>bob</username><password>a&zz;</password></user></users>").unwrap_err(),
        StoreError::StoreCorrupt
    );
}

#[test]
fn decode_empty_text_is_empty_store() {
    assert!(decode_users("").unwrap().is_empty());
}

#[test]
fn round_trip_names_that_look_like_markup() {
    let users = vec![
        user("root", "r", true),
        user("password", "p", false),
        user("users", "u", true),
        user("isadmin", "i", false),
        user("a/", "s", false),
        user("!x", "x", true),
        user("?q", "q", false),
        user("/z", "z", false),
    ];
    let back = decode_users(&encode_users(&users)).unwrap();
    assert!(same(&users, &back));
}
