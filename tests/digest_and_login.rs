use minikern::auth::{authenticate, check_new_password, login_step, AuthFailure, LoginProgress, PasswordEntryError};
use minikern::digest::hash_password;
use minikern::user::{check_username_chars, find_user, CurrentUser, User, ValidationError};

fn user(name: &str, password: &str, is_admin: bool) -> User {
    User { username: name.to_string(), password_hash: hash_password(password), is_admin }
}

#[test]
fn hash_of_empty_password() {
    assert_eq!(
        hash_password(""),
        "e3b0c44298fc1c149afbf4c8996fb92427ae41e4649b934ca495991b7852b855"
    );
}

#[test]
fn hash_of_abc() {
    let h = hash_password("abc");
    assert_eq!(h, "ba7816bf8f01cfea414140de5dae2223b00361a396177a9cb410ff61f20015ad");
    assert_eq!(h.len(), 64);
    assert_ne!(h, "abc");
}

#[test]
fn hash_is_deterministic() {
    assert_eq!(hash_password("hunter2"), hash_password("hunter2"));
    assert_ne!(hash_password("hunter2"), hash_password("hunter3"));
}

#[test]
fn username_rules() {
    assert_eq!(check_username_chars(""), Err(ValidationError::EmptyUsername));
    assert_eq!(check_username_chars("a b"), Err(ValidationError::InvalidCharacter));
    assert_eq!(check_username_chars("a\u{3000}b"), Err(ValidationError::InvalidCharacter));
    for bad in ["a<b", "a>b", "a&b", "a\"b", "a'b", "tab\there"] {
        assert_eq!(check_username_chars(bad), Err(ValidationError::InvalidCharacter));
    }
    assert_eq!(check_username_chars("alice_01"), Ok(()));
}

#[test]
fn find_user_first_match() {
    let users = vec![user("root", "x", true), user("alice", "y", false)];
    assert_eq!(find_user(&users, "alice"), Some(1));
    assert_eq!(find_user(&users, "root"), Some(0));
    assert_eq!(find_user(&users, "Alice"), None);
}

#[test]
fn authenticate_checks_digest() {
    let users = vec![user("root", "hunter2", true), user("bob", "pw", false)];
    let ok = authenticate("root", "hunter2", &users).unwrap();
    assert_eq!(ok.username, "root");
    assert!(ok.is_admin);
    let bob = authenticate("bob", "pw", &users).unwrap();
    assert!(!bob.is_admin);
    assert_eq!(authenticate("root", "wrong", &users).unwrap_err(), AuthFailure::InvalidCredentials);
    assert_eq!(authenticate("nobody", "hunter2", &users).unwrap_err(), AuthFailure::InvalidCredentials);
}

#[test]
fn login_gives_up_after_three_failures() {
    let users = vec![user("root", "hunter2", true)];
    let mut failures = 0u32;
    let mut outcome = None;
    for _ in 0..3 {
        match login_step(failures, authenticate("root", "wrong", &users)) {
            LoginProgress::TryAgain(n) => failures = n,
            LoginProgress::Failed(e) => {
                outcome = Some(e);
                break;
            }
            LoginProgress::LoggedIn(_) => panic!("wrong password accepted"),
        }
    }
    assert_eq!(failures, 2);
    assert_eq!(outcome, Some(AuthFailure::TooManyAttempts));
}

#[test]
fn login_succeeds_after_a_failure() {
    let users = vec![user("root", "hunter2", true)];
    let first = login_step(0, authenticate("root", "nope", &users));
    assert!(matches!(first, LoginProgress::TryAgain(1)));
    match login_step(1, authenticate("root", "hunter2", &users)) {
        LoginProgress::LoggedIn(CurrentUser { username, is_admin }) => {
            assert_eq!(username, "root");
            assert!(is_admin);
        }
        _ => panic!("login failed"),
    }
}

#[test]
fn new_password_entry() {
    assert_eq!(check_new_password("a", "b"), Err(PasswordEntryError::Mismatch));
    assert_eq!(check_new_password("", ""), Err(PasswordEntryError::Empty));
    assert_eq!(check_new_password("secret", "secret"), Ok(()));
}
