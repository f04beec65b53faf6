use minikern::account::{
    add_account, apply_mutation, delete_account, delete_account_with_digest, initial_setup, AccessError, Change,
    ChusrResult, DeleteResult, MutationReport,
};
use minikern::auth::authenticate;
use minikern::digest::hash_password;
use minikern::policy::{request_mutation, DenyReason, Mutation, Outcome};
use minikern::user::{CurrentUser, User, ValidationError};

fn user(name: &str, password: &str, is_admin: bool) -> User {
    User { username: name.to_string(), password_hash: hash_password(password), is_admin }
}

fn actor(name: &str, is_admin: bool) -> CurrentUser {
    CurrentUser { username: name.to_string(), is_admin }
}

fn store_b() -> Vec<User> {
    vec![user("root", "rootpw", true), user("alice", "alicepw", true), user("bob", "bobpw", false)]
}

const ALL: [Mutation; 4] = [Mutation::ChangePassword, Mutation::GrantAdmin, Mutation::RevokeAdmin, Mutation::Delete];

#[test]
fn scenario_initial_setup_and_login() {
    let root = initial_setup("root", "hunter2").unwrap();
    assert!(root.is_admin);
    let users = vec![root];
    assert_eq!(users.len(), 1);
    assert!(authenticate("root", "hunter2", &users).is_ok());
    assert!(authenticate("root", "wrong", &users).is_err());
}

#[test]
fn initial_setup_rejects_bad_names() {
    assert_eq!(initial_setup("", "pw").unwrap_err(), ValidationError::EmptyUsername);
    assert_eq!(initial_setup("ro ot", "pw").unwrap_err(), ValidationError::InvalidCharacter);
}

#[test]
fn add_account_uniqueness_is_case_sensitive() {
    let users = store_b();
    assert_eq!(add_account(&users, "alice", "x", false).unwrap_err(), ValidationError::DuplicateUsername);
    let added = add_account(&users, "Alice", "x", false).unwrap();
    assert_eq!(added.username, "Alice");
    assert_eq!(added.password_hash, hash_password("x"));
    assert!(!added.is_admin);
    assert!(add_account(&users, "carol", "x", true).unwrap().is_admin);
}

#[test]
fn add_account_first_is_forced_admin() {
    let none: Vec<User> = Vec::new();
    assert!(add_account(&none, "first", "pw", false).unwrap().is_admin);
}

#[test]
fn root_admin_status_is_immutable() {
    let users = store_b();
    for a in [actor("root", true), actor("alice", true), actor("bob", false)] {
        for m in [Mutation::GrantAdmin, Mutation::RevokeAdmin] {
            assert!(matches!(request_mutation(&a, &users, "root", m), Outcome::Denied(_)));
        }
    }
    assert_eq!(
        request_mutation(&actor("alice", true), &users, "root", Mutation::RevokeAdmin),
        Outcome::Denied(DenyReason::RootAdminImmutable)
    );
}

#[test]
fn only_root_changes_root_password() {
    let users = store_b();
    assert_eq!(request_mutation(&actor("root", true), &users, "root", Mutation::ChangePassword), Outcome::Allowed);
    assert_eq!(
        request_mutation(&actor("alice", true), &users, "root", Mutation::ChangePassword),
        Outcome::Denied(DenyReason::RootPasswordOwnerOnly)
    );
}

#[test]
fn last_admin_is_kept() {
    // root demoted by hand: alice is the only admin left
    let users = vec![user("root", "r", false), user("alice", "a", true), user("bob", "b", false)];
    let alice = actor("alice", true);
    assert_eq!(
        request_mutation(&alice, &users, "alice", Mutation::RevokeAdmin),
        Outcome::Denied(DenyReason::LastAdmin)
    );
    assert_eq!(DenyReason::LastAdmin.message(), "cannot remove the last admin");
    let users = store_b();
    assert_eq!(request_mutation(&alice, &users, "alice", Mutation::RevokeAdmin), Outcome::RequiresConfirmation);
}

#[test]
fn single_account_is_never_deleted() {
    let users = vec![user("root", "r", true)];
    for t in ["root", "nobody"] {
        assert_eq!(
            request_mutation(&actor("root", true), &users, t, Mutation::Delete),
            Outcome::Denied(DenyReason::SingleAccount)
        );
        assert_eq!(
            request_mutation(&actor("x", false), &users, t, Mutation::Delete),
            Outcome::Denied(DenyReason::AdminRequired)
        );
    }
    let mut users = users;
    assert_eq!(
        delete_account(&actor("root", true), &mut users, "root", "r").unwrap_err(),
        AccessError::Denied(DenyReason::SingleAccount)
    );
    assert_eq!(users.len(), 1);
}

#[test]
fn non_admin_self_service() {
    let users = store_b();
    let bob = actor("bob", false);
    assert_eq!(request_mutation(&bob, &users, "bob", Mutation::ChangePassword), Outcome::Allowed);
    for t in ["root", "alice", "bob"] {
        for m in ALL {
            if t == "bob" && m == Mutation::ChangePassword {
                continue;
            }
            assert!(matches!(request_mutation(&bob, &users, t, m), Outcome::Denied(_)));
        }
    }
    assert_eq!(
        request_mutation(&bob, &users, "alice", Mutation::ChangePassword),
        Outcome::Denied(DenyReason::AdminRequired)
    );
}

#[test]
fn unknown_target_is_denied() {
    let users = store_b();
    assert_eq!(
        request_mutation(&actor("alice", true), &users, "zed", Mutation::GrantAdmin),
        Outcome::Denied(DenyReason::UnknownUser)
    );
}

#[test]
fn scenario_revoke_with_root_still_admin() {
    let mut users = store_b();
    let alice = actor("alice", true);
    assert_eq!(
        apply_mutation(&alice, &mut users, "root", Change::RevokeAdmin, true).unwrap_err(),
        AccessError::Denied(DenyReason::RootAdminImmutable)
    );
    assert_eq!(
        apply_mutation(&alice, &mut users, "alice", Change::RevokeAdmin, false).unwrap_err(),
        AccessError::Declined
    );
    assert!(users[1].is_admin);
    let report = apply_mutation(&alice, &mut users, "alice", Change::RevokeAdmin, true).unwrap();
    assert_eq!(report, MutationReport { affects_current_session: true });
    assert!(!users[1].is_admin);
    assert!(users[0].is_admin);
    assert_eq!(users.len(), 3);
}

#[test]
fn scenario_two_admins_revoke_self() {
    let mut users = vec![user("root", "r", true), user("alice", "a", true)];
    let alice = actor("alice", true);
    assert_eq!(request_mutation(&alice, &users, "alice", Mutation::RevokeAdmin), Outcome::RequiresConfirmation);
    assert!(apply_mutation(&alice, &mut users, "alice", Change::RevokeAdmin, true).is_ok());
    assert!(!users[1].is_admin);
}

#[test]
fn grant_and_password_changes() {
    let mut users = store_b();
    let alice = actor("alice", true);
    let r = apply_mutation(&alice, &mut users, "bob", Change::GrantAdmin, false).unwrap();
    assert!(!r.affects_current_session);
    assert!(users[2].is_admin);
    let h = hash_password("new");
    apply_mutation(&alice, &mut users, "bob", Change::SetPassword(h.clone()), false).unwrap();
    assert_eq!(users[2].password_hash, h);
    assert_eq!(users[2].username, "bob");
    let bob = actor("bob", true);
    let r = apply_mutation(&bob, &mut users, "bob", Change::SetPassword(hash_password("x")), false).unwrap();
    assert!(r.affects_current_session);
}

#[test]
fn scenario_delete_with_root_password() {
    let mut users = store_b();
    let alice = actor("alice", true);
    assert_eq!(
        delete_account(&alice, &mut users, "bob", "alicepw").unwrap_err(),
        AccessError::Denied(DenyReason::WrongVerificationPassword)
    );
    assert_eq!(users.len(), 3);
    match delete_account(&alice, &mut users, "bob", "rootpw").unwrap() {
        DeleteResult::OtherUserDeleted(n) => assert_eq!(n, "bob"),
        _ => panic!("unexpected result"),
    }
    assert_eq!(users.len(), 2);
    assert_eq!(users[0].username, "root");
    assert_eq!(users[1].username, "alice");
    assert!(users[1].is_admin);
}

#[test]
fn delete_root_and_self() {
    let mut users = store_b();
    let alice = actor("alice", true);
    let root_digest = hash_password("rootpw");
    assert_eq!(
        delete_account_with_digest(&alice, &mut users, "root", &root_digest).unwrap_err(),
        AccessError::Denied(DenyReason::RootUndeletable)
    );
    let r = delete_account_with_digest(&alice, &mut users, "alice", &root_digest).unwrap();
    assert!(matches!(r, DeleteResult::CurrentUserDeleted));
    assert!(r.ends_session());
    assert_eq!(users.len(), 2);
    let bob = actor("bob", false);
    assert_eq!(
        delete_account_with_digest(&bob, &mut users, "root", &root_digest).unwrap_err(),
        AccessError::Denied(DenyReason::AdminRequired)
    );
}

#[test]
fn chusr_results() {
    let alice = actor("alice", true);
    assert!(matches!(ChusrResult::from_changes("x".to_string(), false, false), ChusrResult::NoChange));
    let both = ChusrResult::from_changes("alice".to_string(), true, true);
    assert!(matches!(both, ChusrResult::BothChanged(_)));
    assert!(both.ends_session(&alice));
    let other = ChusrResult::from_changes("bob".to_string(), true, false);
    assert!(matches!(other, ChusrResult::PasswordChanged(_)));
    assert!(!other.ends_session(&alice));
    assert!(matches!(ChusrResult::from_changes("bob".to_string(), false, true), ChusrResult::AdminChanged(_)));
}

#[test]
fn every_denial_has_its_own_message() {
    let all = [
        DenyReason::UnknownUser,
        DenyReason::AdminRequired,
        DenyReason::RootAdminImmutable,
        DenyReason::RootPasswordOwnerOnly,
        DenyReason::LastAdmin,
        DenyReason::RootUndeletable,
        DenyReason::SingleAccount,
        DenyReason::WrongVerificationPassword,
    ];
    for (i, a) in all.iter().enumerate() {
        assert!(!a.message().is_empty());
        for b in &all[i + 1..] {
            assert_ne!(a.message(), b.message());
        }
    }
    assert_eq!(DenyReason::AdminRequired.message(), "admin privileges required");
    assert_eq!(DenyReason::WrongVerificationPassword.message(), "incorrect verification password");
    assert!(!DeleteResult::OtherUserDeleted("bob".to_string()).ends_session());
    assert!(!DeleteResult::NoDelete.ends_session());
}
