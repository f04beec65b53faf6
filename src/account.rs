use crate::digest::{hash_password, password_digest};
use crate::policy::{decide, request_mutation, DenyReason, Mutation, Outcome};
use crate::user::{
    unique_names,
    check_username_chars, find_user, first_named, has_user, recs, store_ok, valid_username, CurrentUser,
    User, ValidationError,
};
use vstd::prelude::*;

verus! {

/// A change to an existing account, with the new digest for a password.
#[derive(Debug, Clone)]
pub enum Change {
    SetPassword(String),
    GrantAdmin,
    RevokeAdmin,
}

impl Change {
    pub open spec fn spec_kind(&self) -> Mutation {
        match self {
            Change::SetPassword(_) => Mutation::ChangePassword,
            Change::GrantAdmin => Mutation::GrantAdmin,
            Change::RevokeAdmin => Mutation::RevokeAdmin,
        }
    }

    /// The kind of mutation that the policy judges for this change.
    pub fn kind(&self) -> (r: Mutation)
        ensures
            r == self.spec_kind(),
    {
        match self {
            Change::SetPassword(_) => Mutation::ChangePassword,
            Change::GrantAdmin => Mutation::GrantAdmin,
            Change::RevokeAdmin => Mutation::RevokeAdmin,
        }
    }
}

/// The record `u` after the change `c`.
pub open spec fn changed(u: User, c: Change) -> User {
    match c {
        Change::SetPassword(h) => User { password_hash: h, ..u },
        Change::GrantAdmin => User { is_admin: true, ..u },
        Change::RevokeAdmin => User { is_admin: false, ..u },
    }
}

/// Why a change was not made.
#[derive(Debug, Clone, Copy, PartialEq, Eq, Structural)]
pub enum AccessError {
    Denied(DenyReason),
    /// The actor did not confirm a change that needed confirmation.
    Declined,
}

/// What an applied change means for the session that made it.
#[derive(Debug, Clone, Copy, PartialEq, Eq, Structural)]
pub struct MutationReport {
    /// The change touched the session's own account, which must log in again.
    pub affects_current_session: bool,
}

/// What a modification of one account changed.
#[derive(Debug, Clone)]
pub enum ChusrResult {
    NoChange,
    PasswordChanged(String),
    AdminChanged(String),
    BothChanged(String),
}

/// What a deletion did.
#[derive(Debug, Clone)]
pub enum DeleteResult {
    NoDelete,
    OtherUserDeleted(String),
    CurrentUserDeleted,
}

impl ChusrResult {
    /// The result for changes made to the account named `name`.
    pub fn from_changes(name: String, password_changed: bool, admin_changed: bool) -> (r: ChusrResult)
        ensures
            !password_changed && !admin_changed ==> r is NoChange,
            password_changed && admin_changed ==> r == ChusrResult::BothChanged(name),
            password_changed && !admin_changed ==> r == ChusrResult::PasswordChanged(name),
            !password_changed && admin_changed ==> r == ChusrResult::AdminChanged(name),
    {
        if password_changed && admin_changed {
            ChusrResult::BothChanged(name)
        } else if password_changed {
            ChusrResult::PasswordChanged(name)
        } else if admin_changed {
            ChusrResult::AdminChanged(name)
        } else {
            ChusrResult::NoChange
        }
    }

    /// Whether the change touched the account of `actor`, whose session
    /// must then end.
    pub fn ends_session(&self, actor: &CurrentUser) -> (r: bool)
        ensures
            r == match self {
                ChusrResult::NoChange => false,
                ChusrResult::PasswordChanged(n) => n@ == actor.username@,
                ChusrResult::AdminChanged(n) => n@ == actor.username@,
                ChusrResult::BothChanged(n) => n@ == actor.username@,
            },
    {
        match self {
            ChusrResult::NoChange => false,
            ChusrResult::PasswordChanged(n) => *n == actor.username,
            ChusrResult::AdminChanged(n) => *n == actor.username,
            ChusrResult::BothChanged(n) => *n == actor.username,
        }
    }
}

/// `r` reports the deletion of the account named `name`, not the session's own.
pub open spec fn reports_other_deleted(r: Result<DeleteResult, AccessError>, name: Seq<char>) -> bool {
    r matches Ok(DeleteResult::OtherUserDeleted(n)) && n@ == name
}

/// `r` reports the deletion of the session's own account.
pub open spec fn reports_own_deleted(r: Result<DeleteResult, AccessError>) -> bool {
    r matches Ok(DeleteResult::CurrentUserDeleted)
}

impl DeleteResult {
    /// Whether the deletion removed the session's own account.
    pub fn ends_session(&self) -> (r: bool)
        ensures
            r == (self is CurrentUserDeleted),
    {
        match self {
            DeleteResult::CurrentUserDeleted => true,
            _ => false,
        }
    }
}

/// The record that a valid new account gets: the first account of a store
/// is always an admin.
pub open spec fn new_record(s: Seq<User>, name: Seq<char>, password: Seq<char>, is_admin: bool) -> (
    Seq<char>,
    Seq<char>,
    bool,
) {
    (name, password_digest(password), is_admin || s.len() == 0)
}

/// Builds the record of a new account, after checking that the name is
/// well formed and not taken (names compare case-sensitively). The caller
/// appends it to the store.
pub fn add_account(users: &Vec<User>, username: &str, password: &str, is_admin: bool) -> (r: Result<
    User,
    ValidationError,
>)
    ensures
        username@.len() == 0 ==> r == Err::<User, ValidationError>(ValidationError::EmptyUsername),
        username@.len() > 0 && !valid_username(username@) ==> r == Err::<User, ValidationError>(
            ValidationError::InvalidCharacter,
        ),
        valid_username(username@) && has_user(recs(users@), username@) ==> r == Err::<User, ValidationError>(
            ValidationError::DuplicateUsername,
        ),
        valid_username(username@) && !has_user(recs(users@), username@) ==> (r matches Ok(u) && (
        u.username@, u.password_hash@, u.is_admin) == new_record(users@, username@, password@, is_admin)),
        r matches Ok(u) ==> ((store_ok(recs(users@)) || users@.len() == 0) ==> store_ok(recs(users@).push(u@))),
{
    match check_username_chars(username) {
        Err(e) => {
            return Err(e);
        },
        Ok(()) => {},
    }
    if find_user(users, username).is_some() {
        return Err(ValidationError::DuplicateUsername);
    }
    let u = User {
        username: username.to_owned(),
        password_hash: hash_password(password),
        is_admin: is_admin || users.len() == 0,
    };
    proof {
        let o = recs(users@);
        let f = o.push(u@);
        if store_ok(o) || o.len() == 0 {
            assert(f[0].is_admin);
            assert(unique_names(f)) by {
                assert forall|a: int, b: int|
                    0 <= a < f.len() && 0 <= b < f.len() && a != b implies (#[trigger] f[a]).username != (
                    #[trigger] f[b]).username by {
                    if a == o.len() {
                        assert(f[b] == o[b]);
                    } else if b == o.len() {
                        assert(f[a] == o[a]);
                    } else {
                        assert(f[a] == o[a] && f[b] == o[b]);
                    }
                }
            }
        }
    }
    Ok(u)
}

/// The first account of an empty store: the root account, always an admin.
pub fn initial_setup(username: &str, password: &str) -> (r: Result<User, ValidationError>)
    ensures
        username@.len() == 0 ==> r == Err::<User, ValidationError>(ValidationError::EmptyUsername),
        username@.len() > 0 && !valid_username(username@) ==> r == Err::<User, ValidationError>(
            ValidationError::InvalidCharacter,
        ),
        valid_username(username@) ==> (r matches Ok(u) && u.username@ == username@ && u.password_hash@
            == password_digest(password@) && u.is_admin),
{
    let none: Vec<User> = Vec::new();
    add_account(&none, username, password, true)
}

/// Applies `change` to the account named `target` if the policy lets
/// `actor` make it; a change that needs confirmation is made only when
/// `confirmed` holds. Other records keep their values and order.
pub fn apply_mutation(actor: &CurrentUser, users: &mut Vec<User>, target: &str, change: Change, confirmed: bool) -> (r:
    Result<MutationReport, AccessError>)
    ensures
        ({
            let o = decide(actor@, recs(old(users)@), target@, change.spec_kind());
            &&& o matches Outcome::Denied(why) ==> r == Err::<MutationReport, AccessError>(AccessError::Denied(why))
                && final(users)@ == old(users)@
            &&& (o is RequiresConfirmation && !confirmed) ==> r == Err::<MutationReport, AccessError>(
                AccessError::Declined,
            ) && final(users)@ == old(users)@
            &&& (o is Allowed || (o is RequiresConfirmation && confirmed)) ==> {
                &&& r == Ok::<MutationReport, AccessError>(
                    MutationReport { affects_current_session: target@ == actor.username@ },
                )
                &&& forall|i: int|
                    first_named(recs(old(users)@), target@, i) ==> final(users)@ == old(users)@.update(
                        i,
                        changed(old(users)@[i], change),
                    )
            }
        }),
        store_ok(recs(old(users)@)) ==> store_ok(recs(final(users)@)),
{
    let outcome = request_mutation(actor, users, target, change.kind());
    match outcome {
        Outcome::Denied(why) => {
            return Err(AccessError::Denied(why));
        },
        Outcome::RequiresConfirmation => {
            if !confirmed {
                return Err(AccessError::Declined);
            }
        },
        Outcome::Allowed => {},
    }
    let i = match find_user(users, target) {
        Some(i) => i,
        None => {
            return Err(AccessError::Denied(DenyReason::UnknownUser));
        },
    };
    let ghost old_users = users@;
    let name = target.to_owned();
    let affects = name == actor.username;
    let u = User {
        username: users[i].username.clone(),
        password_hash: users[i].password_hash.clone(),
        is_admin: users[i].is_admin,
    };
    let nu = match change {
        Change::SetPassword(h) => User { password_hash: h, ..u },
        Change::GrantAdmin => User { is_admin: true, ..u },
        Change::RevokeAdmin => User { is_admin: false, ..u },
    };
    users.set(i, nu);
    proof {
        assert forall|k: int| first_named(recs(old_users), target@, k) implies final(users)@ == old_users.update(
            k,
            changed(old_users[k], change),
        ) by {
            crate::user::lemma_first_named_unique(recs(old_users), target@, k, i as int);
        }
        let o = recs(old_users);
        if store_ok(o) {
            let f = recs(users@);
            assert(f =~= o.update(i as int, nu@));
            if i == 0 {
                assert(change.spec_kind() == Mutation::ChangePassword);
            }
            assert(f[0].is_admin);
            assert(unique_names(f)) by {
                assert forall|a: int, b: int|
                    0 <= a < f.len() && 0 <= b < f.len() && a != b implies (#[trigger] f[a]).username != (
                    #[trigger] f[b]).username by {
                    assert(f[a].username == o[a].username);
                    assert(f[b].username == o[b].username);
                }
            }
        }
    }
    Ok(MutationReport { affects_current_session: affects })
}

/// Deletes the account named `target` when the policy lets `actor` do so
/// and `proof_digest` is the digest stored for the root account.
pub fn delete_account_with_digest(actor: &CurrentUser, users: &mut Vec<User>, target: &str, proof_digest: &str) -> (r:
    Result<DeleteResult, AccessError>)
    ensures
        ({
            let o = decide(actor@, recs(old(users)@), target@, Mutation::Delete);
            &&& o matches Outcome::Denied(why) ==> r == Err::<DeleteResult, AccessError>(AccessError::Denied(why))
                && final(users)@ == old(users)@
            &&& !(o is Denied) && proof_digest@ != old(users)@[0].password_hash@ ==> r == Err::<
                DeleteResult,
                AccessError,
            >(AccessError::Denied(DenyReason::WrongVerificationPassword)) && final(users)@ == old(users)@
            &&& !(o is Denied) && proof_digest@ == old(users)@[0].password_hash@ ==> {
                &&& forall|i: int|
                    first_named(recs(old(users)@), target@, i) ==> final(users)@ == old(users)@.remove(i)
                &&& target@ == actor.username@ ==> reports_own_deleted(r)
                &&& target@ != actor.username@ ==> reports_other_deleted(r, target@)
            }
        }),
        store_ok(recs(old(users)@)) ==> store_ok(recs(final(users)@)),
{
    let outcome = request_mutation(actor, users, target, Mutation::Delete);
    if let Outcome::Denied(why) = outcome {
        return Err(AccessError::Denied(why));
    }
    let i = match find_user(users, target) {
        Some(i) => i,
        None => {
            return Err(AccessError::Denied(DenyReason::UnknownUser));
        },
    };
    let proof_owned = proof_digest.to_owned();
    if proof_owned != users[0].password_hash {
        return Err(AccessError::Denied(DenyReason::WrongVerificationPassword));
    }
    let ghost old_users = users@;
    let name = target.to_owned();
    users.remove(i);
    proof {
        assert forall|k: int| first_named(recs(old_users), target@, k) implies final(users)@ == old_users.remove(k) by {
            crate::user::lemma_first_named_unique(recs(old_users), target@, k, i as int);
        }
        let o = recs(old_users);
        if store_ok(o) {
            let f = recs(users@);
            assert(f =~= o.remove(i as int));
            assert(i != 0);
            assert(f[0] == o[0]);
            assert(unique_names(f)) by {
                assert forall|a: int, b: int|
                    0 <= a < f.len() && 0 <= b < f.len() && a != b implies (#[trigger] f[a]).username != (
                    #[trigger] f[b]).username by {
                    let a0 = if a < i { a } else { a + 1 };
                    let b0 = if b < i { b } else { b + 1 };
                    assert(f[a] == o[a0]);
                    assert(f[b] == o[b0]);
                }
            }
        }
    }
    if name == actor.username {
        Ok(DeleteResult::CurrentUserDeleted)
    } else {
        Ok(DeleteResult::OtherUserDeleted(name))
    }
}

/// Deletes the account named `target`, with root's plaintext password as
/// proof of authority; see `delete_account_with_digest`.
pub fn delete_account(actor: &CurrentUser, users: &mut Vec<User>, target: &str, root_password: &str) -> (r: Result<
    DeleteResult,
    AccessError,
>)
    ensures
        ({
            let o = decide(actor@, recs(old(users)@), target@, Mutation::Delete);
            let proof_ok = password_digest(root_password@) == old(users)@[0].password_hash@;
            &&& o matches Outcome::Denied(why) ==> r == Err::<DeleteResult, AccessError>(AccessError::Denied(why))
                && final(users)@ == old(users)@
            &&& !(o is Denied) && !proof_ok ==> r == Err::<DeleteResult, AccessError>(
                AccessError::Denied(DenyReason::WrongVerificationPassword),
            ) && final(users)@ == old(users)@
            &&& !(o is Denied) && proof_ok ==> {
                &&& forall|i: int|
                    first_named(recs(old(users)@), target@, i) ==> final(users)@ == old(users)@.remove(i)
                &&& target@ == actor.username@ ==> reports_own_deleted(r)
                &&& target@ != actor.username@ ==> reports_other_deleted(r, target@)
            }
        }),
        store_ok(recs(old(users)@)) ==> store_ok(recs(final(users)@)),
{
    let digest = hash_password(root_password);
    delete_account_with_digest(actor, users, target, digest.as_str())
}

} // verus!
