use crate::user::{find_user, has_user, recs, unique_names, CurrentUser, SessionRec, User, UserRec};
use vstd::prelude::*;

verus! {

/// A change that an actor may ask for on an account.
#[derive(Debug, Clone, Copy, PartialEq, Eq, Structural)]
pub enum Mutation {
    ChangePassword,
    GrantAdmin,
    RevokeAdmin,
    Delete,
}

/// Why the policy refuses a change; each rule has its own reason.
#[derive(Debug, Clone, Copy, PartialEq, Eq, Structural)]
pub enum DenyReason {
    UnknownUser,
    AdminRequired,
    RootAdminImmutable,
    RootPasswordOwnerOnly,
    LastAdmin,
    RootUndeletable,
    SingleAccount,
    WrongVerificationPassword,
}

/// The classification of a requested change.
#[derive(Debug, Clone, Copy, PartialEq, Eq, Structural)]
pub enum Outcome {
    Allowed,
    Denied(DenyReason),
    RequiresConfirmation,
}

/// Some record other than those named `target` is an admin.
pub open spec fn other_admin_exists(s: Seq<UserRec>, target: Seq<char>) -> bool {
    exists|j: int| 0 <= j < s.len() && (#[trigger] s[j]).is_admin && s[j].username != target
}

/// The policy: what `actor` may do with `m` to the account named `target`
/// in the store `s`. Deletion also needs proof of root's password, which is
/// the confirmation that it asks for.
pub open spec fn decide(actor: SessionRec, s: Seq<UserRec>, target: Seq<char>, m: Mutation) -> Outcome {
    if m == Mutation::ChangePassword && target == actor.username {
        if has_user(s, target) {
            Outcome::Allowed
        } else {
            Outcome::Denied(DenyReason::UnknownUser)
        }
    } else if !actor.is_admin {
        Outcome::Denied(DenyReason::AdminRequired)
    } else if m == Mutation::Delete && s.len() <= 1 {
        Outcome::Denied(DenyReason::SingleAccount)
    } else if !has_user(s, target) {
        Outcome::Denied(DenyReason::UnknownUser)
    } else if s[0].username == target {
        match m {
            Mutation::ChangePassword => Outcome::Denied(DenyReason::RootPasswordOwnerOnly),
            Mutation::Delete => Outcome::Denied(DenyReason::RootUndeletable),
            _ => Outcome::Denied(DenyReason::RootAdminImmutable),
        }
    } else {
        match m {
            Mutation::RevokeAdmin => {
                if !other_admin_exists(s, target) {
                    Outcome::Denied(DenyReason::LastAdmin)
                } else if target == actor.username {
                    Outcome::RequiresConfirmation
                } else {
                    Outcome::Allowed
                }
            },
            Mutation::Delete => Outcome::RequiresConfirmation,
            _ => Outcome::Allowed,
        }
    }
}

impl DenyReason {
    pub open spec fn spec_message(self) -> &'static str {
        match self {
            DenyReason::UnknownUser => "user not found",
            DenyReason::AdminRequired => "admin privileges required",
            DenyReason::RootAdminImmutable => "root admin status is immutable",
            DenyReason::RootPasswordOwnerOnly => "only root may change root's password",
            DenyReason::LastAdmin => "cannot remove the last admin",
            DenyReason::RootUndeletable => "the root account cannot be deleted",
            DenyReason::SingleAccount => "cannot delete the only account",
            DenyReason::WrongVerificationPassword => "incorrect verification password",
        }
    }

    /// The human-readable text of the reason.
    pub fn message(&self) -> (r: &'static str)
        ensures
            r == self.spec_message(),
    {
        match self {
            DenyReason::UnknownUser => "user not found",
            DenyReason::AdminRequired => "admin privileges required",
            DenyReason::RootAdminImmutable => "root admin status is immutable",
            DenyReason::RootPasswordOwnerOnly => "only root may change root's password",
            DenyReason::LastAdmin => "cannot remove the last admin",
            DenyReason::RootUndeletable => "the root account cannot be deleted",
            DenyReason::SingleAccount => "cannot delete the only account",
            DenyReason::WrongVerificationPassword => "incorrect verification password",
        }
    }
}

/// Whether some record not named `target` is an admin.
pub fn has_other_admin(users: &Vec<User>, target: &String) -> (r: bool)
    ensures
        r == other_admin_exists(recs(users@), target@),
{
    let mut i: usize = 0;
    while i < users.len()
        invariant
            0 <= i <= users.len(),
            forall|j: int| 0 <= j < i ==> !((#[trigger] recs(users@)[j]).is_admin && recs(users@)[j].username != target@),
        decreases users.len() - i,
    {
        if users[i].is_admin && users[i].username != *target {
            assert(recs(users@)[i as int].is_admin && recs(users@)[i as int].username != target@);
            return true;
        }
        i += 1;
    }
    false
}

/// Classifies what `actor` asks to do with `mutation` to the account named
/// `target`. The store is not changed.
pub fn request_mutation(actor: &CurrentUser, users: &Vec<User>, target: &str, mutation: Mutation) -> (r: Outcome)
    ensures
        r == decide(actor@, recs(users@), target@, mutation),
{
    let found = find_user(users, target).is_some();
    let target = target.to_owned();
    if mutation == Mutation::ChangePassword && target == actor.username {
        return if found {
            Outcome::Allowed
        } else {
            Outcome::Denied(DenyReason::UnknownUser)
        };
    }
    if !actor.is_admin {
        return Outcome::Denied(DenyReason::AdminRequired);
    }
    if mutation == Mutation::Delete && users.len() <= 1 {
        return Outcome::Denied(DenyReason::SingleAccount);
    }
    if !found {
        return Outcome::Denied(DenyReason::UnknownUser);
    }
    assert(recs(users@)[0].username == users@[0].username@);
    if users[0].username == target {
        return match mutation {
            Mutation::ChangePassword => Outcome::Denied(DenyReason::RootPasswordOwnerOnly),
            Mutation::Delete => Outcome::Denied(DenyReason::RootUndeletable),
            _ => Outcome::Denied(DenyReason::RootAdminImmutable),
        };
    }
    match mutation {
        Mutation::RevokeAdmin => {
            if !has_other_admin(users, &target) {
                Outcome::Denied(DenyReason::LastAdmin)
            } else if target == actor.username {
                Outcome::RequiresConfirmation
            } else {
                Outcome::Allowed
            }
        },
        Mutation::Delete => Outcome::RequiresConfirmation,
        _ => Outcome::Allowed,
    }
}

/// The root account's admin status cannot change: granting or revoking it
/// is denied whoever asks.
pub proof fn lemma_root_admin_immutable(actor: SessionRec, s: Seq<UserRec>, m: Mutation)
    requires
        s.len() >= 1,
        m == Mutation::GrantAdmin || m == Mutation::RevokeAdmin,
    ensures
        decide(actor, s, s[0].username, m) is Denied,
{
    assert(has_user(s, s[0].username));
}

/// An admin who revokes their own admin status, on an account other than
/// root's, is refused as the last admin when no other admin exists, and
/// otherwise is asked to confirm.
pub proof fn lemma_last_admin_safety(actor: SessionRec, s: Seq<UserRec>, i: int)
    requires
        actor.is_admin,
        0 < i < s.len(),
        s[i].username == actor.username,
        unique_names(s),
    ensures
        !other_admin_exists(s, actor.username) ==> decide(actor, s, actor.username, Mutation::RevokeAdmin)
            == Outcome::Denied(DenyReason::LastAdmin),
        other_admin_exists(s, actor.username) ==> decide(actor, s, actor.username, Mutation::RevokeAdmin)
            == Outcome::RequiresConfirmation,
{
    assert(has_user(s, s[i].username));
    assert(s[0].username != s[i].username);
}

/// A store with a single account never allows a deletion, whoever the actor
/// and whatever the target: an admin is told why, anyone else that admin
/// privileges are required.
pub proof fn lemma_single_account_undeletable(actor: SessionRec, s: Seq<UserRec>, target: Seq<char>)
    requires
        s.len() == 1,
    ensures
        decide(actor, s, target, Mutation::Delete) is Denied,
        actor.is_admin ==> decide(actor, s, target, Mutation::Delete) == Outcome::Denied(DenyReason::SingleAccount),
        !actor.is_admin ==> decide(actor, s, target, Mutation::Delete) == Outcome::Denied(DenyReason::AdminRequired),
{
}

/// A non-admin may always change their own password, and is denied every
/// other change on every account, their own included.
pub proof fn lemma_self_service(actor: SessionRec, s: Seq<UserRec>, target: Seq<char>, m: Mutation)
    requires
        !actor.is_admin,
        has_user(s, actor.username),
    ensures
        decide(actor, s, actor.username, Mutation::ChangePassword) == Outcome::Allowed,
        !(m == Mutation::ChangePassword && target == actor.username) ==> decide(actor, s, target, m)
            == Outcome::Denied(DenyReason::AdminRequired),
{
}

} // verus!
