use crate::digest::{hash_password, password_digest};
use crate::user::{find_user, first_named, recs, CurrentUser, SessionRec, User, UserRec};
use vstd::prelude::*;

verus! {

/// Consecutive failed logins after which a login gives up.
pub const MAX_LOGIN_ATTEMPTS: u32 = 3;

/// Why a login did not succeed; an unknown name and a wrong password are
/// not told apart.
#[derive(Debug, Clone, Copy, PartialEq, Eq, Structural)]
pub enum AuthFailure {
    InvalidCredentials,
    TooManyAttempts,
}

/// The session that a matching digest opens: the first record with the
/// name decides, and its stored digest must equal `digest`.
pub open spec fn spec_authenticate(s: Seq<UserRec>, name: Seq<char>, digest: Seq<char>) -> Option<SessionRec> {
    if exists|i: int| first_named(s, name, i) && s[i].password_hash == digest {
        let i = choose|i: int| first_named(s, name, i) && s[i].password_hash == digest;
        Some(SessionRec { username: name, is_admin: s[i].is_admin })
    } else {
        None
    }
}

/// Checks `digest` against the record named `username`.
pub fn authenticate_digest(username: &str, digest: &str, users: &Vec<User>) -> (r: Result<CurrentUser, AuthFailure>)
    ensures
        spec_authenticate(recs(users@), username@, digest@) matches Some(c) ==> (r matches Ok(u) && u@ == c),
        spec_authenticate(recs(users@), username@, digest@) is None ==> r == Err::<CurrentUser, AuthFailure>(
            AuthFailure::InvalidCredentials,
        ),
{
    let ghost s = recs(users@);
    match find_user(users, username) {
        None => Err(AuthFailure::InvalidCredentials),
        Some(i) => {
            let d = digest.to_owned();
            if users[i].password_hash == d {
                proof {
                    assert forall|k: int| first_named(s, username@, k) && s[k].password_hash == digest@ implies k
                        == i by {
                        crate::user::lemma_first_named_unique(s, username@, k, i as int);
                    }
                }
                Ok(CurrentUser { username: users[i].username.clone(), is_admin: users[i].is_admin })
            } else {
                proof {
                    assert forall|k: int| first_named(s, username@, k) implies s[k].password_hash != digest@ by {
                        crate::user::lemma_first_named_unique(s, username@, k, i as int);
                    }
                }
                Err(AuthFailure::InvalidCredentials)
            }
        },
    }
}

/// Verifies a plaintext password against the record named `username`, by
/// comparing digests.
pub fn authenticate(username: &str, password: &str, users: &Vec<User>) -> (r: Result<CurrentUser, AuthFailure>)
    ensures
        spec_authenticate(recs(users@), username@, password_digest(password@)) matches Some(c) ==> (r matches Ok(u)
            && u@ == c),
        spec_authenticate(recs(users@), username@, password_digest(password@)) is None ==> r == Err::<
            CurrentUser,
            AuthFailure,
        >(AuthFailure::InvalidCredentials),
{
    let digest = hash_password(password);
    authenticate_digest(username, digest.as_str(), users)
}

/// Where a login stands after one attempt.
#[derive(Debug, Clone)]
pub enum LoginProgress {
    LoggedIn(CurrentUser),
    /// Ask again; the number of failures so far.
    TryAgain(u32),
    Failed(AuthFailure),
}

/// One step of the bounded login: `failures` attempts have failed before
/// this one, whose result is `attempt`.
pub fn login_step(failures: u32, attempt: Result<CurrentUser, AuthFailure>) -> (r: LoginProgress)
    ensures
        attempt matches Ok(u) ==> (r matches LoginProgress::LoggedIn(v) && v == u),
        attempt is Err && failures + 1 < MAX_LOGIN_ATTEMPTS ==> (r matches LoginProgress::TryAgain(n) && n
            == failures + 1),
        attempt is Err && failures + 1 >= MAX_LOGIN_ATTEMPTS ==> (r matches LoginProgress::Failed(e) && e
            == AuthFailure::TooManyAttempts),
{
    match attempt {
        Ok(u) => LoginProgress::LoggedIn(u),
        Err(_) => {
            if failures < MAX_LOGIN_ATTEMPTS - 1 {
                LoginProgress::TryAgain(failures + 1)
            } else {
                LoginProgress::Failed(AuthFailure::TooManyAttempts)
            }
        },
    }
}

/// Why a new password entered twice is refused.
#[derive(Debug, Clone, Copy, PartialEq, Eq, Structural)]
pub enum PasswordEntryError {
    Mismatch,
    Empty,
}

/// Accepts a new password only when both entries agree and are non-empty.
pub fn check_new_password(first: &str, second: &str) -> (r: Result<(), PasswordEntryError>)
    ensures
        first@ != second@ ==> r == Err::<(), PasswordEntryError>(PasswordEntryError::Mismatch),
        first@ == second@ && first@.len() == 0 ==> r == Err::<(), PasswordEntryError>(PasswordEntryError::Empty),
        first@ == second@ && first@.len() > 0 ==> r is Ok,
{
    let a = first.to_owned();
    let b = second.to_owned();
    if a != b {
        Err(PasswordEntryError::Mismatch)
    } else if a.as_str().unicode_len() == 0 {
        Err(PasswordEntryError::Empty)
    } else {
        Ok(())
    }
}

} // verus!
