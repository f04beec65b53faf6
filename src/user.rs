use vstd::prelude::*;

verus! {

/// One account of the store.
#[derive(Debug, Clone)]
pub struct User {
    pub username: String,
    pub password_hash: String,
    pub is_admin: bool,
}

/// The identity and privilege of a logged-in session.
#[derive(Debug, Clone)]
pub struct CurrentUser {
    pub username: String,
    pub is_admin: bool,
}

/// The mathematical value of a user record.
pub struct UserRec {
    pub username: Seq<char>,
    pub password_hash: Seq<char>,
    pub is_admin: bool,
}

/// The mathematical value of a session.
pub struct SessionRec {
    pub username: Seq<char>,
    pub is_admin: bool,
}

impl View for User {
    type V = UserRec;

    open spec fn view(&self) -> UserRec {
        UserRec { username: self.username@, password_hash: self.password_hash@, is_admin: self.is_admin }
    }
}

impl View for CurrentUser {
    type V = SessionRec;

    open spec fn view(&self) -> SessionRec {
        SessionRec { username: self.username@, is_admin: self.is_admin }
    }
}

/// The values of a sequence of records.
pub open spec fn recs(s: Seq<User>) -> Seq<UserRec> {
    s.map_values(|u: User| u@)
}

/// Why a new username is refused.
#[derive(Debug, Clone, Copy, PartialEq, Eq, Structural)]
pub enum ValidationError {
    EmptyUsername,
    InvalidCharacter,
    DuplicateUsername,
}

/// Characters with the Unicode White_Space property.
pub open spec fn is_white_space(c: char) -> bool {
    ('\u{9}' <= c && c <= '\u{d}') || c == ' ' || c == '\u{85}' || c == '\u{a0}'
        || c == '\u{1680}' || ('\u{2000}' <= c && c <= '\u{200a}') || c == '\u{2028}'
        || c == '\u{2029}' || c == '\u{202f}' || c == '\u{205f}' || c == '\u{3000}'
}

/// Characters with a meaning in the markup of the stored file.
pub open spec fn is_markup_char(c: char) -> bool {
    c == '<' || c == '>' || c == '&' || c == '"' || c == '\''
}

/// A name that may be given to a new account.
pub open spec fn valid_username(s: Seq<char>) -> bool {
    &&& s.len() > 0
    &&& forall|i: int| 0 <= i < s.len() ==> !is_white_space(#[trigger] s[i]) && !is_markup_char(s[i])
}

/// Some record of `s` carries the name `name`.
pub open spec fn has_user(s: Seq<UserRec>, name: Seq<char>) -> bool {
    exists|i: int| 0 <= i < s.len() && (#[trigger] s[i]).username == name
}

/// `i` is the position of the first record of `s` named `name`.
pub open spec fn first_named(s: Seq<UserRec>, name: Seq<char>, i: int) -> bool {
    &&& 0 <= i < s.len()
    &&& s[i].username == name
    &&& forall|j: int| 0 <= j < i ==> (#[trigger] s[j]).username != name
}

/// No two records share a name.
pub open spec fn unique_names(s: Seq<UserRec>) -> bool {
    forall|i: int, j: int|
        0 <= i < s.len() && 0 <= j < s.len() && i != j ==> (#[trigger] s[i]).username != (#[trigger] s[j]).username
}

/// The store's invariant once set up: it is not empty, no two records share
/// a name, and the root account at position 0 is an admin, so that some
/// admin always exists.
pub open spec fn store_ok(s: Seq<UserRec>) -> bool {
    &&& s.len() >= 1
    &&& unique_names(s)
    &&& s[0].is_admin
}

pub proof fn lemma_first_named_unique(s: Seq<UserRec>, name: Seq<char>, i: int, j: int)
    requires
        first_named(s, name, i),
        first_named(s, name, j),
    ensures
        i == j,
{
}

/// Relies on std's `str::chars` collected into a vector: the characters of
/// `s`, in order.
#[verifier::external_body]
pub(crate) fn chars_of(s: &str) -> (r: Vec<char>)
    ensures
        r@ == s@,
{
    s.chars().collect()
}

pub fn is_white_space_char(c: char) -> (r: bool)
    ensures
        r == is_white_space(c),
{
    ('\u{9}' <= c && c <= '\u{d}') || c == ' ' || c == '\u{85}' || c == '\u{a0}'
        || c == '\u{1680}' || ('\u{2000}' <= c && c <= '\u{200a}') || c == '\u{2028}'
        || c == '\u{2029}' || c == '\u{202f}' || c == '\u{205f}' || c == '\u{3000}'
}

pub fn is_markup(c: char) -> (r: bool)
    ensures
        r == is_markup_char(c),
{
    c == '<' || c == '>' || c == '&' || c == '"' || c == '\''
}

/// Checks the character rule for a new username: non-empty, with neither
/// white space nor markup characters.
pub fn check_username_chars(name: &str) -> (r: Result<(), ValidationError>)
    ensures
        r == (if name@.len() == 0 {
            Err(ValidationError::EmptyUsername)
        } else if !valid_username(name@) {
            Err(ValidationError::InvalidCharacter)
        } else {
            Ok(())
        }),
{
    let cs = chars_of(name);
    if cs.len() == 0 {
        return Err(ValidationError::EmptyUsername);
    }
    let mut i: usize = 0;
    while i < cs.len()
        invariant
            cs@ == name@,
            0 <= i <= cs.len(),
            forall|k: int| 0 <= k < i ==> !is_white_space(#[trigger] cs@[k]) && !is_markup_char(cs@[k]),
        decreases cs.len() - i,
    {
        if is_white_space_char(cs[i]) || is_markup(cs[i]) {
            return Err(ValidationError::InvalidCharacter);
        }
        i += 1;
    }
    Ok(())
}

/// The position of the first record named `name`, if any.
pub fn find_user(users: &Vec<User>, name: &str) -> (r: Option<usize>)
    ensures
        r matches Some(i) ==> first_named(recs(users@), name@, i as int),
        r is None <==> !has_user(recs(users@), name@),
{
    let key = name.to_owned();
    let mut i: usize = 0;
    while i < users.len()
        invariant
            key@ == name@,
            0 <= i <= users.len(),
            forall|j: int| 0 <= j < i ==> (#[trigger] recs(users@)[j]).username != name@,
        decreases users.len() - i,
    {
        if users[i].username == key {
            assert(recs(users@)[i as int].username == name@);
            return Some(i);
        }
        i += 1;
    }
    assert(!has_user(recs(users@), name@));
    None
}

} // verus!
