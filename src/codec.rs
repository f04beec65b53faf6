use crate::user::{chars_of, recs, User, UserRec};
use vstd::prelude::*;
use vstd::slice::slice_subrange;

verus! {

/// What quick-xml's `escape` makes of one character.
pub open spec fn escape_char(c: char) -> Seq<char> {
    if c == '<' {
        "&lt;"@
    } else if c == '>' {
        "&gt;"@
    } else if c == '&' {
        "&amp;"@
    } else if c == '\'' {
        "&apos;"@
    } else if c == '"' {
        "&quot;"@
    } else {
        seq![c]
    }
}

/// Text with the five markup characters replaced by entities.
pub open spec fn escaped(s: Seq<char>) -> Seq<char>
    decreases s.len(),
{
    if s.len() == 0 {
        Seq::empty()
    } else {
        escaped(s.drop_last()) + escape_char(s.last())
    }
}

/// What quick-xml's `unescape` makes of a text: `None` where it reports an
/// error.
pub uninterp spec fn unescaped_of(s: Seq<char>) -> Option<Seq<char>>;

/// Relies on quick_xml::escape::escape, the escaping that quick-xml's writer
/// applies to text content: `<`, `>`, `&`, `'` and `"` become entities.
#[verifier::external_body]
fn escape_text(s: &str) -> (r: String)
    ensures
        r@ == escaped(s@),
{
    quick_xml::escape::escape(s).into_owned()
}

pub open spec fn opt_view(r: Option<String>) -> Option<Seq<char>> {
    match r {
        Some(t) => Some(t@),
        None => None,
    }
}

/// Relies on quick_xml::escape::unescape, which resolves the entities of a
/// text.
#[verifier::external_body]
fn unescape_text(s: &str) -> (r: Option<String>)
    ensures
        opt_view(r) == unescaped_of(s@),
{
    match quick_xml::escape::unescape(s) {
        Ok(t) => Some(t.into_owned()),
        Err(_) => None,
    }
}

/// Relies on std's `String: FromIterator<char>`: the string of these
/// characters.
#[verifier::external_body]
fn string_of(cs: &[char]) -> (r: String)
    ensures
        r@ == cs@,
{
    cs.iter().collect()
}

pub open spec fn open_tag(name: Seq<char>) -> Seq<char> {
    "<"@ + name + ">"@
}

pub open spec fn close_tag(name: Seq<char>) -> Seq<char> {
    "</"@ + name + ">"@
}

pub open spec fn element(name: Seq<char>, body: Seq<char>) -> Seq<char> {
    open_tag(name) + body + close_tag(name)
}

pub open spec fn admin_text(is_admin: bool) -> Seq<char> {
    if is_admin {
        "yes"@
    } else {
        "no"@
    }
}

/// One record: a `user` element holding the name, the digest and the flag,
/// each in an element of its own.
pub open spec fn record_text(u: UserRec) -> Seq<char> {
    element(
        "user"@,
        element("username"@, escaped(u.username)) + element("password"@, escaped(u.password_hash))
            + element("isadmin"@, admin_text(u.is_admin)),
    )
}

pub open spec fn records_text(s: Seq<UserRec>) -> Seq<char>
    decreases s.len(),
{
    if s.len() == 0 {
        Seq::empty()
    } else {
        records_text(s.drop_last()) + record_text(s.last())
    }
}

/// The stored text of a sequence of records, in order.
pub open spec fn store_text(s: Seq<UserRec>) -> Seq<char> {
    element("users"@, records_text(s))
}

fn append_tag(out: &mut String, close: bool, name: &str)
    ensures
        final(out)@ == old(out)@ + (if close {
            close_tag(name@)
        } else {
            open_tag(name@)
        }),
{
    if close {
        out.append("</");
    } else {
        out.append("<");
    }
    out.append(name);
    out.append(">");
    assert(final(out)@ =~= old(out)@ + (if close {
        close_tag(name@)
    } else {
        open_tag(name@)
    }));
}

fn append_record(out: &mut String, u: &User)
    ensures
        final(out)@ == old(out)@ + record_text(u@),
{
    let ghost start = out@;
    append_tag(out, false, "user");
    append_tag(out, false, "username");
    let n = escape_text(u.username.as_str());
    out.append(n.as_str());
    append_tag(out, true, "username");
    let ghost nm = out@;
    assert(nm =~= start + open_tag("user"@) + element("username"@, escaped(u.username@)));
    append_tag(out, false, "password");
    let h = escape_text(u.password_hash.as_str());
    out.append(h.as_str());
    append_tag(out, true, "password");
    let ghost pw = out@;
    assert(pw =~= nm + element("password"@, escaped(u.password_hash@)));
    append_tag(out, false, "isadmin");
    if u.is_admin {
        out.append("yes");
    } else {
        out.append("no");
    }
    append_tag(out, true, "isadmin");
    let ghost adm = out@;
    assert(adm =~= pw + element("isadmin"@, admin_text(u.is_admin)));
    append_tag(out, true, "user");
    assert(final(out)@ =~= start + record_text(u@));
}

/// Writes the records in the stored text form, keeping their order.
pub fn encode_users(users: &Vec<User>) -> (r: String)
    ensures
        r@ == store_text(recs(users@)),
{
    let mut out = String::new();
    out.append("<");
    out.append("users");
    out.append(">");
    let ghost head = out@;
    let mut i: usize = 0;
    while i < users.len()
        invariant
            0 <= i <= users.len(),
            head == open_tag("users"@),
            out@ == head + records_text(recs(users@).take(i as int)),
        decreases users.len() - i,
    {
        let u = &users[i];
        let ghost before = out@;
        append_record(&mut out, u);
        proof {
            let s = recs(users@);
            assert(s.take(i as int + 1).drop_last() =~= s.take(i as int));
            assert(s[i as int] == u@);
        }
        i += 1;
    }
    out.append("</");
    out.append("users");
    out.append(">");
    proof {
        assert(recs(users@).take(users@.len() as int) =~= recs(users@));
    }
    out
}

/// Why a stored text cannot be read.
#[derive(Debug, Clone, Copy, PartialEq, Eq, Structural)]
pub enum StoreError {
    StoreCorrupt,
}

/// White space between the parts of the stored text.
pub open spec fn xml_space(c: char) -> bool {
    c == ' ' || c == '\t' || c == '\n' || c == '\r'
}

/// The first position at or after `p` that holds `c`, or the length.
pub open spec fn find_from(s: Seq<char>, p: int, c: char) -> int
    decreases s.len() - p,
{
    if p < 0 || p >= s.len() {
        s.len() as int
    } else if s[p] == c {
        p
    } else {
        find_from(s, p + 1, c)
    }
}

/// The first position at or after `p` and before `e` that holds no white
/// space, or `e`.
pub open spec fn skip_spaces(s: Seq<char>, p: int, e: int) -> int
    decreases e - p,
{
    if p < 0 || p >= e {
        e
    } else if xml_space(s[p]) {
        skip_spaces(s, p + 1, e)
    } else {
        p
    }
}

/// The first position at or after `p` that holds white space, or the length.
pub open spec fn first_space(s: Seq<char>, p: int) -> int
    decreases s.len() - p,
{
    if p < 0 || p >= s.len() {
        s.len() as int
    } else if xml_space(s[p]) {
        p
    } else {
        first_space(s, p + 1)
    }
}

/// `x` without its trailing white space.
pub open spec fn trimmed_end(x: Seq<char>) -> Seq<char>
    decreases x.len(),
{
    if x.len() == 0 {
        x
    } else if xml_space(x.last()) {
        trimmed_end(x.drop_last())
    } else {
        x
    }
}

/// The name at the start of a tag: up to the first white space.
pub open spec fn name_of(x: Seq<char>) -> Seq<char> {
    x.take(first_space(x, 0))
}

/// A unit of the stored text.
pub enum Tok {
    Open(Seq<char>),
    Close(Seq<char>),
    Text(Seq<char>),
    Skip,
}

/// The token of a tag whose text between `<` and `>` is `inner`.
/// Declarations, comments and empty elements carry no records.
pub open spec fn tag_token(inner: Seq<char>) -> Tok {
    if inner.len() > 0 && inner[0] == '/' {
        Tok::Close(name_of(inner.drop_first()))
    } else if inner.len() > 0 && (inner[0] == '?' || inner[0] == '!') {
        Tok::Skip
    } else if inner.len() > 0 && inner.last() == '/' {
        Tok::Skip
    } else {
        Tok::Open(name_of(inner))
    }
}

/// The token that starts at `p` and where the next one starts; `None` for
/// a tag that is never closed.
pub open spec fn next_token(s: Seq<char>, p: int) -> Option<(Tok, int)> {
    if s[p] == '<' {
        let e = find_from(s, p + 1, '>');
        if e >= s.len() {
            None
        } else {
            Some((tag_token(s.subrange(p + 1, e)), e + 1))
        }
    } else {
        let e = find_from(s, p, '<');
        let t = trimmed_end(s.subrange(skip_spaces(s, p, e), e));
        Some((if t.len() == 0 { Tok::Skip } else { Tok::Text(t) }, e))
    }
}

/// The reader's state: whether a record is being read, what of it has been
/// read, which of its fields is open, the open elements, and the records
/// completed.
pub struct Machine {
    pub in_user: bool,
    pub name: Option<Seq<char>>,
    pub in_name: bool,
    pub pw: Option<Seq<char>>,
    pub adm: Option<bool>,
    pub in_pw: bool,
    pub in_adm: bool,
    pub stack: Seq<Seq<char>>,
    pub out: Seq<UserRec>,
}

pub open spec fn initial_machine() -> Machine {
    Machine {
        in_user: false,
        name: None,
        in_name: false,
        pw: None,
        adm: None,
        in_pw: false,
        in_adm: false,
        stack: Seq::empty(),
        out: Seq::empty(),
    }
}

/// `yes` in any case of its letters.
pub open spec fn is_yes(t: Seq<char>) -> bool {
    &&& t.len() == 3
    &&& (t[0] == 'y' || t[0] == 'Y')
    &&& (t[1] == 'e' || t[1] == 'E')
    &&& (t[2] == 's' || t[2] == 'S')
}

/// A text with its entities resolved; only a text with a `&` has any.
pub open spec fn resolved(x: Seq<char>) -> Option<Seq<char>> {
    if x.contains('&') {
        unescaped_of(x)
    } else {
        Some(x)
    }
}

/// The reader's state after one token; `None` where the text is malformed.
/// A record is kept only when its name, digest and flag were all read.
pub open spec fn step(m: Machine, t: Tok) -> Option<Machine> {
    match t {
        Tok::Skip => Some(m),
        Tok::Open(n) => {
            let m2 = Machine { stack: m.stack.push(n), ..m };
            if n == "user"@ {
                Some(
                    Machine {
                        in_user: true,
                        name: None,
                        pw: None,
                        adm: None,
                        in_name: false,
                        in_pw: false,
                        in_adm: false,
                        ..m2
                    },
                )
            } else if !m.in_user {
                Some(m2)
            } else if n == "username"@ {
                Some(Machine { in_name: true, ..m2 })
            } else if n == "password"@ {
                Some(Machine { in_pw: true, ..m2 })
            } else if n == "isadmin"@ {
                Some(Machine { in_adm: true, ..m2 })
            } else {
                Some(m2)
            }
        },
        Tok::Text(x) => {
            if !(m.in_user && (m.in_name || m.in_pw || m.in_adm)) {
                Some(m)
            } else {
                match resolved(x) {
                    None => None,
                    Some(v) => {
                        if m.in_name {
                            Some(Machine { name: Some(v), ..m })
                        } else if m.in_pw {
                            Some(Machine { pw: Some(v), ..m })
                        } else {
                            Some(Machine { adm: Some(is_yes(v)), ..m })
                        }
                    },
                }
            }
        },
        Tok::Close(n) => {
            if m.stack.len() == 0 || m.stack.last() != n {
                None
            } else {
                let m2 = Machine { stack: m.stack.drop_last(), ..m };
                if n == "user"@ {
                    let out = if m.in_user && m.name is Some && m.pw is Some && m.adm is Some {
                        m.out.push(UserRec { username: m.name->0, password_hash: m.pw->0, is_admin: m.adm->0 })
                    } else {
                        m.out
                    };
                    Some(
                        Machine {
                            in_user: false,
                            name: None,
                            pw: None,
                            adm: None,
                            in_name: false,
                            in_pw: false,
                            in_adm: false,
                            out: out,
                            ..m2
                        },
                    )
                } else if n == "username"@ {
                    Some(Machine { in_name: false, ..m2 })
                } else if n == "password"@ {
                    Some(Machine { in_pw: false, ..m2 })
                } else if n == "isadmin"@ {
                    Some(Machine { in_adm: false, ..m2 })
                } else {
                    Some(m2)
                }
            }
        },
    }
}

/// The reader's state after the tokens from `p` on.
pub open spec fn parse_from(s: Seq<char>, p: int, m: Machine) -> Option<Machine>
    decreases s.len() - p,
{
    if p < 0 || p >= s.len() {
        Some(m)
    } else {
        match next_token(s, p) {
            None => None,
            Some((t, q)) => {
                if q <= p || q > s.len() {
                    None
                } else {
                    match step(m, t) {
                        None => None,
                        Some(m2) => parse_from(s, q, m2),
                    }
                }
            },
        }
    }
}

/// The records that a stored text holds; `None` where it is malformed,
/// including where an element is left open.
pub open spec fn decoded(s: Seq<char>) -> Option<Seq<UserRec>> {
    match parse_from(s, 0, initial_machine()) {
        Some(m) => if m.stack.len() == 0 { Some(m.out) } else { None },
        None => None,
    }
}

pub proof fn lemma_find_bounds(s: Seq<char>, p: int, c: char)
    requires
        0 <= p <= s.len(),
    ensures
        p <= find_from(s, p, c) <= s.len(),
        find_from(s, p, c) < s.len() ==> s[find_from(s, p, c)] == c,
    decreases s.len() - p,
{
    if p < s.len() && s[p] != c {
        lemma_find_bounds(s, p + 1, c);
    }
}

fn find_char(s: &Vec<char>, p: usize, c: char) -> (r: usize)
    requires
        p <= s.len(),
    ensures
        r == find_from(s@, p as int, c),
        p <= r <= s.len(),
{
    let mut k = p;
    while k < s.len() && s[k] != c
        invariant
            p <= k <= s.len(),
            find_from(s@, p as int, c) == find_from(s@, k as int, c),
        decreases s.len() - k,
    {
        k += 1;
    }
    k
}

fn is_xml_space(c: char) -> (r: bool)
    ensures
        r == xml_space(c),
{
    c == ' ' || c == '\t' || c == '\n' || c == '\r'
}

/// The string of `s[a..b]`.
fn text_between(s: &Vec<char>, a: usize, b: usize) -> (r: String)
    requires
        a <= b <= s.len(),
    ensures
        r@ == s@.subrange(a as int, b as int),
{
    string_of(slice_subrange(s.as_slice(), a, b))
}

/// The string of the tag name in `s[a..e]`.
fn tag_name(s: &Vec<char>, a: usize, e: usize) -> (r: String)
    requires
        a <= e <= s.len(),
    ensures
        r@ == name_of(s@.subrange(a as int, e as int)),
{
    let ghost x = s@.subrange(a as int, e as int);
    let mut k = a;
    while k < e && !is_xml_space(s[k])
        invariant
            a <= k <= e,
            e <= s.len(),
            x == s@.subrange(a as int, e as int),
            first_space(x, 0) == first_space(x, k - a),
        decreases e - k,
    {
        k += 1;
    }
    let r = text_between(s, a, k);
    assert(r@ =~= x.take(first_space(x, 0)));
    r
}

/// A token of the stored text, as values.
pub enum Token {
    Open(String),
    Close(String),
    Text(String),
    Skip,
}

impl View for Token {
    type V = Tok;

    open spec fn view(&self) -> Tok {
        match self {
            Token::Open(n) => Tok::Open(n@),
            Token::Close(n) => Tok::Close(n@),
            Token::Text(t) => Tok::Text(t@),
            Token::Skip => Tok::Skip,
        }
    }
}

/// Reads the token that starts at `p`.
fn read_token(s: &Vec<char>, p: usize) -> (r: Option<(Token, usize)>)
    requires
        p < s.len(),
    ensures
        r is None ==> next_token(s@, p as int) is None,
        r matches Some((t, q)) ==> next_token(s@, p as int) == Some((t@, q as int)) && p < q <= s.len(),
{
    if s[p] == '<' {
        let e = find_char(s, p + 1, '>');
        if e >= s.len() {
            return None;
        }
        let ghost inner = s@.subrange(p + 1, e as int);
        proof {
            lemma_find_bounds(s@, p + 1, '>');
            if inner.len() > 0 {
                assert(inner[0] == s@[p + 1]);
                assert(inner.last() == s@[e - 1]);
            }
        }
        let t = if p + 1 < e && s[p + 1] == '/' {
            let n = tag_name(s, p + 2, e);
            assert(inner.drop_first() =~= s@.subrange(p + 2, e as int));
            Token::Close(n)
        } else if p + 1 < e && (s[p + 1] == '?' || s[p + 1] == '!') {
            Token::Skip
        } else if p + 1 < e && s[e - 1] == '/' {
            Token::Skip
        } else {
            Token::Open(tag_name(s, p + 1, e))
        };
        Some((t, e + 1))
    } else {
        let e = find_char(s, p, '<');
        proof {
            lemma_find_bounds(s@, p + 1, '<');
        }
        let mut a = p;
        while a < e && is_xml_space(s[a])
            invariant
                p <= a <= e,
                e <= s.len(),
                skip_spaces(s@, p as int, e as int) == skip_spaces(s@, a as int, e as int),
            decreases e - a,
        {
            a += 1;
        }
        let mut b = e;
        while b > a && is_xml_space(s[b - 1])
            invariant
                a <= b <= e,
                e <= s.len(),
                trimmed_end(s@.subrange(a as int, e as int)) == trimmed_end(s@.subrange(a as int, b as int)),
            decreases b - a,
        {
            assert(s@.subrange(a as int, b as int).drop_last() =~= s@.subrange(a as int, b - 1));
            b -= 1;
        }
        assert(b > a ==> trimmed_end(s@.subrange(a as int, b as int)) == s@.subrange(a as int, b as int));
        if b == a {
            assert(s@.subrange(a as int, b as int).len() == 0);
            Some((Token::Skip, e))
        } else {
            Some((Token::Text(text_between(s, a, b)), e))
        }
    }
}

fn is_word(n: &String, w: &str) -> (r: bool)
    ensures
        r == (n@ == w@),
{
    *n == w.to_owned()
}

fn resolve_text(x: String) -> (r: Option<String>)
    ensures
        opt_view(r) == resolved(x@),
{
    let cs = chars_of(x.as_str());
    let mut i: usize = 0;
    while i < cs.len()
        invariant
            cs@ == x@,
            i <= cs.len(),
            forall|k: int| 0 <= k < i ==> cs@[k] != '&',
        decreases cs.len() - i,
    {
        if cs[i] == '&' {
            assert(x@.contains('&')) by {
                assert(x@[i as int] == '&');
            }
            return unescape_text(x.as_str());
        }
        i += 1;
    }
    Some(x)
}

fn yes_text(t: &String) -> (r: bool)
    ensures
        r == is_yes(t@),
{
    let cs = chars_of(t.as_str());
    cs.len() == 3 && (cs[0] == 'y' || cs[0] == 'Y') && (cs[1] == 'e' || cs[1] == 'E') && (cs[2] == 's'
        || cs[2] == 'S')
}

/// The reader's state, as values.
struct Reader {
    in_user: bool,
    name: Option<String>,
    in_name: bool,
    pw: Option<String>,
    adm: Option<bool>,
    in_pw: bool,
    in_adm: bool,
    stack: Vec<String>,
    out: Vec<User>,
}

impl View for Reader {
    type V = Machine;

    closed spec fn view(&self) -> Machine {
        Machine {
            in_user: self.in_user,
            name: opt_view(self.name),
            in_name: self.in_name,
            pw: opt_view(self.pw),
            adm: self.adm,
            in_pw: self.in_pw,
            in_adm: self.in_adm,
            stack: self.stack@.map_values(|n: String| n@),
            out: recs(self.out@),
        }
    }
}

impl Reader {
    fn clear_record(&mut self)
        ensures
            final(self)@ == (Machine {
                in_user: false,
                name: None,
                pw: None,
                adm: None,
                in_name: false,
                in_pw: false,
                in_adm: false,
                ..old(self)@
            }),
    {
        self.in_user = false;
        self.name = None;
        self.pw = None;
        self.adm = None;
        self.in_name = false;
        self.in_pw = false;
        self.in_adm = false;
    }

    /// Takes one token; `false` where the text is malformed.
    fn feed(&mut self, t: Token) -> (ok: bool)
        ensures
            ok ==> step(old(self)@, t@) == Some(final(self)@),
            !ok ==> step(old(self)@, t@) is None,
    {
        let ghost m = self@;
        match t {
            Token::Skip => true,
            Token::Open(n) => {
                let is_user = is_word(&n, "user");
                let is_name = is_word(&n, "username");
                let is_pw = is_word(&n, "password");
                let is_adm = is_word(&n, "isadmin");
                self.stack.push(n);
                assert(self.stack@.map_values(|n: String| n@) =~= m.stack.push(t@->Open_0));
                if is_user {
                    self.clear_record();
                    self.in_user = true;
                } else if !self.in_user {
                } else if is_name {
                    self.in_name = true;
                } else if is_pw {
                    self.in_pw = true;
                } else if is_adm {
                    self.in_adm = true;
                }
                true
            },
            Token::Text(x) => {
                if !(self.in_user && (self.in_name || self.in_pw || self.in_adm)) {
                    return true;
                }
                match resolve_text(x) {
                    None => false,
                    Some(v) => {
                        if self.in_name {
                            self.name = Some(v);
                        } else if self.in_pw {
                            self.pw = Some(v);
                        } else {
                            self.adm = Some(yes_text(&v));
                        }
                        true
                    },
                }
            },
            Token::Close(n) => {
                let len = self.stack.len();
                if len == 0 {
                    return false;
                }
                if self.stack[len - 1] != n {
                    return false;
                }
                self.stack.pop();
                assert(self.stack@.map_values(|n: String| n@) =~= m.stack.drop_last());
                if is_word(&n, "user") {
                    let in_user = self.in_user;
                    let name = self.name.take();
                    let pw = self.pw.take();
                    let adm = self.adm.take();
                    self.clear_record();
                    if in_user {
                        match (name, pw, adm) {
                            (Some(u), Some(h), Some(a)) => {
                                let ghost before = self.out@;
                                self.out.push(User { username: u, password_hash: h, is_admin: a });
                                assert(recs(self.out@) =~= recs(before).push(
                                    UserRec { username: m.name->0, password_hash: m.pw->0, is_admin: m.adm->0 },
                                ));
                            },
                            _ => {},
                        }
                    }
                } else if is_word(&n, "username") {
                    self.in_name = false;
                } else if is_word(&n, "password") {
                    self.in_pw = false;
                } else if is_word(&n, "isadmin") {
                    self.in_adm = false;
                }
                true
            },
        }
    }
}

/// Reads the records of a stored text, in order. Records that lack their
/// name, digest or flag are dropped; a text that is malformed as a whole is
/// refused.
pub fn decode_users(text: &str) -> (r: Result<Vec<User>, StoreError>)
    ensures
        r matches Ok(v) ==> decoded(text@) == Some(recs(v@)),
        r is Err ==> decoded(text@) is None,
{
    let s = chars_of(text);
    let mut rd = Reader {
        in_user: false,
        name: None,
        in_name: false,
        pw: None,
        adm: None,
        in_pw: false,
        in_adm: false,
        stack: Vec::new(),
        out: Vec::new(),
    };
    assert(rd@.stack =~= Seq::<Seq<char>>::empty());
    assert(rd@.out =~= Seq::<UserRec>::empty());
    let mut p: usize = 0;
    while p < s.len()
        invariant
            s@ == text@,
            p <= s.len(),
            parse_from(s@, 0, initial_machine()) == parse_from(s@, p as int, rd@),
        decreases s.len() - p,
    {
        match read_token(&s, p) {
            None => {
                return Err(StoreError::StoreCorrupt);
            },
            Some((t, q)) => {
                if !rd.feed(t) {
                    return Err(StoreError::StoreCorrupt);
                }
                p = q;
            },
        }
    }
    if rd.stack.len() > 0 {
        return Err(StoreError::StoreCorrupt);
    }
    Ok(rd.out)
}

} // verus!
