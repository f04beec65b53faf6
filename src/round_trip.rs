//! The stored text carries records back unchanged: the proof follows the
//! reader token by token through the text that the writer produces.

use crate::codec::{
    admin_text, close_tag, element, escaped, find_from, first_space, is_yes, initial_machine, next_token,
    open_tag, parse_from, record_text, records_text, step, store_text, decoded, xml_space, Machine, Tok,
};
use crate::user::{is_markup_char, valid_username, UserRec};
use vstd::prelude::*;

verus! {

/// A digest that the stored text carries back as the same text.
pub open spec fn storable_digest(h: Seq<char>) -> bool {
    &&& h.len() > 0
    &&& forall|i: int| 0 <= i < h.len() ==> !xml_space(#[trigger] h[i]) && !is_markup_char(h[i])
}

/// A record that the stored text carries back unchanged: any name that may
/// be given to an account, and a digest text such as a hex digest.
pub open spec fn storable(u: UserRec) -> bool {
    valid_username(u.username) && storable_digest(u.password_hash)
}

proof fn lemma_valid_name_as_text(n: Seq<char>)
    requires
        valid_username(n),
    ensures
        storable_digest(n),
{
    assert forall|i: int| 0 <= i < n.len() implies !xml_space(#[trigger] n[i]) && !is_markup_char(n[i]) by {
        assert(!crate::user::is_white_space(n[i]));
    }
}

/// `x` stands in `s` from position `p` on.
pub open spec fn occurs_at(s: Seq<char>, p: int, x: Seq<char>) -> bool {
    0 <= p && p + x.len() <= s.len() && s.subrange(p, p + x.len()) == x
}

proof fn lemma_occurs_split(s: Seq<char>, p: int, x: Seq<char>, y: Seq<char>)
    requires
        occurs_at(s, p, x + y),
    ensures
        occurs_at(s, p, x),
        occurs_at(s, p + x.len(), y),
{
    let w = s.subrange(p, p + x.len() + y.len());
    assert(w == x + y);
    assert forall|i: int| 0 <= i < x.len() implies s.subrange(p, p + x.len())[i] == x[i] by {
        assert(w[i] == s[p + i]);
        assert((x + y)[i] == x[i]);
    }
    assert(s.subrange(p, p + x.len()) =~= x);
    assert forall|i: int| 0 <= i < y.len() implies s.subrange(p + x.len(), p + x.len() + y.len())[i] == y[i] by {
        assert(w[x.len() + i] == s[p + x.len() + i]);
        assert((x + y)[x.len() + i] == y[i]);
    }
    assert(s.subrange(p + x.len(), p + x.len() + y.len()) =~= y);
}

proof fn lemma_occurs_char(s: Seq<char>, p: int, x: Seq<char>, i: int)
    requires
        occurs_at(s, p, x),
        0 <= i < x.len(),
    ensures
        s[p + i] == x[i],
{
    assert(s.subrange(p, p + x.len())[i] == s[p + i]);
}

proof fn lemma_find_at(s: Seq<char>, p: int, k: int, c: char)
    requires
        0 <= p <= k < s.len(),
        s[k] == c,
        forall|j: int| p <= j < k ==> s[j] != c,
    ensures
        find_from(s, p, c) == k,
    decreases k - p,
{
    if p < k {
        lemma_find_at(s, p + 1, k, c);
    }
}

proof fn lemma_no_space(x: Seq<char>, p: int)
    requires
        0 <= p <= x.len(),
        forall|i: int| p <= i < x.len() ==> !xml_space(#[trigger] x[i]),
    ensures
        first_space(x, p) == x.len(),
    decreases x.len() - p,
{
    if p < x.len() {
        lemma_no_space(x, p + 1);
    }
}

/// A name without `>` or white space, as a tag reads it.
pub open spec fn plain_name(n: Seq<char>) -> bool {
    &&& n.len() > 0
    &&& forall|i: int| 0 <= i < n.len() ==> (#[trigger] n[i]) != '>' && !xml_space(n[i])
}

proof fn lemma_open_token(s: Seq<char>, p: int, n: Seq<char>)
    requires
        occurs_at(s, p, open_tag(n)),
        plain_name(n),
        n[0] != '/' && n[0] != '?' && n[0] != '!',
        n.last() != '/',
    ensures
        next_token(s, p) == Some((Tok::Open(n), p + n.len() + 2)),
{
    reveal_strlit("<");
    reveal_strlit(">");
    let x = open_tag(n);
    lemma_occurs_char(s, p, x, 0);
    assert forall|j: int| p + 1 <= j < p + 1 + n.len() implies s[j] != '>' by {
        lemma_occurs_char(s, p, x, j - p);
        assert(x[j - p] == n[j - p - 1]);
    }
    lemma_occurs_char(s, p, x, n.len() + 1 as int);
    lemma_find_at(s, p + 1, p + 1 + n.len(), '>');
    assert(s.subrange(p + 1, p + 1 + n.len()) =~= n) by {
        assert forall|i: int| 0 <= i < n.len() implies s.subrange(p + 1, p + 1 + n.len())[i] == n[i] by {
            lemma_occurs_char(s, p, x, i + 1);
        }
    }
    lemma_no_space(n, 0);
    assert(n.take(n.len() as int) =~= n);
}

proof fn lemma_close_token(s: Seq<char>, p: int, n: Seq<char>)
    requires
        occurs_at(s, p, close_tag(n)),
        plain_name(n),
    ensures
        next_token(s, p) == Some((Tok::Close(n), p + n.len() + 3)),
{
    reveal_strlit("</");
    reveal_strlit(">");
    let x = close_tag(n);
    lemma_occurs_char(s, p, x, 0);
    lemma_occurs_char(s, p, x, 1);
    assert forall|j: int| p + 1 <= j < p + 2 + n.len() implies s[j] != '>' by {
        lemma_occurs_char(s, p, x, j - p);
    }
    lemma_occurs_char(s, p, x, n.len() + 2 as int);
    lemma_find_at(s, p + 1, p + 2 + n.len(), '>');
    let inner = s.subrange(p + 1, p + 2 + n.len());
    assert(inner.drop_first() =~= n) by {
        assert forall|i: int| 0 <= i < n.len() implies inner.drop_first()[i] == n[i] by {
            lemma_occurs_char(s, p, x, i + 2);
        }
    }
    lemma_no_space(n, 0);
    assert(n.take(n.len() as int) =~= n);
}

proof fn lemma_text_token(s: Seq<char>, p: int, t: Seq<char>)
    requires
        occurs_at(s, p, t),
        t.len() > 0,
        p + t.len() < s.len(),
        s[p + t.len()] == '<',
        forall|i: int| 0 <= i < t.len() ==> (#[trigger] t[i]) != '<' && !xml_space(t[i]),
    ensures
        next_token(s, p) == Some((Tok::Text(t), p + t.len())),
{
    lemma_occurs_char(s, p, t, 0);
    assert forall|j: int| p <= j < p + t.len() implies s[j] != '<' by {
        lemma_occurs_char(s, p, t, j - p);
    }
    lemma_find_at(s, p, p + t.len(), '<');
    assert(s.subrange(p, p + t.len()) == t);
}

proof fn lemma_advance(s: Seq<char>, p: int, m: Machine, t: Tok, q: int, m2: Machine)
    requires
        0 <= p < s.len(),
        next_token(s, p) == Some((t, q)),
        p < q <= s.len(),
        step(m, t) == Some(m2),
    ensures
        parse_from(s, p, m) == parse_from(s, q, m2),
{
}

proof fn lemma_escaped_plain(h: Seq<char>)
    requires
        forall|i: int| 0 <= i < h.len() ==> !is_markup_char(#[trigger] h[i]),
    ensures
        escaped(h) == h,
    decreases h.len(),
{
    if h.len() > 0 {
        lemma_escaped_plain(h.drop_last());
        assert(h.drop_last() + seq![h.last()] =~= h);
    }
}

proof fn lemma_literals()
    ensures
        plain_name("users"@) && plain_name("user"@) && plain_name("username"@) && plain_name("password"@)
            && plain_name("isadmin"@),
        "users"@ != "user"@ && "users"@ != "username"@ && "users"@ != "password"@ && "users"@ != "isadmin"@,
        "user"@ != "username"@ && "user"@ != "password"@ && "user"@ != "isadmin"@,
        "username"@ != "password"@ && "username"@ != "isadmin"@ && "password"@ != "isadmin"@,
        "users"@[0] != '/' && "users"@[0] != '?' && "users"@[0] != '!' && "users"@.last() != '/',
        "user"@[0] != '/' && "user"@[0] != '?' && "user"@[0] != '!' && "user"@.last() != '/',
        "username"@[0] != '/' && "username"@[0] != '?' && "username"@[0] != '!' && "username"@.last() != '/',
        "password"@[0] != '/' && "password"@[0] != '?' && "password"@[0] != '!' && "password"@.last() != '/',
        "isadmin"@[0] != '/' && "isadmin"@[0] != '?' && "isadmin"@[0] != '!' && "isadmin"@.last() != '/',
        is_yes("yes"@) && !is_yes("no"@),
        !"yes"@.contains('&') && !"no"@.contains('&'),
        "yes"@.len() > 0 && "no"@.len() > 0,
        forall|i: int| 0 <= i < "yes"@.len() ==> (#[trigger] "yes"@[i]) != '<' && !xml_space("yes"@[i]),
        forall|i: int| 0 <= i < "no"@.len() ==> (#[trigger] "no"@[i]) != '<' && !xml_space("no"@[i]),
        "</"@[0] == '<',
{
    reveal_strlit("users");
    reveal_strlit("user");
    reveal_strlit("username");
    reveal_strlit("password");
    reveal_strlit("isadmin");
    reveal_strlit("yes");
    reveal_strlit("no");
    reveal_strlit("</");
    assert("users"@.len() != "user"@.len());
    assert("users"@.len() != "username"@.len());
    assert("users"@.len() != "password"@.len());
    assert("users"@.len() != "isadmin"@.len());
    assert("user"@.len() != "username"@.len());
    assert("user"@.len() != "password"@.len());
    assert("user"@.len() != "isadmin"@.len());
    assert("username"@[0] != "password"@[0]);
    assert("username"@.len() != "isadmin"@.len());
    assert("password"@.len() != "isadmin"@.len());
}

/// The reader's state between records: nothing is half read.
pub open spec fn between_records(m: Machine) -> bool {
    !m.in_user && m.name is None && m.pw is None && m.adm is None && !m.in_name && !m.in_pw && !m.in_adm
}

/// The tokens of `<f>t</f>` at `p`, read inside a record: `t` lands in
/// the field that `open` marks, and `close` clears the mark again.
proof fn lemma_field(s: Seq<char>, p: int, f: Seq<char>, t: Seq<char>, m: Machine, m1: Machine, m2: Machine, m3: Machine)
    requires
        occurs_at(s, p, element(f, t)),
        plain_name(f),
        f[0] != '/' && f[0] != '?' && f[0] != '!',
        f.last() != '/',
        t.len() > 0,
        forall|i: int| 0 <= i < t.len() ==> (#[trigger] t[i]) != '<' && !xml_space(t[i]),
        step(m, Tok::Open(f)) == Some(m1),
        step(m1, Tok::Text(t)) == Some(m2),
        step(m2, Tok::Close(f)) == Some(m3),
    ensures
        parse_from(s, p, m) == parse_from(s, p + element(f, t).len(), m3),
{
    reveal_strlit("<");
    reveal_strlit(">");
    reveal_strlit("</");
    lemma_occurs_split(s, p, open_tag(f) + t, close_tag(f));
    lemma_occurs_split(s, p, open_tag(f), t);
    let p1 = p + open_tag(f).len();
    let p2 = p1 + t.len();
    let p3 = p2 + close_tag(f).len();
    lemma_open_token(s, p, f);
    lemma_occurs_char(s, p2, close_tag(f), 0);
    lemma_text_token(s, p1, t);
    lemma_close_token(s, p2, f);
    lemma_advance(s, p2, m2, Tok::Close(f), p3, m3);
    lemma_advance(s, p1, m1, Tok::Text(t), p2, m2);
    lemma_advance(s, p, m, Tok::Open(f), p1, m1);
}

proof fn lemma_record(s: Seq<char>, p: int, u: UserRec, m: Machine)
    requires
        storable(u),
        occurs_at(s, p, record_text(u)),
        between_records(m),
    ensures
        parse_from(s, p, m) == parse_from(s, p + record_text(u).len(), Machine { out: m.out.push(u), ..m }),
{
    reveal_strlit("<");
    reveal_strlit(">");
    reveal_strlit("</");
    lemma_literals();
    let n = u.username;
    let h = u.password_hash;
    let a = admin_text(u.is_admin);
    let us = "user"@;
    let nm = "username"@;
    let pw = "password"@;
    let ad = "isadmin"@;
    lemma_valid_name_as_text(n);
    lemma_escaped_plain(n);
    lemma_escaped_plain(h);
    assert(!n.contains('&'));
    assert(!h.contains('&'));
    let e0 = element(nm, n);
    let e1 = element(pw, h);
    let e2 = element(ad, a);
    assert(record_text(u) == open_tag(us) + (e0 + e1 + e2) + close_tag(us));
    lemma_occurs_split(s, p, open_tag(us) + (e0 + e1 + e2), close_tag(us));
    lemma_occurs_split(s, p, open_tag(us), e0 + e1 + e2);
    let p1 = p + open_tag(us).len();
    lemma_occurs_split(s, p1, e0 + e1, e2);
    lemma_occurs_split(s, p1, e0, e1);
    let p2 = p1 + e0.len();
    let p3 = p2 + e1.len();
    let p4 = p3 + e2.len();
    let p5 = p4 + close_tag(us).len();
    assert(p5 == p + record_text(u).len());
    lemma_open_token(s, p, us);
    lemma_close_token(s, p4, us);
    let m1 = Machine {
        in_user: true,
        name: None,
        pw: None,
        adm: None,
        in_name: false,
        in_pw: false,
        in_adm: false,
        stack: m.stack.push(us),
        ..m
    };
    let a1 = Machine { in_name: true, stack: m1.stack.push(nm), ..m1 };
    let a2 = Machine { name: Some(n), ..a1 };
    let a3 = Machine { in_name: false, stack: m1.stack, ..a2 };
    let b1 = Machine { in_pw: true, stack: m1.stack.push(pw), ..a3 };
    let b2 = Machine { pw: Some(h), ..b1 };
    let b3 = Machine { in_pw: false, stack: m1.stack, ..b2 };
    let c1 = Machine { in_adm: true, stack: m1.stack.push(ad), ..b3 };
    let c2 = Machine { adm: Some(u.is_admin), ..c1 };
    let c3 = Machine { in_adm: false, stack: m1.stack, ..c2 };
    let m9 = Machine { out: m.out.push(u), ..m };
    assert(m1.stack.push(nm).drop_last() =~= m1.stack);
    assert(m1.stack.push(pw).drop_last() =~= m1.stack);
    assert(m1.stack.push(ad).drop_last() =~= m1.stack);
    assert(m.stack.push(us).drop_last() =~= m.stack);
    assert(step(m, Tok::Open(us)) == Some(m1));
    assert(step(m1, Tok::Open(nm)) == Some(a1));
    assert(step(a1, Tok::Text(n)) == Some(a2));
    assert(step(a2, Tok::Close(nm)) == Some(a3));
    assert(step(a3, Tok::Open(pw)) == Some(b1));
    assert(step(b1, Tok::Text(h)) == Some(b2));
    assert(step(b2, Tok::Close(pw)) == Some(b3));
    assert(step(b3, Tok::Open(ad)) == Some(c1));
    assert(step(c1, Tok::Text(a)) == Some(c2));
    assert(step(c2, Tok::Close(ad)) == Some(c3));
    assert(UserRec { username: n, password_hash: h, is_admin: u.is_admin } == u);
    assert(step(c3, Tok::Close(us)) == Some(m9));
    lemma_field(s, p1, nm, n, m1, a1, a2, a3);
    lemma_field(s, p2, pw, h, a3, b1, b2, b3);
    lemma_field(s, p3, ad, a, b3, c1, c2, c3);
    lemma_advance(s, p4, c3, Tok::Close(us), p5, m9);
    lemma_advance(s, p, m, Tok::Open(us), p1, m1);
}

proof fn lemma_records(s: Seq<char>, p: int, rs: Seq<UserRec>, m: Machine)
    requires
        forall|i: int| 0 <= i < rs.len() ==> storable(#[trigger] rs[i]),
        occurs_at(s, p, records_text(rs)),
        between_records(m),
    ensures
        parse_from(s, p, m) == parse_from(s, p + records_text(rs).len(), Machine { out: m.out + rs, ..m }),
    decreases rs.len(),
{
    if rs.len() == 0 {
        assert(m.out + rs =~= m.out);
    } else {
        let init = rs.drop_last();
        lemma_occurs_split(s, p, records_text(init), record_text(rs.last()));
        lemma_records(s, p, init, m);
        let mi = Machine { out: m.out + init, ..m };
        lemma_record(s, p + records_text(init).len(), rs.last(), mi);
        assert((m.out + init).push(rs.last()) =~= m.out + rs);
    }
}

/// Reading back the stored text of records gives the same records, in the
/// same order, for every record whose name may be given to an account and
/// whose digest holds neither white space nor markup characters.
pub proof fn lemma_round_trip(rs: Seq<UserRec>)
    requires
        forall|i: int| 0 <= i < rs.len() ==> storable(#[trigger] rs[i]),
    ensures
        decoded(store_text(rs)) == Some(rs),
{
    reveal_strlit("<");
    reveal_strlit(">");
    reveal_strlit("</");
    lemma_literals();
    let s = store_text(rs);
    let us = "users"@;
    let body = records_text(rs);
    assert(s == open_tag(us) + body + close_tag(us));
    assert(occurs_at(s, 0, s)) by {
        assert(s.subrange(0, s.len() as int) =~= s);
    }
    lemma_occurs_split(s, 0, open_tag(us) + body, close_tag(us));
    lemma_occurs_split(s, 0, open_tag(us), body);
    let p1 = open_tag(us).len() as int;
    let p2 = p1 + body.len();
    let m0 = initial_machine();
    let m1 = Machine { stack: seq![us], ..m0 };
    assert(m0.stack.push(us) =~= seq![us]);
    lemma_open_token(s, 0, us);
    assert(step(m0, Tok::Open(us)) == Some(m1));
    lemma_advance(s, 0, m0, Tok::Open(us), p1, m1);
    lemma_records(s, p1, rs, m1);
    let m2 = Machine { out: m1.out + rs, ..m1 };
    assert(m1.out + rs =~= rs);
    lemma_close_token(s, p2, us);
    let m3 = Machine { stack: Seq::empty(), ..m2 };
    assert(seq![us].drop_last() =~= Seq::<Seq<char>>::empty());
    assert(step(m2, Tok::Close(us)) == Some(m3));
    lemma_advance(s, p2, m2, Tok::Close(us), s.len() as int, m3);
}

} // verus!
