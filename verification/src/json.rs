//! JSON texts put together by hand, and how their strings are read back.

use crate::text::{cat, is_control, is_ctl, replace, replaced, to_chars};
use vstd::prelude::*;
use vstd::string::*;

verus! {

/// A hexadecimal digit in lower case.
pub open spec fn hex_digit_char(d: int) -> char {
    if d < 10 {
        ((48 + d) as u8) as char
    } else {
        ((87 + d) as u8) as char
    }
}

/// Four hexadecimal digits.
pub open spec fn hex4(n: u32) -> Seq<char> {
    seq![
        hex_digit_char((n / 4096 % 16) as int),
        hex_digit_char((n / 256 % 16) as int),
        hex_digit_char((n / 16 % 16) as int),
        hex_digit_char((n % 16) as int),
    ]
}

/// How a character is written inside a string.
pub open spec fn escaped_char(c: char) -> Seq<char> {
    if c == '"' {
        seq!['\\', '"']
    } else if c == '\\' {
        seq!['\\', '\\']
    } else if c == '\n' {
        seq!['\\', 'n']
    } else if c == '\r' {
        seq!['\\', 'r']
    } else if c == '\t' {
        seq!['\\', 't']
    } else if is_ctl(c) {
        seq!['\\', 'u'] + hex4(c as u32)
    } else {
        seq![c]
    }
}

/// How a text is written inside a string.
pub open spec fn escaped(s: Seq<char>) -> Seq<char>
    decreases s.len(),
{
    if s.len() == 0 {
        seq![]
    } else {
        escaped(s.drop_last()) + escaped_char(s.last())
    }
}

fn hex_digit_of(d: u32) -> (r: char)
    requires
        d < 16,
    ensures
        r == hex_digit_char(d as int),
{
    if d < 10 {
        (48 + d as u8) as char
    } else {
        (87 + d as u8) as char
    }
}

/// Escapes a text for a string: quotes and backslashes, line feeds, carriage returns and tabs by
/// a letter, other control characters by number.
pub fn json_esc(s: &str) -> (r: String)
    ensures
        r@ == escaped(s@),
{
    let v = to_chars(s);
    let mut out = String::new();
    let mut i: usize = 0;
    assert(s@.take(0) == Seq::<char>::empty());
    assert(out@ == escaped(s@.take(0)));
    while i < v.len()
        invariant
            v@ == s@,
            i <= v@.len(),
            out@ == escaped(s@.take(i as int)),
        decreases v@.len() - i,
    {
        let c = v[i];
        let ghost before = out@;
        assert(s@.take(i + 1).drop_last() == s@.take(i as int));
        assert(s@.take(i + 1).last() == c);
        if c == '"' {
            out.push('\\');
            out.push('"');
        } else if c == '\\' {
            out.push('\\');
            out.push('\\');
        } else if c == '\n' {
            out.push('\\');
            out.push('n');
        } else if c == '\r' {
            out.push('\\');
            out.push('r');
        } else if c == '\t' {
            out.push('\\');
            out.push('t');
        } else if is_control(c) {
            let n: u32 = c as u32;
            out.push('\\');
            out.push('u');
            out.push(hex_digit_of(n / 4096 % 16));
            out.push(hex_digit_of(n / 256 % 16));
            out.push(hex_digit_of(n / 16 % 16));
            out.push(hex_digit_of(n % 16));
            assert(out@ == before + (seq!['\\', 'u'] + hex4(n)));
        } else {
            out.push(c);
        }
        assert(out@ == before + escaped_char(c));
        i = i + 1;
    }
    assert(s@.take(i as int) == s@);
    out
}

/// What a string is read back as: the escapes of quotes and backslashes are undone.
pub open spec fn read_back(s: Seq<char>) -> Seq<char> {
    replaced(replaced(s, seq!['\\', '"'], seq!['"']), seq!['\\', '\\'], seq!['\\'])
}

/// Undoes the escapes of quotes and backslashes.
pub fn json_unesc(s: &str) -> (r: String)
    ensures
        r@ == read_back(s@),
{
    proof {
        reveal_strlit("\\\"");
        reveal_strlit("\"");
        reveal_strlit("\\\\");
        reveal_strlit("\\");
        assert("\\\""@ == seq!['\\', '"']);
        assert("\""@ == seq!['"']);
        assert("\\\\"@ == seq!['\\', '\\']);
        assert("\\"@ == seq!['\\']);
    }
    let a = replace(s, "\\\"", "\"");
    replace(a.as_str(), "\\\\", "\\")
}

/// Whether no control character occurs.
pub open spec fn is_printable(s: Seq<char>) -> bool {
    forall|i: int| 0 <= i < s.len() ==> !is_ctl(#[trigger] s[i])
}

/// The escaped form, taken from the front.
pub proof fn lemma_escaped_front(s: Seq<char>)
    requires
        s.len() > 0,
    ensures
        escaped(s) == escaped_char(s[0]) + escaped(s.skip(1)),
    decreases s.len(),
{
    if s.len() == 1 {
        assert(s.drop_last() == Seq::<char>::empty());
        assert(s.skip(1) == Seq::<char>::empty());
        assert(escaped(Seq::<char>::empty()) == Seq::<char>::empty());
    } else {
        let t = s.drop_last();
        lemma_escaped_front(t);
        assert(t.skip(1) == s.skip(1).drop_last());
        assert(t[0] == s[0]);
        assert(s.skip(1).last() == s.last());
        assert(escaped_char(s[0]) + escaped(t.skip(1)) + escaped_char(s.last()) == escaped_char(
            s[0],
        ) + (escaped(t.skip(1)) + escaped_char(s.last())));
    }
}

/// The text with every backslash doubled.
spec fn doubled(s: Seq<char>) -> Seq<char>
    decreases s.len(),
{
    if s.len() == 0 {
        s
    } else if s[0] == '\\' {
        seq!['\\', '\\'] + doubled(s.skip(1))
    } else {
        seq![s[0]] + doubled(s.skip(1))
    }
}

proof fn lemma_quotes_undone(s: Seq<char>)
    requires
        is_printable(s),
    ensures
        replaced(escaped(s), seq!['\\', '"'], seq!['"']) == doubled(s),
        escaped(s).len() > 0 ==> escaped(s)[0] != '"',
    decreases s.len(),
{
    let p = seq!['\\', '"'];
    let t = seq!['"'];
    if s.len() > 0 {
        let q = s.skip(1);
        assert(is_printable(q)) by {
            assert forall|i: int| 0 <= i < q.len() implies !is_ctl(#[trigger] q[i]) by {
                assert(q[i] == s[i + 1]);
            }
        }
        lemma_quotes_undone(q);
        lemma_escaped_front(s);
        let e = escaped(s);
        let f = escaped(q);
        assert(!is_ctl(s[0]));
        if s[0] == '"' {
            assert(e.take(2) == p);
            assert(e.skip(2) == f);
        } else if s[0] == '\\' {
            assert(e.take(2)[1] != p[1]);
            let g = e.skip(1);
            assert(g.skip(1) == f);
            if g.len() >= 2 {
                assert(g.take(2)[1] == f[0]);
                assert(g.take(2) != p);
                assert(replaced(g, p, t) == seq!['\\'] + replaced(f, p, t));
            } else {
                assert(f.len() == 0);
                assert(replaced(g, p, t) == g);
                assert(g == seq!['\\'] + f);
            }
            assert(replaced(e, p, t) == seq!['\\'] + replaced(g, p, t));
            assert(seq!['\\'] + (seq!['\\'] + doubled(q)) == seq!['\\', '\\'] + doubled(q));
        } else {
            assert(e == seq![s[0]] + f);
            assert(e.skip(1) == f);
            if e.len() >= 2 {
                assert(e.take(2)[0] == s[0]);
                assert(e.take(2) != p);
            } else {
                assert(f.len() == 0);
                assert(replaced(f, p, t) == f);
            }
        }
    }
}

proof fn lemma_backslashes_undone(s: Seq<char>)
    ensures
        replaced(doubled(s), seq!['\\', '\\'], seq!['\\']) == s,
    decreases s.len(),
{
    let p = seq!['\\', '\\'];
    let t = seq!['\\'];
    if s.len() > 0 {
        let q = s.skip(1);
        lemma_backslashes_undone(q);
        let d = doubled(s);
        let f = doubled(q);
        if s[0] == '\\' {
            assert(d.take(2) == p);
            assert(d.skip(2) == f);
            assert(t + q == s);
        } else {
            assert(d.skip(1) == f);
            if d.len() >= 2 {
                assert(d.take(2)[0] == s[0]);
                assert(d.take(2) != p);
            } else {
                assert(f.len() == 0);
                assert(replaced(f, p, t) == f);
            }
            assert(seq![s[0]] + q == s);
        }
    }
}

/// A text without control characters is read back from its escaped form.
pub proof fn law_escaped_text_is_read_back(s: Seq<char>)
    requires
        is_printable(s),
    ensures
        read_back(escaped(s)) == s,
{
    lemma_quotes_undone(s);
    lemma_backslashes_undone(s);
}

/// Where the string that starts at the front of `s` ends: at the first quote that no backslash
/// comes before, or with the text. Nothing where the text breaks off behind a backslash.
pub open spec fn string_end(s: Seq<char>) -> Option<int>
    decreases s.len(),
{
    if s.len() == 0 || s[0] == '"' {
        Some(0)
    } else if s[0] == '\\' {
        if s.len() == 1 {
            None
        } else {
            match string_end(s.skip(2)) {
                Some(n) => Some(n + 2),
                None => None,
            }
        }
    } else {
        match string_end(s.skip(1)) {
            Some(n) => Some(n + 1),
            None => None,
        }
    }
}

pub proof fn lemma_string_end(s: Seq<char>)
    ensures
        string_end(s) matches Some(n) ==> 0 <= n <= s.len(),
    decreases s.len(),
{
    if s.len() > 0 && s[0] != '"' {
        if s[0] == '\\' {
            if s.len() > 1 {
                lemma_string_end(s.skip(2));
            }
        } else {
            lemma_string_end(s.skip(1));
        }
    }
}

/// An escaped text ends where the quote behind it stands.
pub proof fn lemma_escaped_ends(s: Seq<char>, rest: Seq<char>)
    requires
        is_printable(s),
    ensures
        string_end(escaped(s) + seq!['"'] + rest) == Some(escaped(s).len() as int),
    decreases s.len(),
{
    let e = escaped(s);
    let whole = e + seq!['"'] + rest;
    if s.len() == 0 {
        assert(whole[0] == '"');
    } else {
        let q = s.skip(1);
        assert(is_printable(q)) by {
            assert forall|i: int| 0 <= i < q.len() implies !is_ctl(#[trigger] q[i]) by {
                assert(q[i] == s[i + 1]);
            }
        }
        lemma_escaped_ends(q, rest);
        lemma_escaped_front(s);
        let f = escaped(q);
        assert(!is_ctl(s[0]));
        let tail = f + seq!['"'] + rest;
        if s[0] == '"' || s[0] == '\\' {
            assert(whole[0] == '\\');
            assert(whole.skip(2) == tail);
        } else {
            assert(whole[0] == s[0]);
            assert(whole.skip(1) == tail);
        }
    }
}

/// Finds where the string that starts at `from` ends.
pub fn find_string_end(v: &Vec<char>, from: usize) -> (r: Option<usize>)
    requires
        from <= v@.len(),
    ensures
        r is Some <==> string_end(v@.skip(from as int)) is Some,
        r matches Some(p) ==> from <= p <= v@.len() && string_end(v@.skip(from as int)) == Some(
            p - from,
        ),
{
    let ghost s = v@.skip(from as int);
    let mut p: usize = from;
    while p < v.len() && v[p] != '"'
        invariant
            s == v@.skip(from as int),
            from <= p <= v@.len(),
            string_end(s) == (match string_end(v@.skip(p as int)) {
                Some(n) => Some(n + p - from),
                None => None,
            }),
        decreases v@.len() - p,
    {
        let ghost t = v@.skip(p as int);
        assert(t[0] == v@[p as int]);
        if v[p] == '\\' {
            if p + 1 >= v.len() {
                return None;
            }
            assert(t.skip(2) == v@.skip(p + 2));
            p = p + 2;
        } else {
            assert(t.skip(1) == v@.skip(p + 1));
            p = p + 1;
        }
    }
    Some(p)
}

pub open spec fn bool_name(b: bool) -> Seq<char> {
    if b {
        "true"@
    } else {
        "false"@
    }
}

/// `true` or `false`.
pub fn bool_text(b: bool) -> (r: String)
    ensures
        r@ == bool_name(b),
{
    if b {
        "true".to_owned()
    } else {
        "false".to_owned()
    }
}

/// A member of an object: its name and what it is.
pub open spec fn raw_member(key: Seq<char>, value: Seq<char>) -> Seq<char> {
    "\""@ + key + "\":"@ + value
}

/// A member of an object that is a string.
pub open spec fn text_member(key: Seq<char>, value: Seq<char>) -> Seq<char> {
    "\""@ + key + "\":\""@ + escaped(value) + "\""@
}

/// Writes a member whose value is written already.
pub fn raw_member_text(key: &str, value: &str) -> (r: String)
    ensures
        r@ == raw_member(key@, value@),
{
    cat(cat(cat("\"".to_owned(), key), "\":"), value)
}

/// Writes a member that is a string.
pub fn text_member_text(key: &str, value: &str) -> (r: String)
    ensures
        r@ == text_member(key@, value@),
{
    cat(cat(cat(cat("\"".to_owned(), key), "\":\""), json_esc(value).as_str()), "\"")
}

/// A member is its name between quotes, a colon and its value; a text stands between quotes of its
/// own, and what has a meaning of its own in it is escaped.
pub proof fn law_members(key: Seq<char>, value: Seq<char>)
    ensures
        raw_member(key, value) == seq!['"'] + key + seq!['"', ':'] + value,
        text_member(key, value) == raw_member(key, seq!['"'] + escaped(value) + seq!['"']),
        bool_name(true) == seq!['t', 'r', 'u', 'e'],
        bool_name(false) == seq!['f', 'a', 'l', 's', 'e'],
{
    reveal_strlit("\"");
    reveal_strlit("\":");
    reveal_strlit("\":\"");
    reveal_strlit("true");
    reveal_strlit("false");
    assert(bool_name(true) =~= seq!['t', 'r', 'u', 'e']);
    assert(bool_name(false) =~= seq!['f', 'a', 'l', 's', 'e']);
    assert(raw_member(key, value) =~= seq!['"'] + key + seq!['"', ':'] + value);
    assert(text_member(key, value) =~= raw_member(key, seq!['"'] + escaped(value) + seq!['"']));
}

} // verus!
