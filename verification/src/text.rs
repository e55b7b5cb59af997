//! Text as sequences of characters: the pieces of string handling that the rest of the
//! crate is written in, each with a mathematical statement of what it returns.

use vstd::prelude::*;
use vstd::string::*;
use vstd::utf8::*;

verus! {

/// `String::push`: the character is added at the end.
pub assume_specification[ String::push ](s: &mut String, c: char)
    ensures
        final(s)@ == old(s)@.push(c),
;

/// The characters of a string, one by one.
pub fn to_chars(s: &str) -> (r: Vec<char>)
    ensures
        r@ == s@,
{
    let mut out: Vec<char> = Vec::new();
    for c in it: s.chars()
        invariant
            it.seq() == s@,
            out@ == it.seq().take(it.index()),
    {
        out.push(c);
    }
    assert(s@.take(s@.len() as int) == s@);
    out
}

/// The string made of the characters `i..j`.
pub fn from_chars(v: &Vec<char>, i: usize, j: usize) -> (r: String)
    requires
        i <= j <= v@.len(),
    ensures
        r@ == v@.subrange(i as int, j as int),
{
    let mut out = String::new();
    let mut k: usize = i;
    while k < j
        invariant
            i <= k <= j <= v@.len(),
            out@ == v@.subrange(i as int, k as int),
        decreases j - k,
    {
        out.push(v[k]);
        k = k + 1;
        assert(out@ == v@.subrange(i as int, k as int));
    }
    out
}

/// Number of bytes that the text takes in UTF-8.
pub open spec fn byte_len(s: Seq<char>) -> nat {
    encode_utf8(s).len()
}

/// Length in bytes, as `str::len` counts it.
pub fn len_bytes(s: &str) -> (r: usize)
    ensures
        r == byte_len(s@),
{
    s.as_bytes().len()
}

/// Whether two strings hold the same characters.
pub fn str_eq(a: &str, b: &str) -> (r: bool)
    ensures
        r == (a@ == b@),
{
    let x = a.as_bytes();
    let y = b.as_bytes();
    proof {
        encode_utf8_decode_utf8(a@);
        encode_utf8_decode_utf8(b@);
    }
    if x.len() != y.len() {
        return false;
    }
    let mut i: usize = 0;
    while i < x.len()
        invariant
            x@ == encode_utf8(a@),
            y@ == encode_utf8(b@),
            x@.len() == y@.len(),
            i <= x@.len(),
            x@.take(i as int) == y@.take(i as int),
        decreases x@.len() - i,
    {
        if x[i] != y[i] {
            return false;
        }
        i = i + 1;
        assert(x@.take(i as int) == x@.take(i - 1).push(x@[i - 1]));
        assert(y@.take(i as int) == y@.take(i - 1).push(y@[i - 1]));
    }
    assert(x@.take(i as int) == x@);
    assert(y@.take(i as int) == y@);
    true
}

/// The characters with the Unicode property `White_Space`.
pub open spec fn is_white(c: char) -> bool {
    let n = c as u32;
    ||| 0x09 <= n <= 0x0d
    ||| n == 0x20
    ||| n == 0x85
    ||| n == 0xa0
    ||| n == 0x1680
    ||| 0x2000 <= n <= 0x200a
    ||| n == 0x2028
    ||| n == 0x2029
    ||| n == 0x202f
    ||| n == 0x205f
    ||| n == 0x3000
}

/// Whether `c` is white space.
pub fn is_whitespace(c: char) -> (r: bool)
    ensures
        r == is_white(c),
{
    let n: u32 = c as u32;
    (0x09 <= n && n <= 0x0d) || n == 0x20 || n == 0x85 || n == 0xa0 || n == 0x1680 || (0x2000 <= n
        && n <= 0x200a) || n == 0x2028 || n == 0x2029 || n == 0x202f || n == 0x205f || n == 0x3000
}

/// The characters of the Unicode category `Cc`.
pub open spec fn is_ctl(c: char) -> bool {
    c as u32 <= 0x1f || 0x7f <= c as u32 <= 0x9f
}

/// Whether `c` is a control character.
pub fn is_control(c: char) -> (r: bool)
    ensures
        r == is_ctl(c),
{
    let n: u32 = c as u32;
    n <= 0x1f || (0x7f <= n && n <= 0x9f)
}

/// A set of characters to split at or to trim.
#[derive(Clone, Copy)]
pub enum Class {
    White,
    Is(char),
    Either(char, char),
    OneOf(char, char, char),
}

pub open spec fn in_class(k: Class, c: char) -> bool {
    match k {
        Class::White => is_white(c),
        Class::Is(a) => c == a,
        Class::Either(a, b) => c == a || c == b,
        Class::OneOf(a, b, d) => c == a || c == b || c == d,
    }
}

/// Whether `c` belongs to the class.
pub fn class_has(k: Class, c: char) -> (r: bool)
    ensures
        r == in_class(k, c),
{
    match k {
        Class::White => is_whitespace(c),
        Class::Is(a) => c == a,
        Class::Either(a, b) => c == a || c == b,
        Class::OneOf(a, b, d) => c == a || c == b || c == d,
    }
}

/// `s` without the characters of the class at its start.
pub open spec fn trim_front(s: Seq<char>, k: Class) -> Seq<char>
    decreases s.len(),
{
    if s.len() > 0 && in_class(k, s[0]) {
        trim_front(s.skip(1), k)
    } else {
        s
    }
}

/// `s` without the characters of the class at its end.
pub open spec fn trim_back(s: Seq<char>, k: Class) -> Seq<char>
    decreases s.len(),
{
    if s.len() > 0 && in_class(k, s.last()) {
        trim_back(s.drop_last(), k)
    } else {
        s
    }
}

/// `s` without the characters of the class at either end.
pub open spec fn trim_both(s: Seq<char>, k: Class) -> Seq<char> {
    trim_back(trim_front(s, k), k)
}

/// `s` without white space at either end.
pub open spec fn trimmed(s: Seq<char>) -> Seq<char> {
    trim_both(s, Class::White)
}

/// Cuts the characters of the class off both ends.
pub fn trim_class(s: &str, k: Class) -> (r: String)
    ensures
        r@ == trim_both(s@, k),
{
    let v = to_chars(s);
    let mut i: usize = 0;
    assert(v@.skip(0) == v@);
    while i < v.len() && class_has(k, v[i])
        invariant
            i <= v@.len(),
            trim_front(v@.skip(i as int), k) == trim_front(v@, k),
        decreases v@.len() - i,
    {
        assert(v@.skip(i as int).skip(1) == v@.skip(i + 1));
        i = i + 1;
    }
    assert(trim_front(v@.skip(i as int), k) == v@.skip(i as int));
    let mut j: usize = v.len();
    assert(v@.subrange(i as int, j as int) == v@.skip(i as int));
    while j > i && class_has(k, v[j - 1])
        invariant
            i <= j <= v@.len(),
            trim_back(v@.subrange(i as int, j as int), k) == trim_back(v@.skip(i as int), k),
        decreases j,
    {
        assert(v@.subrange(i as int, j as int).drop_last() == v@.subrange(i as int, j - 1));
        j = j - 1;
    }
    assert(trim_back(v@.subrange(i as int, j as int), k) == v@.subrange(i as int, j as int));
    from_chars(&v, i, j)
}

/// Cuts the white space off both ends, as `str::trim` does.
pub fn trim(s: &str) -> (r: String)
    ensures
        r@ == trimmed(s@),
{
    trim_class(s, Class::White)
}

/// Cuts the white space off the end.
pub fn trim_end(s: &str) -> (r: String)
    ensures
        r@ == trim_back(s@, Class::White),
{
    let v = to_chars(s);
    let mut j: usize = v.len();
    assert(v@.subrange(0, j as int) == v@);
    while j > 0 && class_has(Class::White, v[j - 1])
        invariant
            j <= v@.len(),
            trim_back(v@.subrange(0, j as int), Class::White) == trim_back(v@, Class::White),
        decreases j,
    {
        assert(v@.subrange(0, j as int).drop_last() == v@.subrange(0, j - 1));
        j = j - 1;
    }
    assert(trim_back(v@.subrange(0, j as int), Class::White) == v@.subrange(0, j as int));
    from_chars(&v, 0, j)
}

/// Number of characters before the first one of the class; the whole length where there is none.
pub open spec fn prefix_len(s: Seq<char>, k: Class) -> int
    decreases s.len(),
{
    if s.len() == 0 || in_class(k, s[0]) {
        0
    } else {
        1 + prefix_len(s.skip(1), k)
    }
}

pub proof fn lemma_prefix_len(s: Seq<char>, k: Class)
    ensures
        0 <= prefix_len(s, k) <= s.len(),
        forall|i: int| 0 <= i < prefix_len(s, k) ==> !in_class(k, #[trigger] s[i]),
        prefix_len(s, k) < s.len() ==> in_class(k, s[prefix_len(s, k)]),
    decreases s.len(),
{
    if s.len() == 0 || in_class(k, s[0]) {
    } else {
        let t = s.skip(1);
        lemma_prefix_len(t, k);
        assert forall|i: int| 0 <= i < prefix_len(s, k) implies !in_class(k, #[trigger] s[i]) by {
            if i > 0 {
                assert(s[i] == t[i - 1]);
            }
        }
    }
}

/// The first character of the class stands where everything before it is outside the class.
pub proof fn lemma_prefix_len_is(s: Seq<char>, k: Class, n: int)
    requires
        0 <= n <= s.len(),
        forall|i: int| 0 <= i < n ==> !in_class(k, #[trigger] s[i]),
        n < s.len() ==> in_class(k, s[n]),
    ensures
        prefix_len(s, k) == n,
{
    lemma_prefix_len(s, k);
    let m = prefix_len(s, k);
    if m < n {
        assert(!in_class(k, s[m]));
    } else if n < m {
        assert(!in_class(k, s[n]));
    }
}

/// Position of the first character of the class at or after `from`; the length where there is none.
pub fn find_class(v: &Vec<char>, k: Class, from: usize) -> (r: usize)
    requires
        from <= v@.len(),
    ensures
        from <= r <= v@.len(),
        r == from + prefix_len(v@.skip(from as int), k),
        forall|i: int| from <= i < r ==> !in_class(k, #[trigger] v@[i]),
        r < v@.len() ==> in_class(k, v@[r as int]),
{
    let mut i: usize = from;
    while i < v.len() && !class_has(k, v[i])
        invariant
            from <= i <= v@.len(),
            forall|j: int| from <= j < i ==> !in_class(k, #[trigger] v@[j]),
        decreases v@.len() - i,
    {
        i = i + 1;
    }
    proof {
        let t = v@.skip(from as int);
        assert forall|j: int| 0 <= j < i - from implies !in_class(k, #[trigger] t[j]) by {
            assert(t[j] == v@[from + j]);
        }
        lemma_prefix_len_is(t, k, i - from);
    }
    i
}

/// The views of a list of strings.
pub open spec fn texts(v: Seq<String>) -> Seq<Seq<char>> {
    v.map_values(|s: String| s@)
}

/// The pieces of `s` between the characters of the class; there is always at least one.
pub open spec fn split_at_class(s: Seq<char>, k: Class) -> Seq<Seq<char>>
    decreases s.len(),
{
    let n = prefix_len(s, k);
    if n < 0 || n >= s.len() {
        seq![s]
    } else {
        seq![s.take(n)] + split_at_class(s.skip(n + 1), k)
    }
}

/// The first `limit - 1` pieces, and then the rest as it stands.
pub open spec fn splitn_at_class(s: Seq<char>, k: Class, limit: nat) -> Seq<Seq<char>>
    decreases limit,
{
    let n = prefix_len(s, k);
    if limit == 0 {
        seq![]
    } else if limit == 1 || n >= s.len() {
        seq![s]
    } else {
        seq![s.take(n)] + splitn_at_class(s.skip(n + 1), k, (limit - 1) as nat)
    }
}

/// Splits at each character of the class, as `str::split` does.
pub fn split_class(s: &str, k: Class) -> (r: Vec<String>)
    ensures
        texts(r@) == split_at_class(s@, k),
        r@.len() >= 1,
{
    let v = to_chars(s);
    let mut out: Vec<String> = Vec::new();
    let mut pos: usize = 0;
    assert(v@.skip(0) == v@);
    assert(texts(out@) + split_at_class(v@, k) == split_at_class(v@, k));
    loop
        invariant
            v@ == s@,
            pos <= v@.len(),
            texts(out@) + split_at_class(v@.skip(pos as int), k) == split_at_class(s@, k),
        decreases v@.len() - pos,
    {
        let ghost rest = v@.skip(pos as int);
        let n = find_class(&v, k, pos);
        let piece = from_chars(&v, pos, n);
        let ghost before = out@;
        out.push(piece);
        assert(texts(out@) == texts(before).push(piece@));
        if n >= v.len() {
            assert(piece@ == rest);
            assert(texts(before) + seq![rest] == texts(out@));
            return out;
        }
        assert(piece@ == rest.take(n - pos));
        assert(rest.skip(n - pos + 1) == v@.skip(n + 1));
        assert(texts(before) + (seq![piece@] + split_at_class(v@.skip(n + 1), k)) == texts(out@)
            + split_at_class(v@.skip(n + 1), k));
        pos = n + 1;
    }
}

/// Splits at the first `limit - 1` characters of the class, as `str::splitn` does.
pub fn splitn_class(s: &str, k: Class, limit: usize) -> (r: Vec<String>)
    requires
        limit >= 1,
    ensures
        texts(r@) == splitn_at_class(s@, k, limit as nat),
{
    let v = to_chars(s);
    let mut out: Vec<String> = Vec::new();
    let mut pos: usize = 0;
    let mut left: usize = limit;
    assert(v@.skip(0) == v@);
    assert(texts(out@) + splitn_at_class(v@, k, limit as nat) == splitn_at_class(v@, k, limit as nat));
    loop
        invariant
            v@ == s@,
            pos <= v@.len(),
            left >= 1,
            texts(out@) + splitn_at_class(v@.skip(pos as int), k, left as nat) == splitn_at_class(
                s@,
                k,
                limit as nat,
            ),
        decreases left,
    {
        let ghost rest = v@.skip(pos as int);
        let n = find_class(&v, k, pos);
        let ghost before = out@;
        if left == 1 || n >= v.len() {
            let piece = from_chars(&v, pos, v.len());
            out.push(piece);
            assert(texts(out@) == texts(before).push(piece@));
            assert(piece@ == rest);
            assert(texts(before) + seq![rest] == texts(out@));
            return out;
        }
        let piece = from_chars(&v, pos, n);
        out.push(piece);
        assert(texts(out@) == texts(before).push(piece@));
        assert(piece@ == rest.take(n - pos));
        assert(rest.skip(n - pos + 1) == v@.skip(n + 1));
        assert(texts(before) + (seq![piece@] + splitn_at_class(v@.skip(n + 1), k, (left - 1) as nat))
            == texts(out@) + splitn_at_class(v@.skip(n + 1), k, (left - 1) as nat));
        pos = n + 1;
        left = left - 1;
    }
}

/// The pieces that are not empty.
pub open spec fn nonempty(p: Seq<Seq<char>>) -> Seq<Seq<char>> {
    p.filter(|t: Seq<char>| t.len() > 0)
}

/// The runs of characters between white space.
pub open spec fn words_of(s: Seq<char>) -> Seq<Seq<char>> {
    nonempty(split_at_class(s, Class::White))
}

/// Drops the empty strings of a list.
pub fn keep_nonempty(v: Vec<String>) -> (r: Vec<String>)
    ensures
        texts(r@) == nonempty(texts(v@)),
{
    let mut out: Vec<String> = Vec::new();
    let mut i: usize = 0;
    proof {
        assert(texts(v@).take(0) == Seq::<Seq<char>>::empty());
        reveal(Seq::filter);
        assert(texts(out@) == nonempty(texts(v@).take(0)));
    }
    while i < v.len()
        invariant
            i <= v@.len(),
            texts(out@) == nonempty(texts(v@).take(i as int)),
        decreases v@.len() - i,
    {
        let ghost before = out@;
        if !v[i].as_str().is_empty() {
            out.push(v[i].clone());
            assert(texts(out@) == texts(before).push(v@[i as int]@));
        }
        proof {
            reveal(Seq::filter);
            assert(texts(v@).take(i + 1).drop_last() == texts(v@).take(i as int));
            assert(texts(v@).take(i + 1).last() == v@[i as int]@);
        }
        i = i + 1;
    }
    assert(texts(v@).take(i as int) == texts(v@));
    out
}

/// The words of a text, as `str::split_whitespace` gives them.
pub fn words(s: &str) -> (r: Vec<String>)
    ensures
        texts(r@) == words_of(s@),
{
    keep_nonempty(split_class(s, Class::White))
}

/// A line without the carriage return that belongs to its end.
pub open spec fn without_cr(s: Seq<char>) -> Seq<char> {
    if s.len() > 0 && s.last() == '\r' {
        s.drop_last()
    } else {
        s
    }
}

/// The lines of a text. A line ends with a line feed, which may follow a carriage return;
/// the last one may end with the text.
pub open spec fn lines_of(s: Seq<char>) -> Seq<Seq<char>>
    decreases s.len(),
{
    let n = prefix_len(s, Class::Is('\n'));
    if s.len() == 0 || n < 0 {
        seq![]
    } else if n >= s.len() {
        seq![s]
    } else {
        seq![without_cr(s.take(n))] + lines_of(s.skip(n + 1))
    }
}

/// The lines of a text, as `str::lines` gives them.
pub fn lines(s: &str) -> (r: Vec<String>)
    ensures
        texts(r@) == lines_of(s@),
{
    let v = to_chars(s);
    let mut out: Vec<String> = Vec::new();
    let mut pos: usize = 0;
    assert(v@.skip(0) == v@);
    assert(texts(out@) + lines_of(v@) == lines_of(v@));
    while pos < v.len()
        invariant
            v@ == s@,
            pos <= v@.len(),
            texts(out@) + lines_of(v@.skip(pos as int)) == lines_of(s@),
        decreases v@.len() - pos,
    {
        let ghost rest = v@.skip(pos as int);
        let n = find_class(&v, Class::Is('\n'), pos);
        let ghost before = out@;
        if n >= v.len() {
            let piece = from_chars(&v, pos, n);
            out.push(piece);
            assert(texts(out@) == texts(before).push(piece@));
            assert(piece@ == rest);
            assert(texts(before) + seq![rest] == texts(out@));
            return out;
        }
        let end: usize = if n > pos && v[n - 1] == '\r' {
            n - 1
        } else {
            n
        };
        let piece = from_chars(&v, pos, end);
        out.push(piece);
        proof {
            assert(texts(out@) == texts(before).push(piece@));
            assert(rest.take(n - pos) == v@.subrange(pos as int, n as int));
            if end < n {
                assert(v@.subrange(pos as int, n as int).drop_last() == v@.subrange(
                    pos as int,
                    end as int,
                ));
            }
            assert(piece@ == without_cr(rest.take(n - pos)));
            assert(rest.skip(n - pos + 1) == v@.skip(n + 1));
            assert(texts(before) + (seq![piece@] + lines_of(v@.skip(n + 1))) == texts(out@)
                + lines_of(v@.skip(n + 1)));
        }
        pos = n + 1;
    }
    assert(v@.skip(pos as int) == Seq::<char>::empty());
    assert(texts(out@) + Seq::<Seq<char>>::empty() == texts(out@));
    out
}

/// Whether `p` stands in `s` at position `i`.
pub open spec fn sub_at(s: Seq<char>, p: Seq<char>, i: int) -> bool {
    0 <= i && i + p.len() <= s.len() && s.subrange(i, i + p.len()) == p
}

/// Whether `p` stands anywhere in `s`.
pub open spec fn has_sub(s: Seq<char>, p: Seq<char>) -> bool {
    exists|i: int| sub_at(s, p, i)
}

pub open spec fn has_prefix(s: Seq<char>, p: Seq<char>) -> bool {
    p.len() <= s.len() && s.take(p.len() as int) == p
}

/// Whether a text ends with another.
pub open spec fn has_suffix(s: Seq<char>, t: Seq<char>) -> bool {
    t.len() <= s.len() && s.skip(s.len() - t.len()) == t
}

/// Whether the characters of `p` stand in `v` from `i` on.
pub fn chars_at(v: &Vec<char>, p: &Vec<char>, i: usize) -> (r: bool)
    requires
        i <= v@.len(),
    ensures
        r == sub_at(v@, p@, i as int),
{
    if p.len() > v.len() - i {
        return false;
    }
    let mut j: usize = 0;
    while j < p.len()
        invariant
            i + p@.len() <= v.len(),
            j <= p@.len(),
            forall|x: int| 0 <= x < j ==> v@[i + x] == p@[x],
        decreases p@.len() - j,
    {
        if v[i + j] != p[j] {
            assert(v@.subrange(i as int, i + p@.len())[j as int] != p@[j as int]);
            return false;
        }
        j = j + 1;
    }
    assert(v@.subrange(i as int, i + p@.len()) == p@);
    true
}

/// Whether `p` stands anywhere in `s`, as `str::contains` says.
pub fn contains(s: &str, p: &str) -> (r: bool)
    ensures
        r == has_sub(s@, p@),
{
    let v = to_chars(s);
    let w = to_chars(p);
    let mut i: usize = 0;
    while i < v.len()
        invariant
            v@ == s@,
            w@ == p@,
            i <= v@.len(),
            forall|x: int| 0 <= x < i ==> !sub_at(s@, p@, x),
        decreases v@.len() - i,
    {
        if chars_at(&v, &w, i) {
            return true;
        }
        i = i + 1;
    }
    chars_at(&v, &w, i)
}

/// Whether `s` starts with `p`.
pub fn starts_with(s: &str, p: &str) -> (r: bool)
    ensures
        r == has_prefix(s@, p@),
{
    let v = to_chars(s);
    let w = to_chars(p);
    let r = chars_at(&v, &w, 0);
    assert(p@.len() <= s@.len() ==> s@.subrange(0, p@.len() as int) == s@.take(p@.len() as int));
    r
}

/// Whether the character `c` occurs in `s`.
pub fn contains_char(s: &str, c: char) -> (r: bool)
    ensures
        r == s@.contains(c),
{
    let v = to_chars(s);
    let n = find_class(&v, Class::Is(c), 0);
    n < v.len()
}

/// The rest of `s` after its first `n` characters.
pub fn skip_chars(s: &str, n: usize) -> (r: String)
    requires
        n <= s@.len(),
    ensures
        r@ == s@.skip(n as int),
{
    let v = to_chars(s);
    assert(v@.subrange(n as int, v@.len() as int) == v@.skip(n as int));
    from_chars(&v, n, v.len())
}

/// `s` with each occurrence of `p`, taken from the left without overlap, replaced by `t`.
pub open spec fn replaced(s: Seq<char>, p: Seq<char>, t: Seq<char>) -> Seq<char>
    decreases s.len(),
{
    if p.len() == 0 || s.len() < p.len() {
        s
    } else if s.take(p.len() as int) == p {
        t + replaced(s.skip(p.len() as int), p, t)
    } else {
        seq![s[0]] + replaced(s.skip(1), p, t)
    }
}

/// Replaces each occurrence of `p` by `t`, as `str::replace` does for a non-empty pattern.
pub fn replace(s: &str, p: &str, t: &str) -> (r: String)
    requires
        p@.len() > 0,
    ensures
        r@ == replaced(s@, p@, t@),
{
    let v = to_chars(s);
    let w = to_chars(p);
    let mut out = String::new();
    let mut i: usize = 0;
    assert(v@.skip(0) == v@);
    assert(out@ + replaced(v@, p@, t@) == replaced(v@, p@, t@));
    while i < v.len()
        invariant
            v@ == s@,
            w@ == p@,
            p@.len() > 0,
            i <= v@.len(),
            out@ + replaced(v@.skip(i as int), p@, t@) == replaced(s@, p@, t@),
        decreases v@.len() - i,
    {
        let ghost rest = v@.skip(i as int);
        let ghost before = out@;
        if chars_at(&v, &w, i) {
            out.append(t);
            proof {
                assert(rest.take(p@.len() as int) == v@.subrange(i as int, i + p@.len()));
                assert(rest.skip(p@.len() as int) == v@.skip(i + p@.len()));
                assert(before + (t@ + replaced(v@.skip(i + p@.len()), p@, t@)) == out@ + replaced(
                    v@.skip(i + p@.len()),
                    p@,
                    t@,
                ));
            }
            i = i + w.len();
        } else {
            out.push(v[i]);
            proof {
                if p@.len() <= rest.len() {
                    assert(rest.take(p@.len() as int) == v@.subrange(i as int, i + p@.len()));
                    assert(rest.skip(1) == v@.skip(i + 1));
                    assert(before + (seq![v@[i as int]] + replaced(v@.skip(i + 1), p@, t@)) == out@
                        + replaced(v@.skip(i + 1), p@, t@));
                } else {
                    assert(rest == seq![v@[i as int]] + v@.skip(i + 1));
                    assert(before + rest == out@ + v@.skip(i + 1));
                }
            }
            i = i + 1;
        }
    }
    assert(v@.skip(i as int) == Seq::<char>::empty());
    assert(out@ + Seq::<char>::empty() == out@);
    out
}

/// The lower case of an ASCII letter; any other character as it is.
pub open spec fn lower_char(c: char) -> char {
    if 'A' <= c <= 'Z' {
        ((c as u8 + 32) as u8) as char
    } else {
        c
    }
}

/// The text with its ASCII letters in lower case.
pub open spec fn ascii_lower(s: Seq<char>) -> Seq<char> {
    s.map_values(|c: char| lower_char(c))
}

/// Puts the ASCII letters in lower case, as `str::to_ascii_lowercase` does.
pub fn to_ascii_lower(s: &str) -> (r: String)
    ensures
        r@ == ascii_lower(s@),
{
    let v = to_chars(s);
    let mut out = String::new();
    let mut i: usize = 0;
    while i < v.len()
        invariant
            v@ == s@,
            i <= v@.len(),
            out@ == ascii_lower(s@.take(i as int)),
        decreases v@.len() - i,
    {
        let c = v[i];
        let d = if 'A' <= c && c <= 'Z' {
            (c as u8 + 32) as char
        } else {
            c
        };
        out.push(d);
        i = i + 1;
        assert(out@ == ascii_lower(s@.take(i as int)));
    }
    assert(s@.take(i as int) == s@);
    out
}

/// Whether two texts differ at most in the case of ASCII letters.
pub fn eq_ignore_case(a: &str, b: &str) -> (r: bool)
    ensures
        r == (ascii_lower(a@) == ascii_lower(b@)),
{
    str_eq(to_ascii_lower(a).as_str(), to_ascii_lower(b).as_str())
}

/// The texts one after another, with `sep` between each two.
pub open spec fn joined(p: Seq<Seq<char>>, sep: Seq<char>) -> Seq<char>
    decreases p.len(),
{
    if p.len() == 0 {
        seq![]
    } else if p.len() == 1 {
        p[0]
    } else {
        joined(p.drop_last(), sep) + sep + p.last()
    }
}

/// Joins the strings from position `from` on.
pub fn join_from(v: &Vec<String>, from: usize, sep: &str) -> (r: String)
    requires
        from <= v@.len(),
    ensures
        r@ == joined(texts(v@).skip(from as int), sep@),
{
    let mut out = String::new();
    let ghost p = texts(v@).skip(from as int);
    let mut i: usize = from;
    assert(p.take(0) == Seq::<Seq<char>>::empty());
    while i < v.len()
        invariant
            from <= i <= v@.len(),
            p == texts(v@).skip(from as int),
            out@ == joined(p.take(i - from), sep@),
        decreases v@.len() - i,
    {
        let ghost before = out@;
        if i > from {
            out.append(sep);
        }
        out.append(v[i].as_str());
        proof {
            let q = p.take(i - from + 1);
            assert(q.drop_last() == p.take(i - from));
            assert(q.last() == v@[i as int]@);
            if i > from {
                assert(out@ == before + sep@ + v@[i as int]@);
            } else {
                assert(out@ == v@[i as int]@);
            }
        }
        i = i + 1;
    }
    assert(p.take(i - from) == p);
    out
}

/// Whether a string of that content is in the list.
pub fn list_has(v: &Vec<String>, s: &str) -> (r: bool)
    ensures
        r == texts(v@).contains(s@),
{
    let mut i: usize = 0;
    while i < v.len()
        invariant
            i <= v@.len(),
            forall|x: int| 0 <= x < i ==> texts(v@)[x] != s@,
        decreases v@.len() - i,
    {
        if str_eq(v[i].as_str(), s) {
            assert(texts(v@)[i as int] == s@);
            return true;
        }
        i = i + 1;
    }
    false
}

/// `a` with `b` behind it.
pub fn cat(a: String, b: &str) -> (r: String)
    ensures
        r@ == a@ + b@,
{
    let mut out = a;
    out.append(b);
    out
}

/// The lower case of a text as `str::to_lowercase` gives it.
pub uninterp spec fn unicode_lowercase(s: Seq<char>) -> Seq<char>;

/// `str::to_lowercase`: the lower case of the text by the Unicode property `Lowercase`. A text
/// of ASCII characters gets its letters in lower case and is otherwise as it was.
#[verifier::external_body]
pub(crate) fn to_lowercase(s: &str) -> (r: String)
    ensures
        r@ == unicode_lowercase(s@),
        is_ascii_chars(s@) ==> r@ == ascii_lower(s@),
{
    s.to_lowercase()
}

/// The lower case of a text: of ASCII characters their letters in lower case, of others what
/// `str::to_lowercase` gives.
pub open spec fn lower_case(s: Seq<char>) -> Seq<char> {
    if is_ascii_chars(s) {
        ascii_lower(s)
    } else {
        unicode_lowercase(s)
    }
}

/// The letter case of ASCII texts does not matter to their lower case.
pub proof fn law_lower_case_forgets_case(a: Seq<char>, b: Seq<char>)
    requires
        is_ascii_chars(a),
        is_ascii_chars(b),
    ensures
        lower_case(a) == lower_case(b) <==> ascii_lower(a) == ascii_lower(b),
{
}

/// The text that `String::from_utf8_lossy` makes of bytes.
pub uninterp spec fn utf8_lossy(bytes: Seq<u8>) -> Seq<char>;

/// `String::from_utf8_lossy`: the bytes as text. Bytes that are UTF-8 give the text they encode;
/// in others, what is not UTF-8 gives place to the replacement character.
#[verifier::external_body]
pub(crate) fn from_utf8_lossy(bytes: &Vec<u8>) -> (r: String)
    ensures
        r@ == utf8_lossy(bytes@),
        valid_utf8(bytes@) ==> r@ == decode_utf8(bytes@),
{
    String::from_utf8_lossy(bytes).into_owned()
}

/// Bytes as text: the text they encode where they are UTF-8, else what `String::from_utf8_lossy`
/// gives.
pub open spec fn lossy_text(bytes: Seq<u8>) -> Seq<char> {
    if valid_utf8(bytes) {
        decode_utf8(bytes)
    } else {
        utf8_lossy(bytes)
    }
}

/// `String::from_utf8`: the text that the bytes encode, where they are UTF-8; else none.
#[verifier::external_body]
pub(crate) fn from_utf8(bytes: Vec<u8>) -> (r: Option<String>)
    ensures
        r is Some <==> valid_utf8(bytes@),
        r matches Some(t) ==> t@ == decode_utf8(bytes@),
{
    String::from_utf8(bytes).ok()
}

/// What is left after trimming is a stretch of the text that neither starts nor ends with a
/// character of the class.
pub proof fn lemma_trim_both(s: Seq<char>, k: Class)
    ensures
        exists|i: int, j: int|
            0 <= i <= j <= s.len() && trim_both(s, k) == #[trigger] s.subrange(i, j),
        trim_both(s, k).len() > 0 ==> !in_class(k, trim_both(s, k)[0]) && !in_class(
            k,
            trim_both(s, k).last(),
        ),
{
    let i = lemma_trim_front(s, k);
    let t = trim_front(s, k);
    let j = lemma_trim_back(t, k);
    assert(t.take(j) == s.subrange(i, i + j));
    if j > 0 {
        assert(trim_both(s, k)[0] == t[0]);
    }
}

proof fn lemma_trim_front(s: Seq<char>, k: Class) -> (i: int)
    ensures
        0 <= i <= s.len(),
        trim_front(s, k) == s.skip(i),
        i < s.len() ==> !in_class(k, s[i]),
    decreases s.len(),
{
    if s.len() > 0 && in_class(k, s[0]) {
        let n = lemma_trim_front(s.skip(1), k);
        assert(s.skip(1).skip(n) == s.skip(n + 1));
        n + 1
    } else {
        assert(s.skip(0) == s);
        0
    }
}

proof fn lemma_trim_back(s: Seq<char>, k: Class) -> (j: int)
    ensures
        0 <= j <= s.len(),
        trim_back(s, k) == s.take(j),
        j > 0 ==> !in_class(k, s[j - 1]),
    decreases s.len(),
{
    if s.len() > 0 && in_class(k, s.last()) {
        let n = lemma_trim_back(s.drop_last(), k);
        assert(s.drop_last().take(n) == s.take(n));
        n
    } else {
        assert(s.take(s.len() as int) == s);
        s.len() as int
    }
}

/// Trimming takes the characters of the class off both ends, all of them and nothing else.
pub proof fn law_trimming(a: Seq<char>, t: Seq<char>, b: Seq<char>, k: Class)
    requires
        forall|i: int| 0 <= i < a.len() ==> in_class(k, #[trigger] a[i]),
        forall|i: int| 0 <= i < b.len() ==> in_class(k, #[trigger] b[i]),
        t.len() > 0 ==> !in_class(k, t[0]) && !in_class(k, t.last()),
    ensures
        trim_both(a + t + b, k) == t,
    decreases a.len() + b.len(),
{
    let s = a + t + b;
    if a.len() > 0 {
        assert(s[0] == a[0]);
        assert(s.skip(1) == a.skip(1) + t + b);
        assert forall|i: int| 0 <= i < a.skip(1).len() implies in_class(
            k,
            #[trigger] a.skip(1)[i],
        ) by {
            assert(a.skip(1)[i] == a[i + 1]);
        }
        law_trimming(a.skip(1), t, b, k);
    } else if t.len() > 0 {
        assert(s == t + b);
        assert(s[0] == t[0]);
        assert(trim_front(s, k) == s);
        lemma_trim_back_is(t, b, k);
    } else {
        assert(s == b);
        lemma_all_trimmed(b, k);
    }
}

proof fn lemma_trim_back_is(t: Seq<char>, b: Seq<char>, k: Class)
    requires
        forall|i: int| 0 <= i < b.len() ==> in_class(k, #[trigger] b[i]),
        t.len() > 0,
        !in_class(k, t.last()),
    ensures
        trim_back(t + b, k) == t,
    decreases b.len(),
{
    let s = t + b;
    if b.len() > 0 {
        assert(s.last() == b[b.len() - 1]);
        assert(s.drop_last() == t + b.drop_last());
        assert forall|i: int| 0 <= i < b.drop_last().len() implies in_class(
            k,
            #[trigger] b.drop_last()[i],
        ) by {
            assert(b.drop_last()[i] == b[i]);
        }
        lemma_trim_back_is(t, b.drop_last(), k);
    } else {
        assert(s == t);
    }
}

proof fn lemma_all_trimmed(b: Seq<char>, k: Class)
    requires
        forall|i: int| 0 <= i < b.len() ==> in_class(k, #[trigger] b[i]),
    ensures
        trim_front(b, k) == Seq::<char>::empty(),
    decreases b.len(),
{
    if b.len() > 0 {
        assert(in_class(k, b[0]));
        assert forall|i: int| 0 <= i < b.skip(1).len() implies in_class(
            k,
            #[trigger] b.skip(1)[i],
        ) by {
            assert(b.skip(1)[i] == b[i + 1]);
        }
        lemma_all_trimmed(b.skip(1), k);
    }
}

/// A text without space at its ends is trimmed to itself.
pub proof fn lemma_tidy_is_trimmed(t: Seq<char>)
    requires
        t.len() > 0 ==> !is_white(t[0]) && !is_white(t.last()),
    ensures
        trimmed(t) == t,
{
    let e = Seq::<char>::empty();
    law_trimming(e, t, e, Class::White);
    assert(e + t + e == t);
}

/// A text is cut exactly at the characters of the class: up to the first one, and then on behind it.
pub proof fn law_cutting(a: Seq<char>, c: char, rest: Seq<char>, k: Class, limit: nat)
    requires
        forall|i: int| 0 <= i < a.len() ==> !in_class(k, #[trigger] a[i]),
        in_class(k, c),
    ensures
        prefix_len(a + seq![c] + rest, k) == a.len(),
        prefix_len(a, k) == a.len(),
        split_at_class(a, k) == seq![a],
        split_at_class(a + seq![c] + rest, k) == seq![a] + split_at_class(rest, k),
        limit >= 1 ==> splitn_at_class(a, k, limit) == seq![a],
        limit >= 2 ==> splitn_at_class(a + seq![c] + rest, k, limit) == seq![a] + splitn_at_class(
            rest,
            k,
            (limit - 1) as nat,
        ),
        splitn_at_class(rest, k, 1) == seq![rest],
{
    let s = a + seq![c] + rest;
    let n = a.len() as int;
    assert forall|i: int| 0 <= i < n implies !in_class(k, #[trigger] s[i]) by {
        assert(s[i] == a[i]);
    }
    assert(s[n] == c);
    lemma_prefix_len_is(s, k, n);
    lemma_prefix_len_is(a, k, n);
    assert(s.take(n) == a);
    assert(s.skip(n + 1) == rest);
}

/// A line ends with a line feed, and with a carriage return before it where there is one; what
/// follows is the next line.
pub proof fn law_lines(a: Seq<char>, rest: Seq<char>)
    requires
        !a.contains('\n'),
    ensures
        lines_of(a + seq!['\n'] + rest) == seq![
            (if a.len() > 0 && a.last() == '\r' {
                a.drop_last()
            } else {
                a
            }),
        ] + lines_of(rest),
        a.len() > 0 ==> lines_of(a) == seq![a],
        lines_of(seq![]).len() == 0,
{
    let k = Class::Is('\n');
    assert forall|i: int| 0 <= i < a.len() implies !in_class(k, #[trigger] a[i]) by {
        assert(a.contains(a[i]));
    }
    law_cutting(a, '\n', rest, k, 1);
    let s = a + seq!['\n'] + rest;
    let n = a.len() as int;
    assert(s.take(n) == a);
    assert(s.skip(n + 1) == rest);
}

/// The words of a text are what stands between the space.
pub proof fn law_words(a: Seq<char>, c: char, rest: Seq<char>)
    requires
        forall|i: int| 0 <= i < a.len() ==> !is_white(#[trigger] a[i]),
        is_white(c),
    ensures
        a.len() > 0 ==> words_of(a + seq![c] + rest) == seq![a] + words_of(rest),
        a.len() == 0 ==> words_of(a + seq![c] + rest) == words_of(rest),
        a.len() > 0 ==> words_of(a) == seq![a],
        a.len() == 0 ==> words_of(a).len() == 0,
{
    let k = Class::White;
    assert forall|i: int| 0 <= i < a.len() implies !in_class(k, #[trigger] a[i]) by {}
    law_cutting(a, c, rest, k, 1);
    lemma_nonempty(a, split_at_class(rest, k));
    lemma_nonempty(a, seq![]);
    assert(seq![a] + Seq::<Seq<char>>::empty() == seq![a]);
    assert(nonempty(Seq::<Seq<char>>::empty()).len() == 0) by {
        reveal(Seq::filter);
    }
    assert(seq![a] + nonempty(Seq::<Seq<char>>::empty()) == seq![a]);
}

/// The pieces that are not empty, with one more in front.
pub proof fn lemma_nonempty(a: Seq<char>, q: Seq<Seq<char>>)
    ensures
        nonempty(seq![a] + q) == (if a.len() > 0 {
            seq![a] + nonempty(q)
        } else {
            nonempty(q)
        }),
{
    let f = |t: Seq<char>| t.len() > 0;
    Seq::filter_distributes_over_add(seq![a], q, f);
    reveal(Seq::filter);
    assert(seq![a].drop_last() == Seq::<Seq<char>>::empty());
    assert(seq![a].last() == a);
    assert(Seq::<Seq<char>>::empty().filter(f).len() == 0);
    if a.len() > 0 {
        assert(seq![a].filter(f) == seq![a]);
    } else {
        assert(seq![a].filter(f) == Seq::<Seq<char>>::empty());
        assert(Seq::<Seq<char>>::empty() + q.filter(f) == q.filter(f));
    }
}

/// Lower case turns each ASCII letter into its small one, 32 places further on, and leaves every other
/// character where and as it is.
pub proof fn law_ascii_lower_case(s: Seq<char>, i: int)
    requires
        0 <= i < s.len(),
    ensures
        ascii_lower(s).len() == s.len(),
        'A' <= s[i] && s[i] <= 'Z' ==> ascii_lower(s)[i] as u32 == s[i] as u32 + 32,
        !('A' <= s[i] && s[i] <= 'Z') ==> ascii_lower(s)[i] == s[i],
        ascii_lower(ascii_lower(s)) == ascii_lower(s),
{
    assert forall|j: int| 0 <= j < s.len() implies ascii_lower(ascii_lower(s))[j] == ascii_lower(
        s,
    )[j] by {
        let c = s[j];
        assert(ascii_lower(s)[j] == lower_char(c));
        if 'A' <= c && c <= 'Z' {
            assert(lower_char(c) as u32 == c as u32 + 32);
        }
    }
    assert(ascii_lower(ascii_lower(s)) =~= ascii_lower(s));
}

/// Texts are joined one after another, with the separator between each two and nowhere else.
pub proof fn law_joining(p: Seq<Seq<char>>, t: Seq<char>, sep: Seq<char>)
    ensures
        joined(seq![], sep) == Seq::<char>::empty(),
        joined(seq![t], sep) == t,
        p.len() > 0 ==> joined(p.push(t), sep) == joined(p, sep) + sep + t,
{
    assert(p.push(t).drop_last() == p);
}

/// Something stands in a text exactly where the text is what comes before it, it, and what comes
/// after it; at the start nothing comes before it.
pub proof fn law_standing_in(a: Seq<char>, p: Seq<char>, b: Seq<char>)
    ensures
        has_sub(a + p + b, p),
        has_prefix(p + b, p),
        forall|s: Seq<char>| #[trigger]
            has_sub(s, p) ==> exists|x: Seq<char>, y: Seq<char>| s == #[trigger] (x + p + y),
        forall|s: Seq<char>| #[trigger]
            has_prefix(s, p) ==> exists|y: Seq<char>| s == #[trigger] (p + y),
{
    let s = a + p + b;
    let n = a.len() as int;
    assert(s.subrange(n, n + p.len()) == p);
    assert(sub_at(s, p, n));
    assert((p + b).take(p.len() as int) == p);
    assert forall|s: Seq<char>| #[trigger] has_sub(s, p) implies exists|
        x: Seq<char>,
        y: Seq<char>,
    | s == #[trigger] (x + p + y) by {
        let i = choose|i: int| sub_at(s, p, i);
        let x = s.take(i);
        let y = s.skip(i + p.len());
        assert(s == x + p + y) by {
            assert forall|j: int| 0 <= j < s.len() implies s[j] == (x + p + y)[j] by {
                if i <= j < i + p.len() {
                    assert(s.subrange(i, i + p.len())[j - i] == s[j]);
                }
            }
        }
    }
    assert forall|s: Seq<char>| #[trigger] has_prefix(s, p) implies exists|y: Seq<char>|
        s == #[trigger] (p + y) by {
        let y = s.skip(p.len() as int);
        assert(s == p + y) by {
            assert(s.take(p.len() as int) == p);
            assert forall|j: int| 0 <= j < s.len() implies s[j] == (p + y)[j] by {
                if j < p.len() {
                    assert(s.take(p.len() as int)[j] == s[j]);
                }
            }
        }
    }
}

/// Where something is replaced, it gives place to the other wherever it stands, from the left on; what
/// stands before it stays.
pub proof fn law_replacing(a: Seq<char>, p: Seq<char>, b: Seq<char>, t: Seq<char>)
    requires
        p.len() > 0,
        forall|i: int| 0 <= i < a.len() ==> !sub_at(a + p + b, p, i),
    ensures
        replaced(a + p + b, p, t) == a + t + replaced(b, p, t),
        !has_sub(b, p) ==> replaced(b, p, t) == b,
    decreases a.len() + b.len(),
{
    let s = a + p + b;
    if a.len() == 0 {
        assert(s == p + b);
        assert(s.take(p.len() as int) == p);
        assert(s.skip(p.len() as int) == b);
        assert(a + t + replaced(b, p, t) == t + replaced(b, p, t));
        if b.len() > 0 && !has_sub(b, p) {
            lemma_nothing_replaced(b, p, t);
        }
    } else {
        assert(!sub_at(s, p, 0));
        assert(s.subrange(0, p.len() as int) == s.take(p.len() as int));
        let r = a.skip(1) + p + b;
        assert(s.skip(1) == r);
        assert forall|i: int| 0 <= i < a.skip(1).len() implies !sub_at(r, p, i) by {
            assert(!sub_at(s, p, i + 1));
            if sub_at(r, p, i) {
                assert(r.subrange(i, i + p.len()) == s.subrange(i + 1, i + 1 + p.len()));
            }
        }
        law_replacing(a.skip(1), p, b, t);
        assert(seq![s[0]] + (a.skip(1) + t + replaced(b, p, t)) == a + t + replaced(b, p, t));
    }
}

proof fn lemma_nothing_replaced(s: Seq<char>, p: Seq<char>, t: Seq<char>)
    requires
        !has_sub(s, p),
    ensures
        replaced(s, p, t) == s,
    decreases s.len(),
{
    if p.len() > 0 && s.len() >= p.len() {
        if s.take(p.len() as int) == p {
            assert(s.subrange(0, p.len() as int) == s.take(p.len() as int));
            assert(sub_at(s, p, 0));
        }
        let r = s.skip(1);
        if has_sub(r, p) {
            let i = choose|i: int| sub_at(r, p, i);
            assert(r.subrange(i, i + p.len()) == s.subrange(i + 1, i + 1 + p.len()));
            assert(sub_at(s, p, i + 1));
        }
        lemma_nothing_replaced(r, p, t);
        assert(seq![s[0]] + r == s);
    }
}

} // verus!
