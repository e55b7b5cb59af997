//! Network names: how `wpa_supplicant` escapes them, and what two bands of one router share.

use crate::text::{
    contains, from_utf8_lossy, has_sub, lemma_trim_both, lossy_text, replace, replaced, sub_at,
    trim_both, trim_class, Class,
};
use vstd::prelude::*;
use vstd::string::*;
use vstd::utf8::*;

verus! {

/// The value of a hexadecimal digit.
pub open spec fn hex_digit(b: u8) -> Option<int> {
    if 48 <= b <= 57 {
        Some(b - 48)
    } else if 97 <= b <= 102 {
        Some(b - 87)
    } else if 65 <= b <= 70 {
        Some(b - 55)
    } else {
        None
    }
}

/// The byte that two characters stand for: two hexadecimal digits, or a plus sign and one.
pub open spec fn hex_pair(a: u8, b: u8) -> Option<u8> {
    match (hex_digit(a), hex_digit(b)) {
        (Some(x), Some(y)) => Some((x * 16 + y) as u8),
        (None, Some(y)) => if a == 43 {
            Some(y as u8)
        } else {
            None
        },
        _ => None,
    }
}

/// The byte that a backslash and the character after it stand for.
pub open spec fn short_escape(b: u8) -> Option<u8> {
    if b == 92 || b == 34 || b == 39 {
        Some(b)
    } else if b == 101 {
        Some(27u8)
    } else if b == 110 {
        Some(10u8)
    } else if b == 116 {
        Some(9u8)
    } else {
        None
    }
}

/// The byte at the start of `s`, and how many bytes of `s` it takes to write.
pub open spec fn first_unescaped(s: Seq<u8>) -> (u8, int) {
    if s.len() > 1 && s[0] == 92 {
        if s[1] == 120 || s[1] == 88 {
            if s.len() > 3 && hex_pair(s[2], s[3]) is Some {
                (hex_pair(s[2], s[3])->0, 4)
            } else {
                (s[0], 1)
            }
        } else {
            match short_escape(s[1]) {
                Some(b) => (b, 2),
                None => (s[0], 1),
            }
        }
    } else {
        (s[0], 1)
    }
}

/// The bytes that an escaped text stands for.
pub open spec fn unescaped(s: Seq<u8>) -> Seq<u8>
    decreases s.len(),
{
    if s.len() == 0 {
        seq![]
    } else {
        seq![first_unescaped(s).0] + unescaped(s.skip(first_unescaped(s).1))
    }
}

fn hex_value(b: u8) -> (r: Option<u8>)
    ensures
        r is Some <==> hex_digit(b) is Some,
        r matches Some(v) ==> v == hex_digit(b)->0 && v < 16,
{
    if 48 <= b && b <= 57 {
        Some(b - 48)
    } else if 97 <= b && b <= 102 {
        Some(b - 87)
    } else if 65 <= b && b <= 70 {
        Some(b - 55)
    } else {
        None
    }
}

fn hex_byte(a: u8, b: u8) -> (r: Option<u8>)
    ensures
        r == hex_pair(a, b),
{
    match (hex_value(a), hex_value(b)) {
        (Some(x), Some(y)) => Some(x * 16 + y),
        (None, Some(y)) => if a == 43 {
            Some(y)
        } else {
            None
        },
        _ => None,
    }
}

fn read_one(bytes: &[u8], i: usize) -> (r: (u8, usize))
    requires
        i < bytes@.len(),
    ensures
        r.0 == first_unescaped(bytes@.skip(i as int)).0,
        r.1 == first_unescaped(bytes@.skip(i as int)).1,
        1 <= r.1 <= bytes@.len() - i,
{
    let ghost s = bytes@.skip(i as int);
    let left: usize = bytes.len() - i;
    if left > 1 && bytes[i] == 92 {
        let k = bytes[i + 1];
        assert(k == s[1]);
        if k == 120 || k == 88 {
            if left > 3 {
                assert(bytes@[i + 2] == s[2] && bytes@[i + 3] == s[3]);
                if let Some(v) = hex_byte(bytes[i + 2], bytes[i + 3]) {
                    return (v, 4);
                }
            }
        } else if k == 92 || k == 34 || k == 39 {
            return (k, 2);
        } else if k == 101 {
            return (27, 2);
        } else if k == 110 {
            return (10, 2);
        } else if k == 116 {
            return (9, 2);
        }
    }
    (bytes[i], 1)
}

/// Reads the escapes in `bytes`. What is no escape stands for itself.
pub fn unescape_bytes(bytes: &[u8]) -> (r: Vec<u8>)
    ensures
        r@ == unescaped(bytes@),
{
    let mut out: Vec<u8> = Vec::new();
    let mut i: usize = 0;
    assert(bytes@.skip(0) == bytes@);
    assert(out@ + unescaped(bytes@) == unescaped(bytes@));
    while i < bytes.len()
        invariant
            i <= bytes@.len(),
            out@ + unescaped(bytes@.skip(i as int)) == unescaped(bytes@),
        decreases bytes@.len() - i,
    {
        let (b, n) = read_one(bytes, i);
        let ghost before = out@;
        out.push(b);
        proof {
            let s = bytes@.skip(i as int);
            assert(s.skip(n as int) == bytes@.skip(i + n));
            assert(before + (seq![b] + unescaped(s.skip(n as int))) == out@ + unescaped(
                s.skip(n as int),
            ));
        }
        i = i + n;
    }
    assert(bytes@.skip(i as int) == Seq::<u8>::empty());
    assert(out@ + Seq::<u8>::empty() == out@);
    out
}

/// The name that an escaped text stands for.
pub open spec fn wpa_ssid(raw: Seq<char>) -> Seq<char> {
    if encode_utf8(raw).contains(92u8) {
        lossy_text(unescaped(encode_utf8(raw)))
    } else {
        raw
    }
}

/// Decodes a name as `wpa_supplicant` lists it: bytes outside ASCII come as `\xNN`.
pub fn decode_wpa_ssid(raw: &str) -> (r: String)
    ensures
        r@ == wpa_ssid(raw@),
{
    let bytes = raw.as_bytes();
    let mut i: usize = 0;
    while i < bytes.len()
        invariant
            bytes@ == encode_utf8(raw@),
            i <= bytes@.len(),
            forall|x: int| 0 <= x < i ==> bytes@[x] != 92,
        decreases bytes@.len() - i,
    {
        if bytes[i] == 92 {
            assert(bytes@.contains(92u8));
            let out = unescape_bytes(bytes);
            return from_utf8_lossy(&out);
        }
        i = i + 1;
    }
    raw.to_owned()
}

/// Bytes without a backslash stand for themselves.
proof fn lemma_plain_bytes(s: Seq<u8>)
    requires
        !s.contains(92u8),
    ensures
        unescaped(s) == s,
    decreases s.len(),
{
    if s.len() > 0 {
        assert(s[0] != 92);
        assert forall|x: int| 0 <= x < s.skip(1).len() implies s.skip(1)[x] != 92 by {
            assert(s.contains(s[x + 1]));
        }
        lemma_plain_bytes(s.skip(1));
        assert(seq![s[0]] + s.skip(1) == s);
    }
}

/// The hexadecimal digit of `n`, in lower case.
pub open spec fn hex_char(n: int) -> u8 {
    if n < 10 {
        (48 + n) as u8
    } else {
        (87 + n) as u8
    }
}

/// Every byte written as `\xNN`.
pub open spec fn hex_escaped(s: Seq<u8>) -> Seq<u8>
    decreases s.len(),
{
    if s.len() == 0 {
        seq![]
    } else {
        seq![92u8, 120u8, hex_char(s[0] as int / 16), hex_char(s[0] as int % 16)] + hex_escaped(
            s.skip(1),
        )
    }
}

/// Whether a text writes bytes, each in any one of the ways there are: as itself where it is no
/// backslash, as `\xHH`, or as a backslash and a character that stands for it.
pub open spec fn writes(raw: Seq<u8>, s: Seq<u8>) -> bool
    decreases s.len(),
{
    if s.len() == 0 {
        raw.len() == 0
    } else {
        ||| raw.len() > 0 && raw[0] == s[0] && s[0] != 92 && writes(raw.skip(1), s.skip(1))
        ||| raw.len() > 3 && raw[0] == 92 && (raw[1] == 120 || raw[1] == 88) && hex_pair(
            raw[2],
            raw[3],
        ) == Some(s[0]) && writes(raw.skip(4), s.skip(1))
        ||| raw.len() > 1 && raw[0] == 92 && short_escape(raw[1]) == Some(s[0]) && writes(
            raw.skip(2),
            s.skip(1),
        )
    }
}

/// Bytes are read back from any text that writes them, however plain bytes and escapes are mixed
/// in it.
pub proof fn law_written_bytes_are_read_back(raw: Seq<u8>, s: Seq<u8>)
    requires
        writes(raw, s),
    ensures
        unescaped(raw) == s,
    decreases s.len(),
{
    if s.len() > 0 {
        if raw.len() > 0 && raw[0] == s[0] && s[0] != 92 && writes(raw.skip(1), s.skip(1)) {
            law_written_bytes_are_read_back(raw.skip(1), s.skip(1));
        } else if raw.len() > 3 && raw[0] == 92 && (raw[1] == 120 || raw[1] == 88) && hex_pair(
            raw[2],
            raw[3],
        ) == Some(s[0]) && writes(raw.skip(4), s.skip(1)) {
            law_written_bytes_are_read_back(raw.skip(4), s.skip(1));
        } else {
            law_written_bytes_are_read_back(raw.skip(2), s.skip(1));
        }
        assert(seq![s[0]] + s.skip(1) == s);
    }
}

/// A name is read back from any text that writes it: decoding undoes the escaping.
pub proof fn law_escaped_name_is_read_back(name: Seq<char>, raw: Seq<char>)
    requires
        writes(encode_utf8(raw), encode_utf8(name)),
    ensures
        wpa_ssid(raw) == name,
{
    law_written_bytes_are_read_back(encode_utf8(raw), encode_utf8(name));
    encode_utf8_valid_utf8(name);
    encode_utf8_decode_utf8(name);
    if !encode_utf8(raw).contains(92u8) {
        lemma_plain_bytes(encode_utf8(raw));
        encode_utf8_decode_utf8(raw);
    }
}

/// Every byte can be written as `\xHH`.
pub proof fn law_hexadecimal_escapes_write_all(s: Seq<u8>)
    ensures
        writes(hex_escaped(s), s),
    decreases s.len(),
{
    if s.len() > 0 {
        law_hexadecimal_escapes_write_all(s.skip(1));
        let h = hex_escaped(s);
        let hi = s[0] as int / 16;
        let lo = s[0] as int % 16;
        assert(h[0] == 92 && h[1] == 120 && h[2] == hex_char(hi) && h[3] == hex_char(lo));
        assert(hex_digit(h[2]) == Some(hi));
        assert(hex_digit(h[3]) == Some(lo));
        assert(h.skip(4) == hex_escaped(s.skip(1)));
    }
}

/// The text with each run of underscores made a single one.
pub open spec fn squeezed(s: Seq<char>) -> Seq<char>
    decreases s.len(),
{
    if s.len() == 0 {
        s
    } else if s.len() > 1 && s[0] == '_' && s[1] == '_' {
        squeezed(s.skip(1))
    } else {
        seq![s[0]] + squeezed(s.skip(1))
    }
}

/// The name without the marks by which routers tell their bands and repeaters apart.
pub open spec fn without_band_marks(s: Seq<char>) -> Seq<char> {
    let a = replaced(s, "_5G_CLONE"@, ""@);
    let b = replaced(a, "-5G-CLONE"@, ""@);
    let c = replaced(b, "_5G"@, ""@);
    let d = replaced(c, "-5G"@, ""@);
    let e = replaced(d, "5G_"@, ""@);
    let f = replaced(e, "5G-"@, ""@);
    let g = replaced(f, "_2.4G"@, ""@);
    let h = replaced(g, "-2.4G"@, ""@);
    let i = replaced(h, "_2G"@, ""@);
    let j = replaced(i, "-2G"@, ""@);
    let k = replaced(j, "_24G"@, ""@);
    let l = replaced(k, "_CLONE"@, ""@);
    replaced(l, "-CLONE"@, ""@)
}

/// What the names of the two bands of one router have in common.
pub open spec fn stem_of(s: Seq<char>) -> Seq<char> {
    trim_both(squeezed(without_band_marks(s)), Class::Either('_', '-'))
}

fn strip_band_marks(ssid: &str) -> (r: String)
    ensures
        r@ == without_band_marks(ssid@),
{
    proof {
        reveal_strlit("_5G_CLONE");
        reveal_strlit("-5G-CLONE");
        reveal_strlit("_5G");
        reveal_strlit("-5G");
        reveal_strlit("5G_");
        reveal_strlit("5G-");
        reveal_strlit("_2.4G");
        reveal_strlit("-2.4G");
        reveal_strlit("_2G");
        reveal_strlit("-2G");
        reveal_strlit("_24G");
        reveal_strlit("_CLONE");
        reveal_strlit("-CLONE");
    }
    let a = replace(ssid, "_5G_CLONE", "");
    let b = replace(a.as_str(), "-5G-CLONE", "");
    let c = replace(b.as_str(), "_5G", "");
    let d = replace(c.as_str(), "-5G", "");
    let e = replace(d.as_str(), "5G_", "");
    let f = replace(e.as_str(), "5G-", "");
    let g = replace(f.as_str(), "_2.4G", "");
    let h = replace(g.as_str(), "-2.4G", "");
    let i = replace(h.as_str(), "_2G", "");
    let j = replace(i.as_str(), "-2G", "");
    let k = replace(j.as_str(), "_24G", "");
    let l = replace(k.as_str(), "_CLONE", "");
    replace(l.as_str(), "-CLONE", "")
}

/// The name without band marks, runs of underscores and separators at its ends.
pub fn ssid_stem(ssid: &str) -> (r: String)
    ensures
        r@ == stem_of(ssid@),
{
    proof {
        reveal_strlit("__");
        reveal_strlit("_");
    }
    let mut s = strip_band_marks(ssid);
    while contains(s.as_str(), "__")
        invariant
            "__"@ == seq!['_', '_'],
            "_"@ == seq!['_'],
            squeezed(s@) == squeezed(without_band_marks(ssid@)),
        decreases s@.len(),
    {
        proof {
            lemma_halving(s@);
        }
        s = replace(s.as_str(), "__", "_");
    }
    proof {
        lemma_squeezed_fixed(s@);
    }
    trim_class(s.as_str(), Class::Either('_', '-'))
}

/// Replacing pairs of underscores keeps the first character and the squeezed form, and makes
/// the text shorter where there is a pair.
proof fn lemma_halving(s: Seq<char>)
    ensures
        ({
            let r = replaced(s, seq!['_', '_'], seq!['_']);
            &&& squeezed(r) == squeezed(s)
            &&& r.len() <= s.len()
            &&& r.len() == 0 <==> s.len() == 0
            &&& s.len() > 0 ==> r[0] == s[0]
            &&& has_sub(s, seq!['_', '_']) ==> r.len() < s.len()
        }),
    decreases s.len(),
{
    let p = seq!['_', '_'];
    let r = replaced(s, p, seq!['_']);
    if s.len() < 2 {
        if has_sub(s, p) {
            let i = choose|i: int| sub_at(s, p, i);
            assert(false);
        }
    } else if s.take(2) == p {
        let t = s.skip(2);
        lemma_halving(t);
        let q = replaced(t, p, seq!['_']);
        assert(s.take(2)[0] == '_' && s.take(2)[1] == '_');
        assert(r == seq!['_'] + q);
        lemma_squeezed_cons('_', q, t);
        assert(s.skip(1) == seq!['_'] + t);
    } else {
        let t = s.skip(1);
        lemma_halving(t);
        let q = replaced(t, p, seq!['_']);
        assert(r == seq![s[0]] + q);
        lemma_squeezed_cons(s[0], q, t);
        assert(s == seq![s[0]] + t);
        if has_sub(s, p) {
            let i = choose|i: int| sub_at(s, p, i);
            if i == 0 {
                assert(s.subrange(0, 2) == s.take(2));
            } else {
                assert(t.subrange(i - 1, i + 1) == s.subrange(i, i + 2));
                assert(sub_at(t, p, i - 1));
            }
        }
    }
}

/// What a character in front makes of the squeezed form depends on nothing but the first
/// character behind it.
proof fn lemma_squeezed_cons(c: char, a: Seq<char>, b: Seq<char>)
    requires
        squeezed(a) == squeezed(b),
        a.len() == 0 <==> b.len() == 0,
        b.len() > 0 ==> a[0] == b[0],
    ensures
        squeezed(seq![c] + a) == squeezed(seq![c] + b),
{
    assert((seq![c] + a).skip(1) == a);
    assert((seq![c] + b).skip(1) == b);
}

/// A text without a pair of underscores is its own squeezed form.
proof fn lemma_squeezed_fixed(s: Seq<char>)
    requires
        !has_sub(s, seq!['_', '_']),
    ensures
        squeezed(s) == s,
    decreases s.len(),
{
    let p = seq!['_', '_'];
    if s.len() > 0 {
        let t = s.skip(1);
        if has_sub(t, p) {
            let i = choose|i: int| sub_at(t, p, i);
            assert(t.subrange(i, i + 2) == s.subrange(i + 1, i + 3));
            assert(sub_at(s, p, i + 1));
        }
        lemma_squeezed_fixed(t);
        if s.len() > 1 && s[0] == '_' && s[1] == '_' {
            assert(s.subrange(0, 2) == p);
            assert(sub_at(s, p, 0));
        }
        assert(seq![s[0]] + t == s);
    }
}

/// A squeezed text holds no pair of underscores, and starts as the text does.
proof fn lemma_squeezed_has_no_pair(s: Seq<char>)
    ensures
        !has_sub(squeezed(s), seq!['_', '_']),
        squeezed(s).len() > 0 <==> s.len() > 0,
        s.len() > 0 ==> squeezed(s)[0] == s[0],
    decreases s.len(),
{
    let p = seq!['_', '_'];
    if s.len() > 0 {
        let t = s.skip(1);
        lemma_squeezed_has_no_pair(t);
        let q = squeezed(s);
        if has_sub(q, p) && q == seq![s[0]] + squeezed(t) {
            let i = choose|i: int| sub_at(q, p, i);
            if i == 0 {
                assert(q.subrange(0, 2)[0] == '_' && q.subrange(0, 2)[1] == '_');
                assert(q[0] == '_' && q[1] == '_');
                assert(squeezed(t)[0] == t[0]);
            } else {
                assert(squeezed(t).subrange(i - 1, i + 1) == q.subrange(i, i + 2));
                assert(sub_at(squeezed(t), p, i - 1));
            }
        }
    } else {
        if has_sub(squeezed(s), p) {
            let i = choose|i: int| sub_at(squeezed(s), p, i);
            assert(false);
        }
    }
}

/// A stem holds no run of underscores and neither starts nor ends with a separator.
pub proof fn law_stem_is_tidy(ssid: Seq<char>)
    ensures
        !has_sub(stem_of(ssid), seq!['_', '_']),
        stem_of(ssid).len() > 0 ==> {
            &&& stem_of(ssid)[0] != '_' && stem_of(ssid)[0] != '-'
            &&& stem_of(ssid).last() != '_' && stem_of(ssid).last() != '-'
        },
{
    let q = squeezed(without_band_marks(ssid));
    let k = Class::Either('_', '-');
    let p = seq!['_', '_'];
    lemma_squeezed_has_no_pair(without_band_marks(ssid));
    lemma_trim_both(q, k);
    let r = stem_of(ssid);
    if has_sub(r, p) {
        let (i, j) = choose|i: int, j: int|
            0 <= i <= j <= q.len() && trim_both(q, k) == #[trigger] q.subrange(i, j);
        let x = choose|x: int| sub_at(r, p, x);
        assert(r.subrange(x, x + 2) == q.subrange(i + x, i + x + 2));
        assert(sub_at(q, p, i + x));
    }
}

/// What does not occur is not replaced.
proof fn lemma_nothing_to_replace(s: Seq<char>, p: Seq<char>, t: Seq<char>)
    requires
        !has_sub(s, p),
    ensures
        replaced(s, p, t) == s,
    decreases s.len(),
{
    if p.len() > 0 && s.len() >= p.len() {
        if s.take(p.len() as int) == p {
            assert(s.subrange(0, p.len() as int) == s.take(p.len() as int));
            assert(sub_at(s, p, 0));
        }
        let r = s.skip(1);
        if has_sub(r, p) {
            let i = choose|i: int| sub_at(r, p, i);
            assert(r.subrange(i, i + p.len()) == s.subrange(i + 1, i + 1 + p.len()));
            assert(sub_at(s, p, i + 1));
        }
        lemma_nothing_to_replace(r, p, t);
        assert(seq![s[0]] + r == s);
    }
}

/// Up to where something first occurs, nothing is replaced.
proof fn lemma_replaced_after(s: Seq<char>, p: Seq<char>, n: int)
    requires
        p.len() > 0,
        0 <= n <= s.len(),
        forall|i: int| 0 <= i < n ==> !sub_at(s, p, i),
    ensures
        replaced(s, p, seq![]) == s.take(n) + replaced(s.skip(n), p, seq![]),
    decreases n,
{
    if n == 0 {
        assert(s.skip(0) == s);
        assert(s.take(0) + replaced(s, p, seq![]) == replaced(s, p, seq![]));
    } else {
        assert(!sub_at(s, p, 0));
        let r = s.skip(1);
        assert forall|i: int| 0 <= i < n - 1 implies !sub_at(r, p, i) by {
            assert(!sub_at(s, p, i + 1));
            if sub_at(r, p, i) {
                assert(r.subrange(i, i + p.len()) == s.subrange(i + 1, i + 1 + p.len()));
            }
        }
        lemma_replaced_after(r, p, n - 1);
        assert(r.skip(n - 1) == s.skip(n));
        assert(seq![s[0]] + r.take(n - 1) == s.take(n));
        if s.len() < p.len() {
            lemma_short_is_kept(s.skip(n), p);
            assert(s.take(n) + s.skip(n) == s);
        } else {
            assert(s.subrange(0, p.len() as int) == s.take(p.len() as int));
            assert(seq![s[0]] + (r.take(n - 1) + replaced(s.skip(n), p, seq![])) == s.take(n)
                + replaced(s.skip(n), p, seq![]));
        }
    }
}

proof fn lemma_short_is_kept(s: Seq<char>, p: Seq<char>)
    requires
        s.len() < p.len(),
    ensures
        replaced(s, p, seq![]) == s,
{
}

/// Whether a character stands between the parts of a name.
pub open spec fn is_separator(c: char) -> bool {
    c == '_' || c == '-'
}

/// A name in one part that does not end in a mark of its own.
pub open spec fn is_plain(b: Seq<char>) -> bool {
    &&& forall|i: int| 0 <= i < b.len() ==> !is_separator(#[trigger] b[i])
    &&& !(b.len() >= 2 && b[b.len() - 2] == '5' && b[b.len() - 1] == 'G')
}

/// Whether a text is cut out of names: it starts with a separator, or is `5G` with one behind it.
spec fn is_cut(p: Seq<char>) -> bool {
    &&& p.len() >= 3
    &&& is_separator(p[0]) || (p.len() == 3 && p[0] == '5' && p[1] == 'G' && is_separator(p[2]))
}

/// Where what is cut out of names stands in a plain name with a tail, it stands in the tail.
proof fn lemma_cut_is_in_tail(b: Seq<char>, m: Seq<char>, p: Seq<char>, i: int)
    requires
        is_plain(b),
        is_cut(p),
        m.len() > 0 ==> is_separator(m[0]),
        sub_at(b + m, p, i),
    ensures
        sub_at(m, p, i - b.len()),
{
    let s = b + m;
    let q = s.subrange(i, i + p.len());
    assert(q[0] == s[i] && q[1] == s[i + 1] && q[2] == s[i + 2]);
    if i < b.len() {
        assert(s[i] == b[i]);
        assert(!is_separator(b[i]));
        if i + 2 < b.len() {
            assert(s[i + 2] == b[i + 2]);
            assert(!is_separator(b[i + 2]));
        } else if i + 1 < b.len() {
            assert(s[i + 1] == b[i + 1]);
        } else {
            assert(s[i + 1] == m[0]);
        }
        assert(false);
    }
    assert(q == m.subrange(i - b.len(), i - b.len() + p.len()));
}

/// Cutting out what does not stand in the tail changes nothing.
proof fn lemma_cut_keeps(b: Seq<char>, m: Seq<char>, p: Seq<char>)
    requires
        is_plain(b),
        is_cut(p),
        m.len() > 0 ==> is_separator(m[0]),
        forall|j: int| !sub_at(m, p, j),
    ensures
        replaced(b + m, p, seq![]) == b + m,
{
    if has_sub(b + m, p) {
        let i = choose|i: int| sub_at(b + m, p, i);
        lemma_cut_is_in_tail(b, m, p, i);
    }
    lemma_nothing_to_replace(b + m, p, seq![]);
}

/// Cutting out the whole tail leaves the name.
proof fn lemma_cut_strips(b: Seq<char>, m: Seq<char>)
    requires
        is_plain(b),
        is_cut(m),
        is_separator(m[0]),
    ensures
        replaced(b + m, m, seq![]) == b,
{
    let s = b + m;
    let n = b.len() as int;
    assert forall|i: int| 0 <= i < n implies !sub_at(s, m, i) by {
        if sub_at(s, m, i) {
            lemma_cut_is_in_tail(b, m, m, i);
        }
    }
    lemma_replaced_after(s, m, n);
    assert(s.take(n) == b);
    assert(s.skip(n) == m);
    assert(m.take(m.len() as int) == m);
    assert(m.skip(m.len() as int) == Seq::<char>::empty());
    assert(replaced(m, m, seq![]) == Seq::<char>::empty() + replaced(
        m.skip(m.len() as int),
        m,
        seq![],
    ));
    assert(b + Seq::<char>::empty() == b);
}

/// What is cut out of names, in the order in which it is.
spec fn cuts() -> Seq<Seq<char>> {
    seq![
        "_5G_CLONE"@,
        "-5G-CLONE"@,
        "_5G"@,
        "-5G"@,
        "5G_"@,
        "5G-"@,
        "_2.4G"@,
        "-2.4G"@,
        "_2G"@,
        "-2G"@,
        "_24G"@,
        "_CLONE"@,
        "-CLONE"@,
    ]
}

proof fn lemma_cuts()
    ensures
        forall|k: int| 0 <= k < 13 ==> is_cut(#[trigger] cuts()[k]),
        cuts()[0] == seq!['_', '5', 'G', '_', 'C', 'L', 'O', 'N', 'E'],
        cuts()[1] == seq!['-', '5', 'G', '-', 'C', 'L', 'O', 'N', 'E'],
        cuts()[2] == seq!['_', '5', 'G'],
        cuts()[3] == seq!['-', '5', 'G'],
        cuts()[4] == seq!['5', 'G', '_'],
        cuts()[5] == seq!['5', 'G', '-'],
        cuts()[6] == seq!['_', '2', '.', '4', 'G'],
        cuts()[7] == seq!['-', '2', '.', '4', 'G'],
        cuts()[8] == seq!['_', '2', 'G'],
        cuts()[9] == seq!['-', '2', 'G'],
        cuts()[10] == seq!['_', '2', '4', 'G'],
        cuts()[11] == seq!['_', 'C', 'L', 'O', 'N', 'E'],
        cuts()[12] == seq!['-', 'C', 'L', 'O', 'N', 'E'],
{
    reveal_strlit("_5G_CLONE");
    reveal_strlit("-5G-CLONE");
    reveal_strlit("_5G");
    reveal_strlit("-5G");
    reveal_strlit("5G_");
    reveal_strlit("5G-");
    reveal_strlit("_2.4G");
    reveal_strlit("-2.4G");
    reveal_strlit("_2G");
    reveal_strlit("-2G");
    reveal_strlit("_24G");
    reveal_strlit("_CLONE");
    reveal_strlit("-CLONE");
    assert(cuts()[0] =~= seq!['_', '5', 'G', '_', 'C', 'L', 'O', 'N', 'E']);
    assert(cuts()[1] =~= seq!['-', '5', 'G', '-', 'C', 'L', 'O', 'N', 'E']);
    assert(cuts()[2] =~= seq!['_', '5', 'G']);
    assert(cuts()[3] =~= seq!['-', '5', 'G']);
    assert(cuts()[4] =~= seq!['5', 'G', '_']);
    assert(cuts()[5] =~= seq!['5', 'G', '-']);
    assert(cuts()[6] =~= seq!['_', '2', '.', '4', 'G']);
    assert(cuts()[7] =~= seq!['-', '2', '.', '4', 'G']);
    assert(cuts()[8] =~= seq!['_', '2', 'G']);
    assert(cuts()[9] =~= seq!['-', '2', 'G']);
    assert(cuts()[10] =~= seq!['_', '2', '4', 'G']);
    assert(cuts()[11] =~= seq!['_', 'C', 'L', 'O', 'N', 'E']);
    assert(cuts()[12] =~= seq!['-', 'C', 'L', 'O', 'N', 'E']);
}

/// No mark holds one that is cut out before it.
proof fn lemma_marks_are_apart(k: int, e: int, j: int)
    requires
        0 <= e < k < 13,
        k != 4,
        k != 5,
    ensures
        !sub_at(cuts()[k], cuts()[e], j),
{
    lemma_cuts();
    let m = cuts()[k];
    let p = cuts()[e];
    if sub_at(m, p, j) {
        let q = m.subrange(j, j + p.len());
        assert(q[0] == m[j] && q[1] == m[j + 1] && q[2] == m[j + 2]);
        if k == 1 {
        } else if k == 2 || k == 3 {
        } else if k <= 7 {
        } else if k <= 10 {
        } else {
        }
        assert(false);
    }
}

/// A name without a mark, in which nothing is doubled and no separator stands at an end, is left as it
/// is.
pub proof fn law_unmarked_name_is_its_own_stem(s: Seq<char>)
    requires
        !has_sub(s, seq!['_', '5', 'G']),
        !has_sub(s, seq!['-', '5', 'G']),
        !has_sub(s, seq!['5', 'G', '_']),
        !has_sub(s, seq!['5', 'G', '-']),
        !has_sub(s, seq!['_', '2', '.', '4', 'G']),
        !has_sub(s, seq!['-', '2', '.', '4', 'G']),
        !has_sub(s, seq!['_', '2', 'G']),
        !has_sub(s, seq!['-', '2', 'G']),
        !has_sub(s, seq!['_', '2', '4', 'G']),
        !has_sub(s, seq!['_', 'C', 'L', 'O', 'N', 'E']),
        !has_sub(s, seq!['-', 'C', 'L', 'O', 'N', 'E']),
        !has_sub(s, seq!['_', '_']),
        s.len() > 0 ==> s[0] != '_' && s[0] != '-' && s.last() != '_' && s.last() != '-',
    ensures
        stem_of(s) == s,
{
    lemma_cuts();
    reveal_strlit("");
    assert(""@ == Seq::<char>::empty());
    if has_sub(s, cuts()[0]) {
        let i = choose|i: int| sub_at(s, cuts()[0], i);
        assert(s.subrange(i, i + 3) == s.subrange(i, i + 9).take(3));
        assert(s.subrange(i, i + 3) == seq!['_', '5', 'G']);
        assert(sub_at(s, seq!['_', '5', 'G'], i));
    }
    if has_sub(s, cuts()[1]) {
        let i = choose|i: int| sub_at(s, cuts()[1], i);
        assert(s.subrange(i, i + 3) == s.subrange(i, i + 9).take(3));
        assert(s.subrange(i, i + 3) == seq!['-', '5', 'G']);
        assert(sub_at(s, seq!['-', '5', 'G'], i));
    }
    assert forall|k: int| 0 <= k < 13 implies replaced(s, #[trigger] cuts()[k], ""@) == s by {
        assert(!has_sub(s, cuts()[k]));
        lemma_nothing_to_replace(s, cuts()[k], ""@);
    }
    assert(cuts()[0] == "_5G_CLONE"@ && cuts()[1] == "-5G-CLONE"@ && cuts()[2] == "_5G"@
        && cuts()[3] == "-5G"@ && cuts()[4] == "5G_"@ && cuts()[5] == "5G-"@ && cuts()[6]
        == "_2.4G"@ && cuts()[7] == "-2.4G"@ && cuts()[8] == "_2G"@ && cuts()[9] == "-2G"@
        && cuts()[10] == "_24G"@ && cuts()[11] == "_CLONE"@ && cuts()[12] == "-CLONE"@);
    assert(without_band_marks(s) == s);
    lemma_squeezed_fixed(s);
}

/// The name after the first `n` cuts.
spec fn after_cuts(s: Seq<char>, n: nat) -> Seq<char>
    decreases n,
{
    if n == 0 {
        s
    } else {
        replaced(after_cuts(s, (n - 1) as nat), cuts()[n - 1], ""@)
    }
}

proof fn lemma_after_cuts(s: Seq<char>)
    ensures
        without_band_marks(s) == after_cuts(s, 13),
{
    reveal_with_fuel(after_cuts, 14);
}

/// A plain name with a mark behind it keeps the mark up to the cut that is for it.
proof fn lemma_mark_is_cut(b: Seq<char>, k: int, n: nat)
    requires
        is_plain(b),
        0 <= k < 13,
        k != 4,
        k != 5,
        n <= 13,
    ensures
        after_cuts(b + cuts()[k], n) == (if n <= k {
            b + cuts()[k]
        } else {
            b
        }),
    decreases n,
{
    lemma_cuts();
    reveal_strlit("");
    assert(""@ == Seq::<char>::empty());
    let m = cuts()[k];
    if n > 0 {
        lemma_mark_is_cut(b, k, (n - 1) as nat);
        let e = n - 1;
        let p = cuts()[e];
        assert(is_cut(p));
        if e < k {
            assert forall|j: int| !sub_at(m, p, j) by {
                lemma_marks_are_apart(k, e, j);
            }
            lemma_cut_keeps(b, m, p);
        } else if e == k {
            lemma_cut_strips(b, m);
        } else {
            let none = Seq::<char>::empty();
            assert forall|j: int| !sub_at(none, p, j) by {}
            lemma_cut_keeps(b, none, p);
            assert(b + none == b);
        }
    }
}

/// A plain name is its own stem.
proof fn lemma_plain_stem(b: Seq<char>)
    requires
        is_plain(b),
    ensures
        trim_both(squeezed(b), Class::Either('_', '-')) == b,
        after_cuts(b, 13) == b,
{
    if has_sub(b, seq!['_', '_']) {
        let i = choose|i: int| sub_at(b, seq!['_', '_'], i);
        assert(b.subrange(i, i + 2)[0] == b[i]);
        assert(!is_separator(b[i]));
    }
    lemma_squeezed_fixed(b);
    lemma_plain_is_not_cut(b, 13);
}

proof fn lemma_plain_is_not_cut(b: Seq<char>, n: nat)
    requires
        is_plain(b),
        n <= 13,
    ensures
        after_cuts(b, n) == b,
    decreases n,
{
    lemma_cuts();
    reveal_strlit("");
    assert(""@ == Seq::<char>::empty());
    if n > 0 {
        lemma_plain_is_not_cut(b, (n - 1) as nat);
        let none = Seq::<char>::empty();
        let p = cuts()[n - 1];
        assert(is_cut(p));
        assert forall|j: int| !sub_at(none, p, j) by {}
        lemma_cut_keeps(b, none, p);
        assert(b + none == b);
    }
}

/// The marks that routers and repeaters put behind a name.
pub open spec fn is_mark(m: Seq<char>) -> bool {
    ||| m == seq!['_', '5', 'G']
    ||| m == seq!['-', '5', 'G']
    ||| m == seq!['_', '2', '.', '4', 'G']
    ||| m == seq!['-', '2', '.', '4', 'G']
    ||| m == seq!['_', '2', 'G']
    ||| m == seq!['-', '2', 'G']
    ||| m == seq!['_', '2', '4', 'G']
    ||| m == seq!['_', 'C', 'L', 'O', 'N', 'E']
    ||| m == seq!['-', 'C', 'L', 'O', 'N', 'E']
    ||| m == seq!['_', '5', 'G', '_', 'C', 'L', 'O', 'N', 'E']
    ||| m == seq!['-', '5', 'G', '-', 'C', 'L', 'O', 'N', 'E']
}

proof fn lemma_mark_index(m: Seq<char>) -> (k: int)
    requires
        is_mark(m),
    ensures
        0 <= k < 13,
        k != 4,
        k != 5,
        m == cuts()[k],
{
    lemma_cuts();
    if m == cuts()[0] {
        0
    } else if m == cuts()[1] {
        1
    } else if m == cuts()[2] {
        2
    } else if m == cuts()[3] {
        3
    } else if m == cuts()[6] {
        6
    } else if m == cuts()[7] {
        7
    } else if m == cuts()[8] {
        8
    } else if m == cuts()[9] {
        9
    } else if m == cuts()[10] {
        10
    } else if m == cuts()[11] {
        11
    } else {
        12
    }
}

/// A name with the mark of a band or of a repeater behind it has the stem of the name without it: the
/// two bands of a router are known for one by their names.
pub proof fn law_mark_behind_a_name_is_dropped(b: Seq<char>, m: Seq<char>)
    requires
        forall|i: int| 0 <= i < b.len() ==> #[trigger] b[i] != '_' && b[i] != '-',
        !(b.len() >= 2 && b[b.len() - 2] == '5' && b[b.len() - 1] == 'G'),
        is_mark(m),
    ensures
        stem_of(b + m) == b,
        stem_of(b) == b,
{
    lemma_cuts();
    assert(is_plain(b));
    let k = lemma_mark_index(m);
    lemma_mark_is_cut(b, k, 13);
    lemma_after_cuts(b + m);
    lemma_after_cuts(b);
    lemma_plain_stem(b);
}

/// A name in front of which `5G` and a separator stand keeps them up to the cut that is for them.
proof fn lemma_front_is_cut(b: Seq<char>, k: int, n: nat)
    requires
        forall|i: int| 0 <= i < b.len() ==> !is_separator(#[trigger] b[i]),
        b.len() > 0,
        is_plain(b),
        k == 4 || k == 5,
        !(b.len() >= 2 && b[0] == '5' && b[1] == 'G'),
        !(b.len() >= 2 && b[0] == '2' && b[1] == 'G'),
        !(b.len() >= 4 && b[0] == '2' && b[1] == '.' && b[2] == '4' && b[3] == 'G'),
        !(b.len() >= 3 && b[0] == '2' && b[1] == '4' && b[2] == 'G'),
        !(b.len() >= 5 && b[0] == 'C' && b[1] == 'L' && b[2] == 'O' && b[3] == 'N' && b[4] == 'E'),
        n <= 13,
    ensures
        after_cuts(cuts()[k] + b, n) == (if n <= k {
            cuts()[k] + b
        } else {
            b
        }),
    decreases n,
{
    lemma_cuts();
    reveal_strlit("");
    assert(""@ == Seq::<char>::empty());
    let f = cuts()[k];
    let s = f + b;
    if n > 0 {
        lemma_front_is_cut(b, k, (n - 1) as nat);
        let e = n - 1;
        let p = cuts()[e];
        assert(is_cut(p));
        assert(s[0] == '5' && s[1] == 'G' && s[2] == f[2]);
        if e < k {
            if has_sub(s, p) {
                let i = choose|i: int| sub_at(s, p, i);
                let q = s.subrange(i, i + p.len());
                assert(q[0] == s[i] && q[1] == s[i + 1] && q[2] == s[i + 2]);
                if i >= 3 {
                    assert(s[i] == b[i - 3] && s[i + 1] == b[i - 2] && s[i + 2] == b[i - 1]);
                    assert(!is_separator(b[i - 3]) && !is_separator(b[i - 1]));
                } else if i == 2 {
                    assert(s[3] == b[0] && s[4] == b[1]);
                } else if i == 1 {
                    assert(s[3] == b[0]);
                }
                assert(false);
            }
            lemma_nothing_to_replace(s, p, seq![]);
        } else if e == k {
            assert(s.take(3) == p);
            assert(s.skip(3) == b);
            let none = Seq::<char>::empty();
            assert forall|j: int| !sub_at(none, p, j) by {}
            lemma_cut_keeps(b, none, p);
            assert(b + none == b);
            assert(none + replaced(b, p, seq![]) == b);
        } else {
            let none = Seq::<char>::empty();
            assert forall|j: int| !sub_at(none, p, j) by {}
            lemma_cut_keeps(b, none, p);
            assert(b + none == b);
        }
    }
}

/// A name with `5G` and a separator in front of it has the stem of the name without them.
pub proof fn law_mark_before_a_name_is_dropped(b: Seq<char>, sep: char)
    requires
        sep == '_' || sep == '-',
        b.len() > 0,
        forall|i: int|
            0 <= i < b.len() ==> ('a' <= #[trigger] b[i] && b[i] <= 'z') || ('A' <= b[i] && b[i]
                <= 'Z'),
        !(b.len() >= 5 && b[0] == 'C' && b[1] == 'L' && b[2] == 'O' && b[3] == 'N' && b[4] == 'E'),
    ensures
        stem_of(seq!['5', 'G', sep] + b) == b,
{
    lemma_cuts();
    assert forall|i: int| 0 <= i < b.len() implies !is_separator(#[trigger] b[i]) by {}
    assert(is_plain(b)) by {
        if b.len() >= 2 {
            assert(b[b.len() - 2] != '5');
        }
    }
    let k: int = if sep == '_' {
        4
    } else {
        5
    };
    assert(cuts()[k] =~= seq!['5', 'G', sep]);
    lemma_front_is_cut(b, k, 13);
    lemma_after_cuts(seq!['5', 'G', sep] + b);
    lemma_plain_stem(b);
}

/// A part of a name that is not itself the word of a mark.
pub open spec fn is_word(c: Seq<char>) -> bool {
    &&& c.len() > 0
    &&& is_plain(c)
    &&& !(c.len() >= 2 && c[0] == '5' && c[1] == 'G')
    &&& !(c.len() >= 2 && c[0] == '2' && c[1] == 'G')
    &&& !(c.len() >= 4 && c[0] == '2' && c[1] == '.' && c[2] == '4' && c[3] == 'G')
    &&& !(c.len() >= 3 && c[0] == '2' && c[1] == '4' && c[2] == 'G')
    &&& !(c.len() >= 5 && c[0] == 'C' && c[1] == 'L' && c[2] == 'O' && c[3] == 'N' && c[4] == 'E')
}

/// Nothing is cut out where a word follows a separator.
proof fn lemma_word_is_not_cut(sep: char, c: Seq<char>, e: int, j: int)
    requires
        is_separator(sep),
        is_word(c),
        0 <= e < 13,
    ensures
        !sub_at(seq![sep] + c, cuts()[e], j),
{
    lemma_cuts();
    let r = seq![sep] + c;
    let p = cuts()[e];
    assert(is_cut(p));
    if sub_at(r, p, j) {
        let q = r.subrange(j, j + p.len());
        assert forall|x: int| 0 <= x < p.len() implies #[trigger] p[x] == r[j + x] by {
            assert(q[x] == r[j + x]);
        }
        if j > 0 {
            assert(r[j] == c[j - 1] && r[j + 2] == c[j + 1]);
            assert(!is_separator(c[j - 1]) && !is_separator(c[j + 1]));
            assert(p[0] == r[j] && p[2] == r[j + 2]);
        } else {
            assert(r[1] == c[0] && r[2] == c[1]);
            assert(p[0] == r[0] && p[1] == r[1] && p[2] == r[2]);
            if p.len() > 3 {
                assert(r[3] == c[2] && p[3] == r[3]);
            }
            if p.len() > 4 {
                assert(r[4] == c[3] && p[4] == r[4]);
            }
            if p.len() > 5 {
                assert(r[5] == c[4] && p[5] == r[5]);
            }
        }
        assert(false);
    }
}

/// What is cut out before a mark does not stand in the mark and a word behind it.
proof fn lemma_marked_word_is_apart(k: int, sep: char, c: Seq<char>, e: int, j: int)
    requires
        0 <= e < k < 13,
        k != 4,
        k != 5,
        is_separator(sep),
        is_word(c),
    ensures
        !sub_at(cuts()[k] + (seq![sep] + c), cuts()[e], j),
{
    lemma_cuts();
    let m = cuts()[k];
    let r = seq![sep] + c;
    let t = m + r;
    let p = cuts()[e];
    let n = m.len() as int;
    assert(is_cut(p) && is_cut(m));
    if sub_at(t, p, j) {
        let q = t.subrange(j, j + p.len());
        assert forall|x: int| 0 <= x < p.len() implies #[trigger] p[x] == t[j + x] by {
            assert(q[x] == t[j + x]);
        }
        if j >= n {
            assert(q == r.subrange(j - n, j - n + p.len()));
            lemma_word_is_not_cut(sep, c, e, j - n);
        } else {
            assert(p[0] == t[j] && p[1] == t[j + 1] && p[2] == t[j + 2]);
            assert(t[n] == sep);
            if j == 0 {
                assert(t[0] == m[0] && t[1] == m[1] && t[2] == m[2]);
                if k == 2 && e == 0 {
                    assert(p[4] == t[4] && p[5] == t[5] && p[6] == t[6] && p[7] == t[7] && p[8]
                        == t[8]);
                    assert(t[4] == c[0] && t[5] == c[1] && t[6] == c[2] && t[7] == c[3] && t[8]
                        == c[4]);
                } else if k == 3 && e == 1 {
                    assert(p[4] == t[4] && p[5] == t[5] && p[6] == t[6] && p[7] == t[7] && p[8]
                        == t[8]);
                    assert(t[4] == c[0] && t[5] == c[1] && t[6] == c[2] && t[7] == c[3] && t[8]
                        == c[4]);
                }
            } else {
                assert(t[j] == m[j]);
                if j + 1 < n {
                    assert(t[j + 1] == m[j + 1]);
                }
            }
        }
        assert(false);
    }
}

/// A name in two parts with a mark behind the first keeps the mark up to the cut that is for it.
proof fn lemma_inner_mark_is_cut(b: Seq<char>, k: int, sep: char, c: Seq<char>, n: nat)
    requires
        is_plain(b),
        is_word(c),
        is_separator(sep),
        0 <= k < 13,
        k != 4,
        k != 5,
        n <= 13,
    ensures
        after_cuts(b + (cuts()[k] + (seq![sep] + c)), n) == (if n <= k {
            b + (cuts()[k] + (seq![sep] + c))
        } else {
            b + (seq![sep] + c)
        }),
    decreases n,
{
    lemma_cuts();
    reveal_strlit("");
    assert(""@ == Seq::<char>::empty());
    let m = cuts()[k];
    let r = seq![sep] + c;
    if n > 0 {
        lemma_inner_mark_is_cut(b, k, sep, c, (n - 1) as nat);
        let e = n - 1;
        let p = cuts()[e];
        assert(is_cut(p) && is_cut(m));
        assert forall|j: int| !sub_at(r, p, j) by {
            lemma_word_is_not_cut(sep, c, e, j);
        }
        if e < k {
            let t = m + r;
            assert forall|j: int| !sub_at(t, p, j) by {
                lemma_marked_word_is_apart(k, sep, c, e, j);
            }
            assert(is_separator(t[0])) by {
                assert(t[0] == m[0]);
            }
            lemma_cut_keeps(b, t, p);
        } else if e == k {
            let t = m + r;
            let s = b + t;
            let x = b.len() as int;
            assert(is_separator(t[0])) by {
                assert(t[0] == m[0]);
            }
            assert forall|i: int| 0 <= i < x implies !sub_at(s, m, i) by {
                if sub_at(s, m, i) {
                    lemma_cut_is_in_tail(b, t, m, i);
                }
            }
            lemma_replaced_after(s, m, x);
            assert(s.take(x) == b);
            assert(s.skip(x) == t);
            assert(t.take(m.len() as int) == m);
            assert(t.skip(m.len() as int) == r);
            lemma_cut_keeps(seq![], r, m);
            assert(Seq::<char>::empty() + r == r);
            assert(Seq::<char>::empty() + replaced(r, m, seq![]) == r);
        } else {
            lemma_cut_keeps(b, r, p);
        }
    }
}

proof fn lemma_pair_is_tidy(b: Seq<char>, sep: char, c: Seq<char>)
    requires
        b.len() > 0,
        is_plain(b),
        is_word(c),
    ensures
        trim_both(squeezed(b + (seq![sep] + c)), Class::Either('_', '-')) == b + (seq![sep] + c),
{
    let t = b + (seq![sep] + c);
    if has_sub(t, seq!['_', '_']) {
        let i = choose|i: int| sub_at(t, seq!['_', '_'], i);
        assert(t.subrange(i, i + 2)[0] == t[i] && t.subrange(i, i + 2)[1] == t[i + 1]);
        if i < b.len() {
            assert(t[i] == b[i]);
            assert(!is_separator(b[i]));
        } else {
            assert(t[i + 1] == c[i - b.len()]);
            assert(!is_separator(c[i - b.len()]));
        }
    }
    lemma_squeezed_fixed(t);
    assert(t[0] == b[0] && !is_separator(b[0]));
    assert(t.last() == c.last() && !is_separator(c[c.len() - 1]));
}

/// A mark between two parts of a name is dropped too, and both parts stay with what stands between
/// them.
pub proof fn law_mark_inside_a_name_is_dropped(
    b: Seq<char>,
    m: Seq<char>,
    sep: char,
    c: Seq<char>,
)
    requires
        b.len() > 0,
        is_plain(b),
        is_word(c),
        sep == '_' || sep == '-',
        is_mark(m),
    ensures
        stem_of(b + m + seq![sep] + c) == b + seq![sep] + c,
        stem_of(b + seq![sep] + c) == b + seq![sep] + c,
{
    lemma_cuts();
    let k = lemma_mark_index(m);
    let r = seq![sep] + c;
    let t = b + r;
    assert(b + m + seq![sep] + c == b + (m + r));
    assert(b + seq![sep] + c == t);
    lemma_inner_mark_is_cut(b, k, sep, c, 13);
    lemma_after_cuts(b + (m + r));
    lemma_after_cuts(t);
    lemma_unmarked_pair(b, sep, c, 13);
    lemma_pair_is_tidy(b, sep, c);
}

proof fn lemma_unmarked_pair(b: Seq<char>, sep: char, c: Seq<char>, n: nat)
    requires
        is_plain(b),
        is_word(c),
        is_separator(sep),
        n <= 13,
    ensures
        after_cuts(b + (seq![sep] + c), n) == b + (seq![sep] + c),
    decreases n,
{
    lemma_cuts();
    reveal_strlit("");
    assert(""@ == Seq::<char>::empty());
    if n > 0 {
        lemma_unmarked_pair(b, sep, c, (n - 1) as nat);
        let r = seq![sep] + c;
        let p = cuts()[n - 1];
        assert(is_cut(p));
        assert forall|j: int| !sub_at(r, p, j) by {
            lemma_word_is_not_cut(sep, c, n - 1, j);
        }
        lemma_cut_keeps(b, r, p);
    }
}

} // verus!
