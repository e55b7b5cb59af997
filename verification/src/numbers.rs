//! Decimal numbers: how integers are written, and which texts are read as one.

use crate::text::to_chars;
use vstd::prelude::*;
use vstd::string::*;

verus! {

pub open spec fn digit_char(d: int) -> char {
    ((48 + d) as u8) as char
}

/// The decimal digits of `n`, without leading zeros.
pub open spec fn dec(n: nat) -> Seq<char>
    decreases n,
{
    if n < 10 {
        seq![digit_char(n as int)]
    } else {
        dec(n / 10).push(digit_char((n % 10) as int))
    }
}

/// The decimal form of an integer.
pub open spec fn dec_int(i: int) -> Seq<char> {
    if i < 0 {
        seq!['-'] + dec((-i) as nat)
    } else {
        dec(i as nat)
    }
}

/// The decimal form of an unsigned number.
pub fn u64_text(n: u64) -> (r: String)
    ensures
        r@ == dec(n as nat),
    decreases n,
{
    let mut out = if n < 10 {
        String::new()
    } else {
        u64_text(n / 10)
    };
    let d: u8 = (n % 10) as u8;
    out.push((48 + d) as char);
    assert(n < 10 ==> out@ == seq![digit_char(n as int)]);
    out
}

/// The decimal form of a size.
pub fn usize_text(n: usize) -> (r: String)
    ensures
        r@ == dec(n as nat),
{
    u64_text(n as u64)
}

/// The decimal form of a signed number.
pub fn i32_text(i: i32) -> (r: String)
    ensures
        r@ == dec_int(i as int),
{
    if i < 0 {
        let mut out = String::new();
        out.push('-');
        let m: u64 = (-(i as i64)) as u64;
        out.append(u64_text(m).as_str());
        assert(out@ == seq!['-'] + dec((-i) as nat));
        out
    } else {
        u64_text(i as u64)
    }
}

pub open spec fn is_digit(c: char) -> bool {
    '0' <= c <= '9'
}

/// One or more decimal digits and nothing else.
pub open spec fn all_digits(s: Seq<char>) -> bool {
    s.len() > 0 && forall|i: int| 0 <= i < s.len() ==> is_digit(#[trigger] s[i])
}

/// The number that a run of digits stands for.
pub open spec fn digits_value(s: Seq<char>) -> nat
    decreases s.len(),
{
    if s.len() == 0 {
        0
    } else {
        digits_value(s.drop_last()) * 10 + (s.last() as nat - 48) as nat
    }
}

/// The value of digits with an optional plus sign, where it is at most `max`.
pub open spec fn unsigned_value(s: Seq<char>, max: nat) -> Option<nat> {
    let t = if s.len() > 0 && s[0] == '+' {
        s.skip(1)
    } else {
        s
    };
    if all_digits(t) && digits_value(t) <= max {
        Some(digits_value(t))
    } else {
        None
    }
}

/// The value of digits with an optional sign, where it is from `-max - 1` to `max`.
pub open spec fn signed_value(s: Seq<char>, max: nat) -> Option<int> {
    if s.len() > 0 && s[0] == '-' {
        if all_digits(s.skip(1)) && digits_value(s.skip(1)) <= max + 1 {
            Some(-(digits_value(s.skip(1)) as int))
        } else {
            None
        }
    } else {
        match unsigned_value(s, max) {
            Some(v) => Some(v as int),
            None => None,
        }
    }
}

/// Reads the digits from `from` to the end, where they are worth at most `max`.
fn read_digits(v: &Vec<char>, from: usize, max: u64) -> (r: Option<u64>)
    requires
        from <= v@.len(),
    ensures
        r == (if all_digits(v@.skip(from as int)) && digits_value(v@.skip(from as int)) <= max {
            Some(digits_value(v@.skip(from as int)) as u64)
        } else {
            None
        }),
{
    let ghost s = v@.skip(from as int);
    if from == v.len() {
        return None;
    }
    let mut acc: u64 = 0;
    let mut over = false;
    let mut i: usize = from;
    assert(s.take(0) == Seq::<char>::empty());
    while i < v.len()
        invariant
            s == v@.skip(from as int),
            from <= i <= v@.len(),
            forall|x: int| 0 <= x < i - from ==> is_digit(#[trigger] s[x]),
            !over ==> acc == digits_value(s.take(i - from)) && acc <= max,
            over ==> digits_value(s.take(i - from)) > max,
        decreases v@.len() - i,
    {
        let c = v[i];
        if c < '0' || c > '9' {
            assert(!is_digit(s[i - from]));
            return None;
        }
        let d: u64 = (c as u32 - 48) as u64;
        proof {
            let t = s.take(i - from + 1);
            assert(t.drop_last() == s.take(i - from));
            assert(t.last() == c);
        }
        if !over {
            let wide: u128 = acc as u128 * 10 + d as u128;
            if wide > max as u128 {
                over = true;
            } else {
                acc = wide as u64;
            }
        }
        i = i + 1;
    }
    assert(s.take(i - from) == s);
    if over {
        None
    } else {
        Some(acc)
    }
}

/// Reads an unsigned number of at most `max`.
pub fn parse_unsigned(s: &str, max: u64) -> (r: Option<u64>)
    ensures
        r == (match unsigned_value(s@, max as nat) {
            Some(v) => Some(v as u64),
            None => None,
        }),
{
    let v = to_chars(s);
    if v.len() > 0 && v[0] == '+' {
        read_digits(&v, 1, max)
    } else {
        assert(v@.skip(0) == v@);
        read_digits(&v, 0, max)
    }
}

/// Reads a `u64`, as `str::parse` does.
pub fn parse_u64(s: &str) -> (r: Option<u64>)
    ensures
        r == (match unsigned_value(s@, u64::MAX as nat) {
            Some(v) => Some(v as u64),
            None => None,
        }),
{
    parse_unsigned(s, u64::MAX)
}

/// Reads a `u32`, as `str::parse` does.
pub fn parse_u32(s: &str) -> (r: Option<u32>)
    ensures
        r == (match unsigned_value(s@, u32::MAX as nat) {
            Some(v) => Some(v as u32),
            None => None,
        }),
{
    match parse_unsigned(s, u32::MAX as u64) {
        Some(v) => Some(v as u32),
        None => None,
    }
}

/// Reads a signed number from `-max - 1` to `max`.
fn parse_signed(s: &str, max: u64) -> (r: Option<i128>)
    requires
        max < u64::MAX,
    ensures
        r == (match signed_value(s@, max as nat) {
            Some(v) => Some(v as i128),
            None => None,
        }),
{
    let v = to_chars(s);
    if v.len() > 0 && v[0] == '-' {
        match read_digits(&v, 1, max + 1) {
            Some(m) => Some(-(m as i128)),
            None => None,
        }
    } else {
        match parse_unsigned(s, max) {
            Some(m) => Some(m as i128),
            None => None,
        }
    }
}

/// Reads an `i32`, as `str::parse` does.
pub fn parse_i32(s: &str) -> (r: Option<i32>)
    ensures
        r == (match signed_value(s@, i32::MAX as nat) {
            Some(v) => Some(v as i32),
            None => None,
        }),
{
    match parse_signed(s, i32::MAX as u64) {
        Some(v) => Some(v as i32),
        None => None,
    }
}

/// Reads an `i64`, as `str::parse` does.
pub fn parse_i64(s: &str) -> (r: Option<i64>)
    ensures
        r == (match signed_value(s@, i64::MAX as nat) {
            Some(v) => Some(v as i64),
            None => None,
        }),
{
    match parse_signed(s, i64::MAX as u64) {
        Some(v) => Some(v as i64),
        None => None,
    }
}

/// The decimal form of a number is made of digits, and is worth that number.
pub proof fn lemma_dec(n: nat)
    ensures
        all_digits(dec(n)),
        digits_value(dec(n)) == n,
    decreases n,
{
    if n < 10 {
        let s = dec(n);
        assert(s.drop_last() == Seq::<char>::empty());
        assert(digits_value(s.drop_last()) == 0);
    } else {
        lemma_dec(n / 10);
        let s = dec(n);
        assert(s.drop_last() == dec(n / 10));
        assert forall|i: int| 0 <= i < s.len() implies is_digit(#[trigger] s[i]) by {
            if i < s.len() - 1 {
                assert(s[i] == dec(n / 10)[i]);
            }
        }
    }
}

/// Reading the decimal form of a number gives the number back.
pub proof fn law_decimal_read_back(n: nat, max: nat)
    requires
        n <= max,
    ensures
        unsigned_value(dec(n), max) == Some(n),
{
    lemma_dec(n);
    assert(is_digit(dec(n)[0]));
}

/// Reading the decimal form of a signed number gives the number back.
pub proof fn law_signed_decimal_read_back(i: int, max: nat)
    requires
        -max - 1 <= i <= max,
    ensures
        signed_value(dec_int(i), max) == Some(i),
{
    if i < 0 {
        lemma_dec((-i) as nat);
        assert(dec_int(i).skip(1) == dec((-i) as nat));
    } else {
        law_decimal_read_back(i as nat, max);
        lemma_dec(i as nat);
        assert(is_digit(dec(i as nat)[0]));
    }
}

/// Only digits are read as a number, with a sign before them where one may stand; what does not fit is
/// not read.
pub proof fn law_only_digits_are_numbers(s: Seq<char>, max: nat)
    ensures
        unsigned_value(s, max) is Some ==> s.len() > 0 && (s[0] == '+' || ('0' <= s[0] && s[0]
            <= '9')) && (s[0] == '+' ==> s.len() > 1) && forall|i: int|
            1 <= i < s.len() ==> '0' <= #[trigger] s[i] && s[i] <= '9',
        unsigned_value(s, max) matches Some(v) ==> v <= max,
        signed_value(s, max) is Some ==> s.len() > 0 && forall|i: int|
            1 <= i < s.len() ==> '0' <= #[trigger] s[i] && s[i] <= '9',
        signed_value(s, max) matches Some(v) ==> -max - 1 <= v <= max,
        s.len() > 0 && s[0] != '-' && s[0] != '+' ==> (signed_value(s, max) is Some
            <==> unsigned_value(s, max) is Some),
{
    let t = s.skip(1);
    if unsigned_value(s, max) is Some && s[0] == '+' || s.len() > 0 && s[0] == '-' && signed_value(
        s,
        max,
    ) is Some {
        assert forall|i: int| 1 <= i < s.len() implies '0' <= #[trigger] s[i] && s[i] <= '9' by {
            assert(is_digit(t[i - 1]));
        }
    } else if unsigned_value(s, max) is Some || signed_value(s, max) is Some {
        if s.len() > 0 && s[0] == '+' {
            assert forall|i: int| 1 <= i < s.len() implies '0' <= #[trigger] s[i] && s[i]
                <= '9' by {
                assert(is_digit(t[i - 1]));
            }
        } else {
            assert(is_digit(s[0]));
            assert forall|i: int| 1 <= i < s.len() implies '0' <= #[trigger] s[i] && s[i]
                <= '9' by {
                assert(is_digit(s[i]));
            }
        }
    }
}

/// Each further digit makes a number ten times as large, and adds itself.
pub proof fn law_digits_are_decimal(s: Seq<char>, c: char, max: nat)
    requires
        all_digits(s),
        '0' <= c && c <= '9',
        digits_value(s) * 10 + 9 <= max,
    ensures
        unsigned_value(s.push(c), max) == Some(
            (unsigned_value(s, max)->0 * 10 + (c as u32 - 48)) as nat,
        ),
        unsigned_value(seq![c], 9) == Some((c as u32 - 48) as nat),
{
    let q = s.push(c);
    assert(q.drop_last() == s);
    assert(is_digit(s[0]) && q[0] == s[0]);
    assert forall|i: int| 0 <= i < q.len() implies is_digit(#[trigger] q[i]) by {
        if i < s.len() {
            assert(q[i] == s[i]);
        }
    }
    assert(all_digits(q));
    let o = seq![c];
    assert(o.drop_last() == Seq::<char>::empty());
    assert(digits_value(o.drop_last()) == 0);
    assert forall|i: int| 0 <= i < o.len() implies is_digit(#[trigger] o[i]) by {}
    assert(all_digits(o));
}

} // verus!
