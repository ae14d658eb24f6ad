//! Decimal text of integers: how a number is written, how it is read back,
//! and the proofs that the two agree.

use vstd::prelude::*;

verus! {

/// Whether `c` is one of the ten ASCII digits.
pub open spec fn is_digit(c: char) -> bool {
    '0' <= c && c <= '9'
}

/// The number that the digit `c` stands for.
pub open spec fn digit_value(c: char) -> int {
    c as int - 48
}

/// The digit that stands for `d`, for `d` from 0 to 9.
pub open spec fn digit_char(d: int) -> char {
    (d + 48) as char
}

/// The number written by the digit string `s`, most significant digit first.
pub open spec fn digits_value(s: Seq<char>) -> int
    decreases s.len(),
{
    if s.len() == 0 {
        0
    } else {
        digits_value(s.drop_last()) * 10 + digit_value(s.last())
    }
}

/// Whether `s` is a non-empty run of digits.
pub open spec fn all_digits(s: Seq<char>) -> bool {
    s.len() > 0 && forall|i: int| 0 <= i < s.len() ==> is_digit(#[trigger] s[i])
}

/// The digits of `n` without sign and without leading zeros.
pub open spec fn digits_of(n: nat) -> Seq<char>
    decreases n,
{
    if n < 10 {
        seq![digit_char(n as int)]
    } else {
        digits_of(n / 10).push(digit_char((n % 10) as int))
    }
}

/// The decimal text of `n`: a minus sign for a negative number, then its
/// digits without leading zeros.
pub open spec fn decimal(n: int) -> Seq<char> {
    if n < 0 {
        seq!['-'] + digits_of((-n) as nat)
    } else {
        digits_of(n as nat)
    }
}

/// Whether `s` is the text that `decimal` writes for some number from 0 up:
/// digits only, and no leading zero unless the text is the single digit 0.
pub open spec fn is_canonical(s: Seq<char>) -> bool {
    all_digits(s) && (s.len() == 1 || s[0] != '0')
}

/// What reading `s` as an integer between `lo` and `hi` gives. The text is an
/// optional sign followed by digits only; a minus sign is a sign only where
/// `signed` holds. `None` stands for every rejected text: an empty one, a
/// sign alone, a character that is no digit, a number out of range.
pub open spec fn parse_int(s: Seq<char>, signed: bool, lo: int, hi: int) -> Option<int> {
    let negative = signed && s.len() > 0 && s[0] == '-';
    let body = if s.len() > 0 && (s[0] == '+' || negative) {
        s.skip(1)
    } else {
        s
    };
    let v = if negative {
        -digits_value(body)
    } else {
        digits_value(body)
    };
    if all_digits(body) && lo <= v <= hi {
        Some(v)
    } else {
        None
    }
}

/// Reading as a signed 64-bit integer.
pub open spec fn parse_i64_spec(s: Seq<char>) -> Option<int> {
    parse_int(s, true, -0x8000_0000_0000_0000, 0x7fff_ffff_ffff_ffff)
}

/// Reading as a signed 32-bit integer.
pub open spec fn parse_i32_spec(s: Seq<char>) -> Option<int> {
    parse_int(s, true, -0x8000_0000, 0x7fff_ffff)
}

/// Reading as an unsigned 16-bit integer.
pub open spec fn parse_u16_spec(s: Seq<char>) -> Option<int> {
    parse_int(s, false, 0, 0xffff)
}

/// A run of digits is worth at least as much as any of its prefixes.
pub proof fn lemma_digits_value_prefix(s: Seq<char>, k: int)
    requires
        0 <= k <= s.len(),
        forall|i: int| 0 <= i < s.len() ==> is_digit(#[trigger] s[i]),
    ensures
        0 <= digits_value(s.subrange(0, k)) <= digits_value(s),
    decreases s.len() - k,
{
    if k == s.len() {
        assert(s.subrange(0, k) =~= s);
        lemma_digits_value_nonneg(s);
    } else {
        let t = s.drop_last();
        assert(t.subrange(0, k) =~= s.subrange(0, k));
        lemma_digits_value_prefix(t, k);
        assert(is_digit(s.last()));
    }
}

/// A run of digits is worth zero or more.
pub proof fn lemma_digits_value_nonneg(s: Seq<char>)
    requires
        forall|i: int| 0 <= i < s.len() ==> is_digit(#[trigger] s[i]),
    ensures
        0 <= digits_value(s),
    decreases s.len(),
{
    if s.len() > 0 {
        lemma_digits_value_nonneg(s.drop_last());
        assert(is_digit(s.last()));
    }
}

/// The digits written for `n` are digits, canonical, and worth `n`.
pub proof fn lemma_digits_of_value(n: nat)
    ensures
        is_canonical(digits_of(n)),
        digits_value(digits_of(n)) == n,
    decreases n,
{
    if n < 10 {
        let s = digits_of(n);
        assert(s.drop_last() =~= Seq::<char>::empty());
        assert(digits_value(s.drop_last()) == 0);
    } else {
        let q = n / 10;
        let s = digits_of(n);
        lemma_digits_of_value(q);
        assert(s.drop_last() =~= digits_of(q));
        assert(s[0] == digits_of(q)[0]);
        if digits_of(q).len() == 1 {
            assert(digits_value(digits_of(q).drop_last()) == 0) by {
                assert(digits_of(q).drop_last() =~= Seq::<char>::empty());
            }
        }
    }
}

/// A canonical text with a leading digit other than 0 is worth more than 0.
proof fn lemma_leading_digit_positive(s: Seq<char>)
    requires
        all_digits(s),
        s[0] != '0',
    ensures
        digits_value(s) > 0,
    decreases s.len(),
{
    let t = s.drop_last();
    assert(is_digit(s.last()));
    if t.len() == 0 {
        assert(s.last() == s[0]);
        assert(digits_value(t) == 0);
    } else {
        assert(t[0] == s[0]);
        assert(forall|i: int| 0 <= i < t.len() ==> t[i] == s[i]);
        lemma_leading_digit_positive(t);
    }
}

/// Writing the number that a canonical text is worth gives the text back.
pub proof fn lemma_value_digits_of(s: Seq<char>)
    requires
        is_canonical(s),
    ensures
        digits_of(digits_value(s) as nat) == s,
    decreases s.len(),
{
    let t = s.drop_last();
    let c = s.last();
    assert(is_digit(c));
    if t.len() == 0 {
        assert(digits_value(t) == 0);
        assert(c == s[0]);
        assert(digits_of(digits_value(s) as nat) =~= s);
    } else {
        assert(t[0] == s[0]);
        assert(forall|i: int| 0 <= i < t.len() ==> is_digit(#[trigger] t[i])) by {
            assert(forall|i: int| 0 <= i < t.len() ==> t[i] == s[i]);
        }
        lemma_leading_digit_positive(t);
        lemma_value_digits_of(t);
        let v = digits_value(s);
        assert(v == digits_value(t) * 10 + digit_value(c));
        assert(v / 10 == digits_value(t));
        assert(v % 10 == digit_value(c));
        assert(digits_of(v as nat) =~= t.push(c));
        assert(t.push(c) =~= s);
    }
}

/// Reading back what was written gives the number, for every number in range.
pub proof fn lemma_parse_decimal(n: int, signed: bool, lo: int, hi: int)
    requires
        lo <= n <= hi,
        n < 0 ==> signed,
    ensures
        parse_int(decimal(n), signed, lo, hi) == Some(n),
{
    let s = decimal(n);
    if n < 0 {
        let body = digits_of((-n) as nat);
        lemma_digits_of_value((-n) as nat);
        assert(s.skip(1) =~= body);
        assert(s[0] == '-');
    } else {
        lemma_digits_of_value(n as nat);
        assert(is_digit(s[0]));
    }
}

/// Writing what was read gives the text back, for a canonical text.
pub proof fn lemma_decimal_parse(s: Seq<char>, signed: bool, lo: int, hi: int)
    requires
        is_canonical(s),
        lo <= digits_value(s) <= hi,
    ensures
        parse_int(s, signed, lo, hi) == Some(digits_value(s)),
        decimal(digits_value(s)) == s,
{
    assert(is_digit(s[0]));
    lemma_digits_value_nonneg(s);
    lemma_value_digits_of(s);
}

/// The digit for `d`.
fn digit_to_char(d: u8) -> (c: char)
    requires
        d < 10,
    ensures
        c == digit_char(d as int),
        is_digit(c),
{
    (d + 48) as char
}

/// Appends the digits of `n` to `out`.
fn push_digits(n: u64, out: &mut Vec<char>)
    ensures
        final(out)@ == old(out)@ + digits_of(n as nat),
    decreases n,
{
    if n >= 10 {
        push_digits(n / 10, out);
    }
    out.push(digit_to_char((n % 10) as u8));
    assert(out@ =~= old(out)@ + digits_of(n as nat));
}

/// The decimal text of an unsigned number.
pub fn format_u64(n: u64) -> (out: Vec<char>)
    ensures
        out@ == decimal(n as int),
{
    let mut out: Vec<char> = Vec::new();
    push_digits(n, &mut out);
    assert(out@ =~= decimal(n as int));
    out
}

/// The decimal text of a signed number.
pub fn format_i64(n: i64) -> (out: Vec<char>)
    ensures
        out@ == decimal(n as int),
{
    let mut out: Vec<char> = Vec::new();
    if n < 0 {
        out.push('-');
        let magnitude: u64 = ((-(n + 1)) as u64) + 1;
        push_digits(magnitude, &mut out);
    } else {
        push_digits(n as u64, &mut out);
    }
    assert(out@ =~= decimal(n as int));
    out
}

/// Reads the digits of `s` from index `start` on as a number of at most
/// `limit`.
fn parse_digits(s: &Vec<char>, start: usize, limit: u64) -> (out: Option<u64>)
    requires
        start <= s.len(),
    ensures
        out.is_some() == (all_digits(s@.skip(start as int)) && digits_value(
            s@.skip(start as int),
        ) <= limit),
        out matches Some(v) ==> v as int == digits_value(s@.skip(start as int)) && v <= limit,
{
    let ghost body = s@.skip(start as int);
    if start == s.len() {
        return None;
    }
    let mut acc: u64 = 0;
    let mut i: usize = start;
    while i < s.len()
        invariant
            start <= i <= s.len(),
            body == s@.skip(start as int),
            forall|j: int| 0 <= j < i - start ==> is_digit(#[trigger] body[j]),
            acc == digits_value(body.subrange(0, i - start)),
            acc <= limit,
        decreases s.len() - i,
    {
        let c: char = s[i];
        assert(c == body[i - start]);
        if c < '0' || c > '9' {
            return None;
        }
        let d: u64 = (c as u8 - 48) as u64;
        let ghost next = body.subrange(0, i - start + 1);
        proof {
            assert(next.drop_last() =~= body.subrange(0, i - start));
            assert(next.last() == c);
            assert(digits_value(next) == acc * 10 + d);
        }
        if d > limit || acc > (limit - d) / 10 {
            proof {
                assert(acc * 10 + d > limit);
                if all_digits(body) {
                    lemma_digits_value_prefix(body, i - start + 1);
                }
            }
            return None;
        }
        acc = acc * 10 + d;
        i += 1;
    }
    proof {
        assert(body.subrange(0, i - start) =~= body);
    }
    Some(acc)
}

/// Reads `s` as an integer of at most `max`, and of at least `-max - 1`
/// where `signed` holds, of at least 0 where it does not.
fn parse_ranged(s: &Vec<char>, signed: bool, max: u64) -> (out: Option<i64>)
    requires
        max <= 0x7fff_ffff_ffff_ffff,
    ensures
        out.is_some() == parse_int(s@, signed, if signed { -max - 1 } else { 0 }, max as int).is_some(),
        out matches Some(v) ==> parse_int(s@, signed, if signed { -max - 1 } else { 0 }, max as int)
            == Some(v as int),
{
    assert(s@.skip(0) =~= s@);
    if s.len() == 0 {
        return None;
    }
    if signed && s[0] == '-' {
        proof {
            if all_digits(s@.skip(1)) {
                lemma_digits_value_nonneg(s@.skip(1));
            }
        }
        match parse_digits(s, 1, max + 1) {
            Some(v) => {
                if v == 0 {
                    Some(0)
                } else {
                    let below: i64 = (v - 1) as i64;
                    Some(-below - 1)
                }
            },
            None => None,
        }
    } else {
        let start: usize = if s[0] == '+' {
            1
        } else {
            0
        };
        proof {
            if all_digits(s@.skip(start as int)) {
                lemma_digits_value_nonneg(s@.skip(start as int));
            }
        }
        match parse_digits(s, start, max) {
            Some(v) => Some(v as i64),
            None => None,
        }
    }
}

/// Reads `s` as a signed 64-bit integer.
pub fn parse_i64(s: &Vec<char>) -> (out: Option<i64>)
    ensures
        out.is_some() == parse_i64_spec(s@).is_some(),
        out matches Some(v) ==> parse_i64_spec(s@) == Some(v as int),
{
    parse_ranged(s, true, 0x7fff_ffff_ffff_ffff)
}

/// Reads `s` as a signed 32-bit integer.
pub fn parse_i32(s: &Vec<char>) -> (out: Option<i32>)
    ensures
        out.is_some() == parse_i32_spec(s@).is_some(),
        out matches Some(v) ==> parse_i32_spec(s@) == Some(v as int),
{
    match parse_ranged(s, true, 0x7fff_ffff) {
        Some(v) => Some(v as i32),
        None => None,
    }
}

/// Reads `s` as an unsigned 16-bit integer.
pub fn parse_u16(s: &Vec<char>) -> (out: Option<u16>)
    ensures
        out.is_some() == parse_u16_spec(s@).is_some(),
        out matches Some(v) ==> parse_u16_spec(s@) == Some(v as int),
{
    match parse_ranged(s, false, 0xffff) {
        Some(v) => Some(v as u16),
        None => None,
    }
}

} // verus!
