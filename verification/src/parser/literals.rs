//! Reading literal lexemes: integers as `i64` (what `str::parse::<i64>`
//! accepts) and the check that a text is a float literal (what
//! `str::parse::<f64>` accepts). Float values themselves are not computed
//! here: a float literal is kept as its text.

use vstd::prelude::*;
use crate::text::{chars_of, dec, signed_dec, digit_char};

verus! {

/// An ASCII decimal digit.
pub open spec fn is_digit(c: char) -> bool {
    '0' <= c && c <= '9'
}

/// The value of a sequence of decimal digits.
pub open spec fn decimal_value(ds: Seq<char>) -> int
    decreases ds.len(),
{
    if ds.len() == 0 {
        0
    } else {
        decimal_value(ds.drop_last()) * 10 + (ds.last() as int - '0' as int)
    }
}

/// Every character is a decimal digit.
pub open spec fn all_digits(ds: Seq<char>) -> bool {
    forall|i: int| 0 <= i < ds.len() ==> is_digit(#[trigger] ds[i])
}

/// What `str::parse::<i64>` gives: an optional `+` or `-`, then one or more
/// ASCII digits whose value, with the sign, is within the range of `i64`.
pub open spec fn spec_parse_i64(s: Seq<char>) -> Option<i64> {
    let negative = s.len() > 0 && s[0] == '-';
    let digits = if s.len() > 0 && (s[0] == '-' || s[0] == '+') { s.drop_first() } else { s };
    if digits.len() == 0 || !all_digits(digits) {
        None
    } else {
        let v = if negative { -decimal_value(digits) } else { decimal_value(digits) };
        if i64::MIN <= v <= i64::MAX {
            Some(v as i64)
        } else {
            None
        }
    }
}

proof fn lemma_decimal_value_grows(ds: Seq<char>, k: int)
    requires
        0 <= k <= ds.len(),
        all_digits(ds),
    ensures
        0 <= decimal_value(ds.take(k)) <= decimal_value(ds),
    decreases ds.len() - k,
{
    if k < ds.len() {
        lemma_decimal_value_grows(ds, k + 1);
        assert(ds.take(k + 1).drop_last() =~= ds.take(k));
    } else {
        assert(ds.take(k) =~= ds);
        lemma_decimal_value_nonneg(ds);
    }
}

proof fn lemma_decimal_value_nonneg(ds: Seq<char>)
    requires
        all_digits(ds),
    ensures
        decimal_value(ds) >= 0,
    decreases ds.len(),
{
    if ds.len() > 0 {
        lemma_decimal_value_nonneg(ds.drop_last());
    }
}

/// Reads an integer literal as `str::parse::<i64>` does.
pub fn parse_i64(s: &str) -> (r: Option<i64>)
    ensures
        r == spec_parse_i64(s@),
{
    let cs = chars_of(s);
    let n = cs.len();
    if n == 0 {
        return None;
    }
    let negative = cs[0] == '-';
    let start: usize = if cs[0] == '-' || cs[0] == '+' { 1 } else { 0 };
    let ghost digits = if cs@[0] == '-' || cs@[0] == '+' { cs@.drop_first() } else { cs@ };
    if start == n {
        return None;
    }
    // the magnitude read so far, never above 2^63
    let mut acc: u64 = 0;
    let mut i: usize = start;
    while i < n
        invariant
            cs@ == s@,
            n == cs@.len(),
            start <= i <= n,
            n > 0,
            start == (if cs@[0] == '-' || cs@[0] == '+' { 1int } else { 0int }),
            negative == (cs@[0] == '-'),
            digits == cs@.subrange(start as int, n as int),
            all_digits(digits.take(i - start)),
            acc == decimal_value(digits.take(i - start)),
            acc <= 0x8000_0000_0000_0000u64,
        decreases n - i,
    {
        let c = cs[i];
        if !('0' <= c && c <= '9') {
            proof {
                assert(digits[i - start] == c);
                assert(!is_digit(digits[i - start]));
                assert(!all_digits(digits));
            }
            return None;
        }
        let d: u64 = (c as u32 - '0' as u32) as u64;
        proof {
            assert(digits.take(i - start + 1).drop_last() =~= digits.take(i - start));
        }
        if acc > 922337203685477580u64 || (acc == 922337203685477580u64 && d > 8) {
            // the magnitude is already beyond 2^63
            proof {
                let k = i - start;
                assert(digits.take(k + 1).last() == c);
                assert(all_digits(digits.take(k + 1)));
                let v = decimal_value(digits.take(k + 1));
                assert(v == acc * 10 + d);
                assert(v > 0x8000_0000_0000_0000);
                if all_digits(digits) {
                    lemma_decimal_value_grows(digits, k + 1);
                    assert(decimal_value(digits) > 0x8000_0000_0000_0000);
                }
                let sd = if s@.len() > 0 && (s@[0] == '-' || s@[0] == '+') { s@.drop_first() } else { s@ };
                assert(sd =~= digits);
            }
            return None;
        }
        acc = acc * 10 + d;
        i = i + 1;
    }
    proof {
        assert(digits.take(i - start) =~= digits);
    }
    if negative {
        if acc == 0x8000_0000_0000_0000u64 {
            Some(i64::MIN)
        } else {
            Some(-(acc as i64))
        }
    } else {
        if acc > 0x7fff_ffff_ffff_ffffu64 {
            None
        } else {
            Some(acc as i64)
        }
    }
}

/// The states of the recogniser of decimal float notation:
/// 0 start, 1 after the sign, 2 in the integer digits, 3 after a `.` with no
/// digit before it, 4 in the fraction (some digit seen), 5 after `e`,
/// 6 after the exponent's sign, 7 in the exponent digits, 8 rejected.
pub open spec fn float_step(state: u8, c: char) -> u8 {
    let sign = c == '+' || c == '-';
    let exp = c == 'e' || c == 'E';
    if state == 0 {
        if sign { 1 } else if is_digit(c) { 2 } else if c == '.' { 3 } else { 8 }
    } else if state == 1 {
        if is_digit(c) { 2 } else if c == '.' { 3 } else { 8 }
    } else if state == 2 {
        if is_digit(c) { 2 } else if c == '.' { 4 } else if exp { 5 } else { 8 }
    } else if state == 3 {
        if is_digit(c) { 4 } else { 8 }
    } else if state == 4 {
        if is_digit(c) { 4 } else if exp { 5 } else { 8 }
    } else if state == 5 {
        if sign { 6 } else if is_digit(c) { 7 } else { 8 }
    } else if state == 6 {
        if is_digit(c) { 7 } else { 8 }
    } else if state == 7 {
        if is_digit(c) { 7 } else { 8 }
    } else {
        8
    }
}

/// The state of the recogniser after `s`.
pub open spec fn float_run(s: Seq<char>) -> u8
    decreases s.len(),
{
    if s.len() == 0 {
        0
    } else {
        float_step(float_run(s.drop_last()), s.last())
    }
}

/// Decimal float notation: `[+-]? (D+ | D+ . D* | D* . D+) ([eE] [+-]? D+)?`.
pub open spec fn is_decimal_float(s: Seq<char>) -> bool {
    let st = float_run(s);
    st == 2 || st == 4 || st == 7
}

/// ASCII letters in lower case; other characters unchanged.
pub open spec fn ascii_lower(c: char) -> char {
    if 'A' <= c && c <= 'Z' { ((c as u32) + 32) as char } else { c }
}

/// The text without a leading sign.
pub open spec fn unsigned_part(s: Seq<char>) -> Seq<char> {
    if s.len() > 0 && (s[0] == '+' || s[0] == '-') { s.drop_first() } else { s }
}

/// `inf`, `infinity` or `nan`, in any case.
pub open spec fn is_special_float(s: Seq<char>) -> bool {
    let lower = s.map_values(|c: char| ascii_lower(c));
    lower == "inf"@ || lower == "infinity"@ || lower == "nan"@
}

/// What `str::parse::<f64>` accepts: a decimal float, or an optional sign
/// and `inf`, `infinity` or `nan` in any case.
pub open spec fn is_float_text(s: Seq<char>) -> bool {
    is_decimal_float(s) || is_special_float(unsigned_part(s))
}

fn float_step_exec(state: u8, c: char) -> (r: u8)
    ensures
        r == float_step(state, c),
{
    let sign = c == '+' || c == '-';
    let exp = c == 'e' || c == 'E';
    let digit = '0' <= c && c <= '9';
    if state == 0 {
        if sign { 1 } else if digit { 2 } else if c == '.' { 3 } else { 8 }
    } else if state == 1 {
        if digit { 2 } else if c == '.' { 3 } else { 8 }
    } else if state == 2 {
        if digit { 2 } else if c == '.' { 4 } else if exp { 5 } else { 8 }
    } else if state == 3 {
        if digit { 4 } else { 8 }
    } else if state == 4 {
        if digit { 4 } else if exp { 5 } else { 8 }
    } else if state == 5 {
        if sign { 6 } else if digit { 7 } else { 8 }
    } else if state == 6 {
        if digit { 7 } else { 8 }
    } else if state == 7 {
        if digit { 7 } else { 8 }
    } else {
        8
    }
}

fn lower_exec(c: char) -> (r: char)
    ensures
        r == ascii_lower(c),
{
    if 'A' <= c && c <= 'Z' {
        let code: u32 = (c as u32) + 32;
        proof {
            assert(code < 0xD800);
        }
        char_of_ascii(code)
    } else {
        c
    }
}

/// The character of an ASCII code.
fn char_of_ascii(code: u32) -> (c: char)
    requires
        code < 0x80,
    ensures
        c == code as char,
{
    (code as u8) as char
}

/// Whether the characters from `start` on, lowered, spell `word`.
fn rest_lowered_is(cs: &Vec<char>, start: usize, word: &str) -> (r: bool)
    requires
        start <= cs@.len(),
    ensures
        r == (cs@.skip(start as int).map_values(|c: char| ascii_lower(c)) == word@),
{
    let ghost lower = cs@.skip(start as int).map_values(|c: char| ascii_lower(c));
    let w = chars_of(word);
    let total = cs.len();
    if total - start != w.len() {
        return false;
    }
    let mut i: usize = 0;
    while i < w.len()
        invariant
            w@ == word@,
            start <= cs@.len(),
            total == cs@.len(),
            cs@.len() - start == w@.len(),
            lower == cs@.skip(start as int).map_values(|c: char| ascii_lower(c)),
            i <= w@.len(),
            forall|k: int| 0 <= k < i ==> lower[k] == w@[k],
        decreases w@.len() - i,
    {
        assert(start + i < cs@.len());
        if lower_exec(cs[start + i]) != w[i] {
            return false;
        }
        i = i + 1;
    }
    assert(lower =~= w@);
    true
}

/// Whether a text is a float literal that `str::parse::<f64>` accepts.
pub fn is_float_literal(s: &str) -> (r: bool)
    ensures
        r == is_float_text(s@),
{
    let cs = chars_of(s);
    let mut state: u8 = 0;
    let mut i: usize = 0;
    while i < cs.len()
        invariant
            cs@ == s@,
            i <= cs@.len(),
            state == float_run(cs@.take(i as int)),
        decreases cs@.len() - i,
    {
        state = float_step_exec(state, cs[i]);
        proof {
            assert(cs@.take(i + 1).drop_last() =~= cs@.take(i as int));
        }
        i = i + 1;
    }
    proof {
        assert(cs@.take(i as int) =~= cs@);
    }
    if state == 2 || state == 4 || state == 7 {
        return true;
    }
    let start: usize = if cs.len() > 0 && (cs[0] == '+' || cs[0] == '-') { 1 } else { 0 };
    proof {
        assert(unsigned_part(cs@) =~= cs@.skip(start as int));
    }
    rest_lowered_is(&cs, start, "inf") || rest_lowered_is(&cs, start, "infinity")
        || rest_lowered_is(&cs, start, "nan")
}

proof fn lemma_digit_char(d: nat)
    requires
        d < 10,
    ensures
        is_digit(digit_char(d)),
        digit_char(d) as int - '0' as int == d,
{
}

proof fn lemma_dec_reads_back(n: nat)
    ensures
        dec(n).len() > 0,
        all_digits(dec(n)),
        decimal_value(dec(n)) == n,
        is_digit(dec(n)[0]),
    decreases n,
{
    if n < 10 {
        lemma_digit_char(n);
        let s = dec(n);
        assert(s.drop_last() =~= Seq::<char>::empty());
        assert(decimal_value(s.drop_last()) == 0);
        assert(decimal_value(s) == decimal_value(s.drop_last()) * 10 + (s.last() as int - '0' as int));
    } else {
        lemma_dec_reads_back(n / 10);
        lemma_digit_char(n % 10);
        let s = dec(n);
        assert(s == dec(n / 10).push(digit_char(n % 10)));
        assert(s.drop_last() =~= dec(n / 10));
        assert(s.last() == digit_char(n % 10));
        assert(decimal_value(s) == decimal_value(s.drop_last()) * 10 + (s.last() as int - '0' as int));
        assert(n == (n / 10) * 10 + n % 10);
        assert forall|i: int| 0 <= i < s.len() implies is_digit(#[trigger] s[i]) by {
            if i < s.len() - 1 {
                assert(s[i] == dec(n / 10)[i]);
            }
        }
        assert(s[0] == dec(n / 10)[0]);
    }
}

/// What the code generator writes for an integer (its decimal notation)
/// reads back, with `str::parse::<i64>`, as the same integer.
pub proof fn law_integer_text_round_trip(v: i64)
    ensures
        spec_parse_i64(signed_dec(v as int)) == Some(v),
{
    if v < 0 {
        let m = (-(v as int)) as nat;
        lemma_dec_reads_back(m);
        let s = signed_dec(v as int);
        assert(s.drop_first() =~= dec(m));
        assert(s[0] == '-');
    } else {
        lemma_dec_reads_back(v as nat);
        let s = signed_dec(v as int);
        assert(s[0] != '-' && s[0] != '+');
    }
}

} // verus!
