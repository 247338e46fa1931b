//! Numbers as text.

use crate::model;
use crate::strings::{chars, digit};
use vstd::prelude::*;
use vstd::string::StringExecFns;

verus! {

/// The digit of value `d`, upper case above nine.
fn hex_digit(d: u8) -> (r: char)
    requires
        d < 16,
    ensures
        r == model::hex_char(d as nat),
        d < 10 ==> r == model::digit_char(d as nat),
{
    if d < 10 {
        (48 + d) as char
    } else {
        (55 + d) as char
    }
}

/// The decimal form of `n`.
pub fn decimal_text(n: u64) -> (r: String)
    ensures
        r@ == model::decimal(n as nat),
    decreases n,
{
    if n < 10 {
        let mut out = String::new();
        out.push(hex_digit(n as u8));
        assert(out@ == model::decimal(n as nat));
        out
    } else {
        let mut out = decimal_text(n / 10);
        out.push(hex_digit((n % 10) as u8));
        out
    }
}

/// The decimal form of `n`, signed.
pub fn signed_text(n: i32) -> (r: String)
    ensures
        r@ == model::decimal_signed(n as int),
{
    if n < 0 {
        let m: u64 = (-(n as i64)) as u64;
        let mut out = String::new();
        out.push('-');
        assert(out@ == seq!['-']);
        let digits = decimal_text(m);
        out.append(digits.as_str());
        out
    } else {
        decimal_text(n as u64)
    }
}

/// The upper-case hexadecimal form of `n`.
pub fn hex_text(n: u32) -> (r: String)
    ensures
        r@ == model::hex(n as nat),
    decreases n,
{
    if n < 16 {
        let mut out = String::new();
        out.push(hex_digit(n as u8));
        assert(out@ == model::hex(n as nat));
        out
    } else {
        let mut out = hex_text(n / 16);
        out.push(hex_digit((n % 16) as u8));
        out
    }
}

/// The hexadecimal form of `n` in at least two digits.
pub fn hex2_text(n: u32) -> (r: String)
    ensures
        r@ == model::hex2(n as nat),
{
    if n < 16 {
        let mut out = String::new();
        out.push('0');
        assert(out@ == seq!['0']);
        let digits = hex_text(n);
        out.append(digits.as_str());
        out
    } else {
        hex_text(n)
    }
}

/// Dropping trailing digits does not raise the value.
proof fn lemma_value_grows(s: Seq<char>, i: int)
    requires
        0 <= i <= s.len(),
        model::all_digits(s),
    ensures
        model::digits_value(s.take(i)) <= model::digits_value(s),
    decreases s.len() - i,
{
    if i < s.len() {
        lemma_value_grows(s, i + 1);
        assert(s.take(i + 1).drop_last() == s.take(i));
        assert(model::is_digit(s[i]));
    } else {
        assert(s.take(i) == s);
    }
}

/// The 16-bit number that `s` spells: decimal digits after an optional `+`.
pub fn parse_u16(s: &str) -> (r: Option<u16>)
    ensures
        (match r {
            Some(n) => Some(n as nat),
            None => None::<nat>,
        }) == model::small_number(s@),
{
    let x = chars(s);
    let start: usize = if x.len() > 0 && x[0] == '+' {
        1
    } else {
        0
    };
    let ghost d = model::unsigned_digits(s@);
    assert(d == s@.skip(start as int));
    if start == x.len() {
        return None;
    }
    let mut value: u32 = 0;
    let mut i: usize = start;
    assert(d.take(0) == Seq::<char>::empty());
    while i < x.len()
        invariant
            start <= i <= x@.len(),
            x@ == s@,
            d == s@.skip(start as int),
            d == model::unsigned_digits(s@),
            value <= 0xffff,
            value == model::digits_value(d.take(i - start)),
            forall|k: int| 0 <= k < i - start ==> model::is_digit(#[trigger] d[k]),
        decreases x@.len() - i,
    {
        assert(d[i - start] == x@[i as int]);
        if !digit(x[i]) {
            return None;
        }
        assert(d.take(i + 1 - start).drop_last() == d.take(i - start));
        value = value * 10 + ((x[i] as u8) - 48) as u32;
        i += 1;
        if value > 0xffff {
            proof {
                if model::all_digits(d) {
                    lemma_value_grows(d, i - start);
                }
            }
            return None;
        }
    }
    assert(d.take(d.len() as int) == d);
    Some(value as u16)
}

/// The decimal form of `n` in at least `w` digits.
pub fn padded_text(n: u64, w: usize) -> (r: String)
    ensures
        r@ == model::zero_filled(model::decimal(n as nat), w as nat),
{
    let d = decimal_text(n);
    let digits = chars(d.as_str());
    let len: usize = digits.len();
    if len >= w {
        return d;
    }
    let mut zeros = String::new();
    let mut i: usize = len;
    while i < w
        invariant
            len <= i <= w,
            len == digits@.len(),
            model::zero_filled(zeros@ + digits@, w as nat) == model::zero_filled(
                digits@,
                w as nat,
            ),
            zeros@.len() == i - len,
            forall|j: int| 0 <= j < zeros@.len() ==> zeros@[j] == '0',
        decreases w - i,
    {
        let ghost before = zeros@;
        zeros.push('0');
        assert(zeros@ + digits@ == seq!['0'] + (before + digits@));
        i += 1;
    }
    zeros.append(d.as_str());
    zeros
}

} // verus!
