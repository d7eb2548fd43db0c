//! Decimal text of numbers, as used in diagnostics.

use vstd::prelude::*;

verus! {

pub open spec fn digit_char(d: nat) -> char {
    (('0' as u32) + d) as char
}

/// The decimal digits of `n`, most significant first, without leading zeros.
pub open spec fn decimal(n: nat) -> Seq<char>
    decreases n,
{
    if n < 10 {
        seq![digit_char(n)]
    } else {
        decimal(n / 10) + seq![digit_char(n % 10)]
    }
}

fn digit_to_char(d: usize) -> (r: char)
    requires
        d < 10,
    ensures
        r == digit_char(d as nat),
{
    let b: u8 = 48u8 + (d as u8);
    let c = b as char;
    assert(c == digit_char(d as nat)) by {
        assert(b == 48 + d);
    }
    c
}

/// The decimal text of `n`.
pub fn usize_text(n: usize) -> (r: String)
    ensures
        r@ == decimal(n as nat),
    decreases n,
{
    if n < 10 {
        let mut s = String::new();
        crate::lexer::chars::string_push(&mut s, digit_to_char(n));
        assert(s@ =~= seq![digit_char(n as nat)]);
        s
    } else {
        let mut s = usize_text(n / 10);
        crate::lexer::chars::string_push(&mut s, digit_to_char(n % 10));
        assert(s@ =~= decimal((n / 10) as nat) + seq![digit_char((n % 10) as nat)]);
        s
    }
}

/// The decimal text of `n`.
pub fn u64_text(n: u64) -> (r: String)
    ensures
        r@ == decimal(n as nat),
    decreases n,
{
    let mut s = if n < 10 { String::new() } else { u64_text(n / 10) };
    let d = (n % 10) as usize;
    crate::lexer::chars::string_push(&mut s, digit_to_char(d));
    if n < 10 {
        assert(s@ =~= seq![digit_char(n as nat)]);
    } else {
        assert(s@ =~= decimal((n / 10) as nat) + seq![digit_char((n % 10) as nat)]);
    }
    s
}

/// The decimal text of an integer: a minus sign before the digits of a negative one.
pub open spec fn int_decimal(n: int) -> Seq<char> {
    if n < 0 {
        "-"@ + decimal((-n) as nat)
    } else {
        decimal(n as nat)
    }
}

/// The decimal text of `n`.
pub fn i64_text(n: i64) -> (r: String)
    ensures
        r@ == int_decimal(n as int),
{
    if n < 0 {
        let mag: u64 = if n == i64::MIN { 9223372036854775808u64 } else { (-n) as u64 };
        let digits = u64_text(mag);
        let mut s = "-".to_owned();
        s.append(digits.as_str());
        s
    } else {
        u64_text(n as u64)
    }
}

} // verus!
