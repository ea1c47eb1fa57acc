//! Decimal numerals: the character sequence a number prints as, and the
//! number a digit sequence denotes.
//!
//! The code generator renders immediates, stack offsets and label counters
//! in decimal, and the tokenizer reads integer literals back; both sides
//! are specified here, together with the round-trip lemma that makes
//! distinct counters yield distinct label names.

use vstd::prelude::*;
use vstd::string::StringExecFns;

verus! {

/// The digit character for a value below ten.
pub open spec fn dec_digit(d: int) -> char {
    if d == 0 {
        '0'
    } else if d == 1 {
        '1'
    } else if d == 2 {
        '2'
    } else if d == 3 {
        '3'
    } else if d == 4 {
        '4'
    } else if d == 5 {
        '5'
    } else if d == 6 {
        '6'
    } else if d == 7 {
        '7'
    } else if d == 8 {
        '8'
    } else {
        '9'
    }
}

/// The numeric value of a digit character.
pub open spec fn digit_value(c: char) -> int {
    c as int - '0' as int
}

/// Whether a character is a decimal digit.
pub open spec fn is_digit(c: char) -> bool {
    '0' as int <= c as int <= '9' as int
}

/// The decimal numeral of a natural number, without sign or leading zeros
/// (except for zero itself).
pub open spec fn dec_nat(n: nat) -> Seq<char>
    decreases n,
{
    if n < 10 {
        seq![dec_digit(n as int)]
    } else {
        dec_nat(n / 10).push(dec_digit((n % 10) as int))
    }
}

/// The decimal numeral of an integer: a leading minus sign for negative
/// numbers, then the numeral of the magnitude.
pub open spec fn dec_int(n: int) -> Seq<char> {
    if n < 0 {
        "-"@ + dec_nat((-n) as nat)
    } else {
        dec_nat(n as nat)
    }
}

/// The number denoted by a sequence of digit characters, most significant
/// first. An empty sequence denotes zero.
pub open spec fn digits_value(s: Seq<char>) -> int
    decreases s.len(),
{
    if s.len() == 0 {
        0
    } else {
        digits_value(s.drop_last()) * 10 + digit_value(s.last())
    }
}

/// The digit character for a value below ten.
fn digit_char(d: u128) -> (c: char)
    requires
        d < 10,
    ensures
        c == dec_digit(d as int),
{
    match d {
        0 => '0',
        1 => '1',
        2 => '2',
        3 => '3',
        4 => '4',
        5 => '5',
        6 => '6',
        7 => '7',
        8 => '8',
        _ => '9',
    }
}

/// Renders a natural number in decimal.
pub fn u128_to_string(n: u128) -> (s: String)
    ensures
        s@ == dec_nat(n as nat),
    decreases n,
{
    if n < 10 {
        let mut s = String::new();
        s.push(digit_char(n));
        s
    } else {
        let mut s = u128_to_string(n / 10);
        s.push(digit_char(n % 10));
        s
    }
}

/// Renders an integer in decimal, with a minus sign when negative.
pub fn i128_to_string(n: i128) -> (s: String)
    requires
        n > i128::MIN,
    ensures
        s@ == dec_int(n as int),
{
    if n < 0 {
        let mut s = String::from_str("-");
        let digits = u128_to_string((-n) as u128);
        s.append(digits.as_str());
        s
    } else {
        u128_to_string(n as u128)
    }
}

/// Every digit of a decimal numeral is a digit character.
pub proof fn lemma_dec_nat_digits(n: nat)
    ensures
        dec_nat(n).len() >= 1,
        forall|i: int| 0 <= i < dec_nat(n).len() ==> is_digit(#[trigger] dec_nat(n)[i]),
    decreases n,
{
    if n >= 10 {
        lemma_dec_nat_digits(n / 10);
    }
}

/// Reading a decimal numeral back gives the number it was rendered from.
pub proof fn lemma_dec_nat_value(n: nat)
    ensures
        digits_value(dec_nat(n)) == n,
    decreases n,
{
    if n < 10 {
        let s = seq![dec_digit(n as int)];
        assert(s.drop_last() =~= Seq::<char>::empty());
        assert(digits_value(Seq::<char>::empty()) == 0);
        assert(s.last() == dec_digit(n as int));
        assert(digits_value(s) == digit_value(dec_digit(n as int)));
    } else {
        lemma_dec_nat_value(n / 10);
        assert(dec_nat(n).drop_last() =~= dec_nat(n / 10));
    }
}

/// Distinct natural numbers have distinct decimal numerals.
pub proof fn lemma_dec_nat_injective(a: nat, b: nat)
    requires
        a != b,
    ensures
        dec_nat(a) != dec_nat(b),
{
    lemma_dec_nat_value(a);
    lemma_dec_nat_value(b);
}

} // verus!
