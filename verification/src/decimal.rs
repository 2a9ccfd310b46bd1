//! Decimal numbers as text: reading an exit code, and writing numbers into a
//! log line.

use vstd::prelude::*;

verus! {

/// Whether `b` is one of the ASCII digits `0` to `9`.
pub open spec fn is_digit(b: u8) -> bool {
    0x30 <= b <= 0x39
}

/// Whether every byte of `s` is an ASCII digit.
pub open spec fn all_digits(s: Seq<u8>) -> bool {
    forall|i: int| 0 <= i < s.len() ==> is_digit(#[trigger] s[i])
}

/// The number that the digits of `s` write in base ten; 0 for no digits.
pub open spec fn decimal_value(s: Seq<u8>) -> nat
    decreases s.len(),
{
    if s.len() == 0 {
        0
    } else {
        decimal_value(s.drop_last()) * 10 + (s.last() - 0x30) as nat
    }
}

/// The exit code that a marker's parameter carries: the number it writes, if
/// it is a non-empty run of ASCII digits whose value fits an `i32`, and 0 for
/// anything else.
pub open spec fn exit_code_of(s: Seq<u8>) -> i32 {
    if s.len() > 0 && all_digits(s) && decimal_value(s) <= i32::MAX {
        decimal_value(s) as i32
    } else {
        0
    }
}

/// A run of digits writes at least the number that any of its prefixes writes.
proof fn lemma_decimal_value_grows(s: Seq<u8>, i: int)
    requires
        all_digits(s),
        0 <= i <= s.len(),
    ensures
        decimal_value(s.take(i)) <= decimal_value(s),
    decreases s.len() - i,
{
    if i == s.len() {
        assert(s.take(i) =~= s);
    } else {
        lemma_decimal_value_grows(s, i + 1);
        assert(s.take(i + 1).drop_last() =~= s.take(i));
    }
}

/// Reads an exit code. Never fails: a parameter that is empty, holds anything
/// but digits, or writes a number beyond `i32::MAX` counts as 0.
pub fn parse_exit_code(text: &[u8]) -> (code: i32)
    ensures
        code == exit_code_of(text@),
{
    if text.len() == 0 {
        return 0;
    }
    let mut value: i32 = 0;
    let mut i: usize = 0;
    while i < text.len()
        invariant
            i <= text.len(),
            all_digits(text@.take(i as int)),
            value == decimal_value(text@.take(i as int)),
        decreases text.len() - i,
    {
        let b = text[i];
        if b < 0x30 || b > 0x39 {
            return 0;
        }
        let digit: i32 = (b - 0x30) as i32;
        assert(text@.take(i + 1).drop_last() =~= text@.take(i as int));
        if value > (i32::MAX - digit) / 10 {
            proof {
                if all_digits(text@) {
                    lemma_decimal_value_grows(text@, i + 1);
                }
            }
            return 0;
        }
        value = value * 10 + digit;
        i += 1;
    }
    assert(text@.take(i as int) =~= text@);
    value
}

/// The character that writes the digit `d`.
pub open spec fn digit_char(d: nat) -> char {
    (0x30 + d) as char
}

/// The decimal text of `n`, without leading zeros.
pub open spec fn decimal_text(n: nat) -> Seq<char>
    decreases n,
{
    if n < 10 {
        seq![digit_char(n)]
    } else {
        decimal_text(n / 10).push(digit_char(n % 10))
    }
}

/// The decimal text of a signed number: a minus sign before the digits of a
/// negative one.
pub open spec fn signed_decimal_text(n: int) -> Seq<char> {
    if n < 0 {
        seq!['-'] + decimal_text((-n) as nat)
    } else {
        decimal_text(n as nat)
    }
}

/// Appends the decimal text of `n` to `text`.
pub fn push_decimal(text: &mut String, n: u64)
    ensures
        final(text)@ == old(text)@ + decimal_text(n as nat),
{
    let mut rest: u64 = n;
    let mut low: Vec<char> = Vec::new();
    while rest >= 10
        invariant
            decimal_text(n as nat) == decimal_text(rest as nat) + low@.reverse(),
        decreases rest,
    {
        let d: u8 = (rest % 10) as u8;
        let c: char = (0x30 + d) as char;
        low.push(c);
        rest = rest / 10;
    }
    let first: char = (0x30 + rest as u8) as char;
    text.push(first);
    let mut k: usize = low.len();
    while k > 0
        invariant
            k <= low.len(),
            text@ == old(text)@ + seq![first] + low@.reverse().take(low.len() - k),
        decreases k,
    {
        k -= 1;
        text.push(low[k]);
    }
}

/// Appends the decimal text of a signed number to `text`.
pub fn push_signed_decimal(text: &mut String, n: i32)
    ensures
        final(text)@ == old(text)@ + signed_decimal_text(n as int),
{
    if n < 0 {
        text.push('-');
        let magnitude: u64 = (-(n as i64)) as u64;
        push_decimal(text, magnitude);
    } else {
        push_decimal(text, n as u64);
    }
}

} // verus!
