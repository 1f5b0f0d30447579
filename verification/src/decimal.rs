use vstd::prelude::*;
use crate::text::{push_char, str_chars};

verus! {

/// Why a decimal number could not be read.
#[derive(Debug, Clone, Copy, PartialEq, Eq, Structural)]
pub enum ParseNumberError {
    /// The text is empty.
    Empty,
    /// A character is not a decimal digit (or a lone sign).
    InvalidDigit,
    /// The number does not fit in 64 bits.
    PosOverflow,
}

/// Is `c` one of `0` to `9`.
pub open spec fn is_decimal_digit(c: char) -> bool {
    '0' <= c && c <= '9'
}

/// The value of a decimal digit.
pub open spec fn digit_value(c: char) -> nat {
    (c as int - '0' as int) as nat
}

/// The character of a digit value below ten.
pub open spec fn digit_char(d: nat) -> char {
    (d + '0' as int) as char
}

/// The decimal representation of `n`, without leading zeros.
pub open spec fn decimal_digits(n: nat) -> Seq<char>
    decreases n,
{
    if n < 10 {
        seq![digit_char(n)]
    } else {
        decimal_digits(n / 10).push(digit_char(n % 10))
    }
}

/// Reads the digits `d[i..]` after `acc` has been read from `d[..i]`, the
/// way the standard library reads an unsigned number: left to right, a
/// bad character or a value past `u64::MAX` stops it at the first place
/// where either happens.
pub open spec fn scan_digits(d: Seq<char>, i: nat, acc: nat) -> Result<u64, ParseNumberError>
    decreases d.len() - i,
{
    if i >= d.len() {
        Ok(acc as u64)
    } else if !is_decimal_digit(d[i as int]) {
        Err(ParseNumberError::InvalidDigit)
    } else if acc * 10 + digit_value(d[i as int]) > u64::MAX {
        Err(ParseNumberError::PosOverflow)
    } else {
        scan_digits(d, i + 1, acc * 10 + digit_value(d[i as int]))
    }
}

/// What `str::parse::<u64>` gives for `s`: an optional leading `+`, then
/// one or more decimal digits.
pub open spec fn spec_parse_u64(s: Seq<char>) -> Result<u64, ParseNumberError> {
    if s.len() == 0 {
        Err(ParseNumberError::Empty)
    } else if (s[0] == '+' || s[0] == '-') && s.len() == 1 {
        Err(ParseNumberError::InvalidDigit)
    } else if s[0] == '+' {
        scan_digits(s, 1, 0)
    } else {
        scan_digits(s, 0, 0)
    }
}

/// Appends the decimal representation of `n` to `out`.
pub(crate) fn push_decimal(out: &mut String, n: u64)
    ensures
        final(out)@ == old(out)@ + decimal_digits(n as nat),
    decreases n,
{
    if n >= 10 {
        push_decimal(out, n / 10);
    }
    let d = n % 10;
    let c: char = if d == 0 {
        '0'
    } else if d == 1 {
        '1'
    } else if d == 2 {
        '2'
    } else if d == 3 {
        '3'
    } else if d == 4 {
        '4'
    } else if d == 5 {
        '5'
    } else if d == 6 {
        '6'
    } else if d == 7 {
        '7'
    } else if d == 8 {
        '8'
    } else {
        '9'
    };
    assert(c == digit_char(d as nat));
    push_char(out, c);
    if n >= 10 {
        assert(old(out)@ + decimal_digits(n as nat) =~= (old(out)@ + decimal_digits((n / 10) as nat)).push(c));
    } else {
        assert(old(out)@ + decimal_digits(n as nat) =~= old(out)@.push(c));
    }
}

/// The decimal representation of `n`, as `u64::to_string` writes it.
pub fn u64_to_decimal(n: u64) -> (s: String)
    ensures
        s@ == decimal_digits(n as nat),
{
    let mut s = String::new();
    push_decimal(&mut s, n);
    assert(Seq::<char>::empty() + decimal_digits(n as nat) =~= decimal_digits(n as nat));
    s
}

fn char_digit_value(c: char) -> (v: u64)
    requires
        is_decimal_digit(c),
    ensures
        v == digit_value(c),
{
    let v: u32 = (c as u32) - ('0' as u32);
    v as u64
}

fn scan_chars(d: &Vec<char>, start: usize) -> (r: Result<u64, ParseNumberError>)
    requires
        start <= d@.len(),
    ensures
        r == scan_digits(d@, start as nat, 0),
{
    let mut acc: u64 = 0;
    let mut i: usize = start;
    while i < d.len()
        invariant
            start <= i <= d@.len(),
            scan_digits(d@, start as nat, 0) == scan_digits(d@, i as nat, acc as nat),
        decreases d@.len() - i,
    {
        let c = d[i];
        if !('0' <= c && c <= '9') {
            return Err(ParseNumberError::InvalidDigit);
        }
        let v = char_digit_value(c);
        if acc > (u64::MAX - v) / 10 {
            assert(acc * 10 + v > u64::MAX) by (nonlinear_arith)
                requires
                    acc > (u64::MAX - v) / 10,
                    v <= 9,
            ;
            return Err(ParseNumberError::PosOverflow);
        }
        assert(acc * 10 + v <= u64::MAX) by (nonlinear_arith)
            requires
                acc <= (u64::MAX - v) / 10,
                v <= 9,
        ;
        acc = acc * 10 + v;
        i = i + 1;
    }
    Ok(acc)
}

/// Reads an unsigned 64-bit number from its characters, as `str::parse::<u64>`
/// does.
pub(crate) fn parse_u64_chars(chars: &Vec<char>) -> (r: Result<u64, ParseNumberError>)
    ensures
        r == spec_parse_u64(chars@),
{
    if chars.len() == 0 {
        return Err(ParseNumberError::Empty);
    }
    let first = chars[0];
    if (first == '+' || first == '-') && chars.len() == 1 {
        return Err(ParseNumberError::InvalidDigit);
    }
    if first == '+' {
        scan_chars(chars, 1)
    } else {
        scan_chars(chars, 0)
    }
}

/// Reads an unsigned 64-bit number written in decimal, as `str::parse::<u64>`
/// does.
pub fn parse_u64(s: &str) -> (r: Result<u64, ParseNumberError>)
    ensures
        r == spec_parse_u64(s@),
{
    let chars = str_chars(s);
    parse_u64_chars(&chars)
}

proof fn lemma_digit_char(d: nat)
    requires
        d < 10,
    ensures
        is_decimal_digit(digit_char(d)),
        digit_value(digit_char(d)) == d,
        digit_char(d) != '+',
        digit_char(d) != '-',
{
}

proof fn lemma_decimal_digits_shape(n: nat)
    ensures
        decimal_digits(n).len() >= 1,
        is_decimal_digit(decimal_digits(n)[0]),
    decreases n,
{
    if n < 10 {
        lemma_digit_char(n);
    } else {
        lemma_decimal_digits_shape(n / 10);
    }
}

proof fn lemma_scan_decimal_digits(n: nat, suffix: Seq<char>)
    requires
        n <= u64::MAX,
    ensures
        scan_digits(decimal_digits(n) + suffix, 0, 0) == scan_digits(
            decimal_digits(n) + suffix,
            decimal_digits(n).len(),
            n,
        ),
    decreases n,
{
    let ds = decimal_digits(n);
    lemma_digit_char(n % 10);
    if n < 10 {
        assert((ds + suffix)[0] == digit_char(n));
    } else {
        let head = decimal_digits(n / 10);
        let rest = seq![digit_char(n % 10)] + suffix;
        assert(ds + suffix =~= head + rest);
        lemma_scan_decimal_digits(n / 10, rest);
        assert((head + rest)[head.len() as int] == digit_char(n % 10));
        assert((n / 10) * 10 + n % 10 == n);
    }
}

/// Reading back the decimal representation of a number gives the number:
/// `parse_u64(&u64_to_decimal(n)) == Ok(n)`.
pub proof fn lemma_decimal_roundtrip(n: u64)
    ensures
        spec_parse_u64(decimal_digits(n as nat)) == Ok::<u64, ParseNumberError>(n),
{
    let ds = decimal_digits(n as nat);
    lemma_decimal_digits_shape(n as nat);
    lemma_scan_decimal_digits(n as nat, Seq::empty());
    assert(ds + Seq::<char>::empty() =~= ds);
    assert(ds[0] != '+' && ds[0] != '-');
}

} // verus!
