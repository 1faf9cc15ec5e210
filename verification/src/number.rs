//! Numbers as the user types them and as the shell prints them.
//!
//! An argument is read as hexadecimal after `0x`, as binary after `0b`, as
//! octal after a leading `0`, and as decimal otherwise.

use vstd::prelude::*;
use crate::distance::chars_of;

verus! {

/// Why a piece of text is not a number.
#[derive(Debug, PartialEq, Eq, Structural)]
pub enum NumErr {
    /// There is no digit at all.
    Empty,
    /// Some character is not a digit of the base.
    InvalidDigit,
    /// The digits stand for a number above `u64::MAX`.
    Overflow,
}

impl NumErr {
    /// The cause, as shown to the user.
    pub open spec fn message(self) -> Seq<char> {
        match self {
            NumErr::Empty => "cannot parse integer from empty string"@,
            NumErr::InvalidDigit => "invalid digit found in string"@,
            NumErr::Overflow => "number too large to fit in target type"@,
        }
    }

    /// Renders the cause as text.
    pub fn to_string(&self) -> (text: String)
        ensures
            text@ == self.message(),
    {
        match self {
            NumErr::Empty => "cannot parse integer from empty string".to_owned(),
            NumErr::InvalidDigit => "invalid digit found in string".to_owned(),
            NumErr::Overflow => "number too large to fit in target type".to_owned(),
        }
    }
}

/// The value of `c` as a digit of base `radix`, for bases up to 16.
pub open spec fn digit_value(c: char, radix: nat) -> Option<nat> {
    let v: int = if '0' <= c <= '9' {
        c as int - '0' as int
    } else if 'a' <= c <= 'f' {
        c as int - 'a' as int + 10
    } else if 'A' <= c <= 'F' {
        c as int - 'A' as int + 10
    } else {
        16
    };
    if v < radix {
        Some(v as nat)
    } else {
        None
    }
}

/// Every character of `s` is a digit of base `radix`.
pub open spec fn all_digits(s: Seq<char>, radix: nat) -> bool {
    forall|i: int| 0 <= i < s.len() ==> (#[trigger] digit_value(s[i], radix)) is Some
}

/// The number that the digits `s` stand for in base `radix`, most
/// significant digit first.
pub open spec fn digits_value(s: Seq<char>, radix: nat) -> nat
    decreases s.len(),
{
    if s.len() == 0 {
        0
    } else {
        digits_value(s.drop_last(), radix) * radix + digit_value(s.last(), radix).unwrap()
    }
}

/// What a run of digits in base `radix` parses to.
pub open spec fn parse_digits(s: Seq<char>, radix: nat) -> Result<u64, NumErr> {
    if s.len() == 0 {
        Err(NumErr::Empty)
    } else if !all_digits(s, radix) {
        Err(NumErr::InvalidDigit)
    } else if digits_value(s, radix) > u64::MAX {
        Err(NumErr::Overflow)
    } else {
        Ok(digits_value(s, radix) as u64)
    }
}

/// What an argument parses to: the base is taken from the prefix.
pub open spec fn parse_number(s: Seq<char>) -> Result<u64, NumErr> {
    if s.len() >= 2 && s[0] == '0' && (s[1] == 'x' || s[1] == 'X') {
        parse_digits(s.skip(2), 16)
    } else if s.len() >= 2 && s[0] == '0' && (s[1] == 'b' || s[1] == 'B') {
        parse_digits(s.skip(2), 2)
    } else if s.len() >= 2 && s[0] == '0' {
        parse_digits(s.skip(1), 8)
    } else {
        parse_digits(s, 10)
    }
}

/// A longer run of digits stands for no smaller a number than its beginning.
proof fn lemma_value_grows(s: Seq<char>, radix: nat, k: int)
    requires
        0 <= k <= s.len(),
        radix >= 1,
    ensures
        digits_value(s.take(k), radix) <= digits_value(s, radix),
    decreases s.len(),
{
    if k == s.len() {
        assert(s.take(k) == s);
    } else {
        assert(s.drop_last().take(k) == s.take(k));
        lemma_value_grows(s.drop_last(), radix, k);
        let v = digits_value(s.drop_last(), radix);
        assert(v <= v * radix) by (nonlinear_arith)
            requires
                radix >= 1,
                v >= 0,
        ;
    }
}

fn digit_of(c: char, radix: u64) -> (d: Option<u64>)
    requires
        radix <= 16,
    ensures
        d matches Some(v) ==> digit_value(c, radix as nat) == Some(v as nat),
        d is None ==> digit_value(c, radix as nat) is None,
{
    let v: u64 = if '0' <= c && c <= '9' {
        c as u64 - '0' as u64
    } else if 'a' <= c && c <= 'f' {
        c as u64 - 'a' as u64 + 10
    } else if 'A' <= c && c <= 'F' {
        c as u64 - 'A' as u64 + 10
    } else {
        16
    };
    if v < radix {
        Some(v)
    } else {
        None
    }
}

/// Parses the characters of `chars` from position `start` on as digits of
/// base `radix`.
fn digits_to_num(chars: &Vec<char>, start: usize, radix: u64) -> (res: Result<u64, NumErr>)
    requires
        start <= chars.len(),
        1 <= radix <= 16,
    ensures
        res == parse_digits(chars@.skip(start as int), radix as nat),
{
    let ghost s = chars@.skip(start as int);
    let n: usize = chars.len();
    if start == n {
        return Err(NumErr::Empty);
    }
    let mut i: usize = start;
    while i < n
        invariant
            start <= i <= n,
            n == chars@.len(),
            radix <= 16,
            s == chars@.skip(start as int),
            forall|k: int| 0 <= k < i - start ==> (#[trigger] digit_value(s[k], radix as nat)) is Some,
        decreases n - i,
    {
        let d = digit_of(chars[i], radix);
        if d.is_none() {
            assert(digit_value(s[i - start], radix as nat) is None);
            return Err(NumErr::InvalidDigit);
        }
        i += 1;
    }
    assert(all_digits(s, radix as nat));
    let mut acc: u64 = 0;
    let mut i: usize = start;
    while i < n
        invariant
            start <= i <= n,
            n == chars@.len(),
            1 <= radix <= 16,
            s == chars@.skip(start as int),
            all_digits(s, radix as nat),
            acc == digits_value(s.take(i - start), radix as nat),
        decreases n - i,
    {
        let ghost t = s.take(i - start + 1);
        proof {
            assert(t.drop_last() == s.take(i - start));
            assert(t.last() == s[i - start]);
            assert(digit_value(s[i - start], radix as nat) is Some);
            lemma_value_grows(s, radix as nat, i - start + 1);
        }
        let d = digit_of(chars[i], radix);
        let v: u64 = match d {
            Some(v) => v,
            None => 0,
        };
        let next = match acc.checked_mul(radix) {
            Some(shifted) => shifted.checked_add(v),
            None => None,
        };
        match next {
            Some(value) => {
                acc = value;
            },
            None => {
                return Err(NumErr::Overflow);
            },
        }
        i += 1;
    }
    assert(s.take(n - start) == s);
    Ok(acc)
}

/// Reads a number as the user types it.
pub fn str_to_num(n: &str) -> (res: Result<u64, NumErr>)
    ensures
        res == parse_number(n@),
{
    let chars = chars_of(n);
    if chars.len() >= 2 && chars[0] == '0' {
        let mark: char = chars[1];
        if mark == 'x' || mark == 'X' {
            digits_to_num(&chars, 2, 16)
        } else if mark == 'b' || mark == 'B' {
            digits_to_num(&chars, 2, 2)
        } else {
            digits_to_num(&chars, 1, 8)
        }
    } else {
        assert(chars@.skip(0) == chars@);
        digits_to_num(&chars, 0, 10)
    }
}

/// The character that stands for the digit `d`, for digits below 16.
pub open spec fn digit_char(d: nat) -> char {
    "0123456789abcdef"@[d as int]
}

/// `n` in decimal, without leading zeros.
pub open spec fn decimal(n: nat) -> Seq<char>
    decreases n,
{
    if n < 10 {
        seq![digit_char(n)]
    } else {
        decimal(n / 10).push(digit_char(n % 10))
    }
}

/// The last `width` hexadecimal digits of `n`, zeros included.
pub open spec fn hex(n: nat, width: nat) -> Seq<char>
    decreases width,
{
    if width == 0 {
        Seq::empty()
    } else {
        hex(n / 16, (width - 1) as nat).push(digit_char(n % 16))
    }
}

/// A 64-bit value as the shell prints it: `0x` and sixteen hexadecimal
/// digits.
pub open spec fn hex_address(n: u64) -> Seq<char> {
    "0x"@ + hex(n as nat, 16)
}

fn digit_str(d: u64) -> (s: &'static str)
    requires
        d < 16,
    ensures
        s@ == seq![digit_char(d as nat)],
{
    proof {
        reveal_strlit("0123456789abcdef");
    }
    let digits = "0123456789abcdef";
    let s = digits.substring_ascii(d as usize, d as usize + 1);
    assert(s@ == seq![digit_char(d as nat)]);
    s
}

fn push_decimal(out: &mut String, n: u64)
    ensures
        final(out)@ == old(out)@ + decimal(n as nat),
    decreases n,
{
    if n >= 10 {
        push_decimal(out, n / 10);
    }
    out.append(digit_str(n % 10));
    assert(out@ == old(out)@ + decimal(n as nat));
}

fn push_hex(out: &mut String, n: u64, width: u32)
    ensures
        final(out)@ == old(out)@ + hex(n as nat, width as nat),
    decreases width,
{
    if width > 0 {
        push_hex(out, n / 16, width - 1);
        out.append(digit_str(n % 16));
    }
    assert(out@ == old(out)@ + hex(n as nat, width as nat));
}

/// Writes `n` in decimal.
pub fn to_decimal(n: u64) -> (text: String)
    ensures
        text@ == decimal(n as nat),
{
    let mut text = String::new();
    push_decimal(&mut text, n);
    assert(text@ == decimal(n as nat));
    text
}

/// Writes `n` as the shell prints addresses and sizes.
pub fn to_hex(n: u64) -> (text: String)
    ensures
        text@ == hex_address(n),
{
    let mut text = "0x".to_owned();
    push_hex(&mut text, n, 16);
    text
}

} // verus!
