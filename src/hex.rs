//! Hexadecimal numbers as they appear in probe addresses and PCI resource files.
use vstd::prelude::*;

verus! {

/// Why a hexadecimal number could not be read.
#[derive(Debug, Clone, Copy, PartialEq, Eq, Structural)]
pub enum HexError {
    /// No digits at all.
    Empty,
    /// A character that is not a hexadecimal digit.
    InvalidDigit,
    /// The value does not fit in 64 bits.
    Overflow,
}

pub open spec fn is_hex_digit(c: char) -> bool {
    ('0' <= c && c <= '9') || ('a' <= c && c <= 'f') || ('A' <= c && c <= 'F')
}

pub open spec fn hex_digit_value(c: char) -> nat {
    if '0' <= c && c <= '9' {
        (c as u32 - '0' as u32) as nat
    } else if 'a' <= c && c <= 'f' {
        (c as u32 - 'a' as u32 + 10) as nat
    } else {
        (c as u32 - 'A' as u32 + 10) as nat
    }
}

pub open spec fn all_hex_digits(s: Seq<char>) -> bool {
    forall|i: int| 0 <= i < s.len() ==> is_hex_digit(#[trigger] s[i])
}

/// The number that a sequence of hexadecimal digits denotes, most significant first.
pub open spec fn hex_value(s: Seq<char>) -> nat
    decreases s.len(),
{
    if s.len() == 0 {
        0
    } else {
        hex_value(s.drop_last()) * 16 + hex_digit_value(s.last())
    }
}

/// What reading `s` as hexadecimal digits gives.
pub open spec fn parse_hex_spec(s: Seq<char>) -> Result<u64, HexError> {
    if s.len() == 0 {
        Err(HexError::Empty)
    } else if !all_hex_digits(s) {
        Err(HexError::InvalidDigit)
    } else if hex_value(s) > u64::MAX {
        Err(HexError::Overflow)
    } else {
        Ok(hex_value(s) as u64)
    }
}

pub open spec fn has_hex_prefix(s: Seq<char>) -> bool {
    s.len() >= 2 && s[0] == '0' && s[1] == 'x'
}

/// `s` without a leading `0x`, if it has one.
pub open spec fn strip_hex_prefix(s: Seq<char>) -> Seq<char> {
    if has_hex_prefix(s) {
        s.subrange(2, s.len() as int)
    } else {
        s
    }
}

proof fn lemma_hex_value_grows(s: Seq<char>, i: int, j: int)
    requires
        0 <= i <= j <= s.len(),
    ensures
        hex_value(s.subrange(0, i)) <= hex_value(s.subrange(0, j)),
    decreases j - i,
{
    if i < j {
        lemma_hex_value_grows(s, i, j - 1);
        assert(s.subrange(0, j).drop_last() =~= s.subrange(0, j - 1));
    }
}

fn digit_value(c: char) -> (r: u64)
    requires
        is_hex_digit(c),
    ensures
        r as nat == hex_digit_value(c),
        r < 16,
{
    if '0' <= c && c <= '9' {
        (c as u32 - '0' as u32) as u64
    } else if 'a' <= c && c <= 'f' {
        (c as u32 - 'a' as u32 + 10) as u64
    } else {
        (c as u32 - 'A' as u32 + 10) as u64
    }
}

/// Reads `s` as hexadecimal digits, with no prefix and no sign.
pub fn parse_hex_digits(s: &str) -> (r: Result<u64, HexError>)
    ensures
        r == parse_hex_spec(s@),
{
    let n = s.unicode_len();
    if n == 0 {
        return Err(HexError::Empty);
    }
    let mut i: usize = 0;
    while i < n
        invariant
            n == s@.len(),
            i <= n,
            forall|k: int| 0 <= k < i ==> is_hex_digit(#[trigger] s@[k]),
        decreases n - i,
    {
        if !is_hex_digit_exec(s.get_char(i)) {
            return Err(HexError::InvalidDigit);
        }
        i = i + 1;
    }
    let mut acc: u64 = 0;
    let mut i: usize = 0;
    while i < n
        invariant
            n == s@.len(),
            i <= n,
            all_hex_digits(s@),
            acc as nat == hex_value(s@.subrange(0, i as int)),
        decreases n - i,
    {
        let d = digit_value(s.get_char(i));
        proof {
            assert(s@.subrange(0, i + 1).drop_last() =~= s@.subrange(0, i as int));
        }
        if acc > (u64::MAX - d) / 16 {
            proof {
                lemma_hex_value_grows(s@, i + 1, n as int);
                assert(s@.subrange(0, n as int) =~= s@);
            }
            return Err(HexError::Overflow);
        }
        acc = acc * 16 + d;
        i = i + 1;
    }
    proof {
        assert(s@.subrange(0, n as int) =~= s@);
    }
    Ok(acc)
}

fn is_hex_digit_exec(c: char) -> (r: bool)
    ensures
        r == is_hex_digit(c),
{
    ('0' <= c && c <= '9') || ('a' <= c && c <= 'f') || ('A' <= c && c <= 'F')
}

/// Whether `s` starts with `0x`.
pub fn starts_with_hex_prefix(s: &str) -> (r: bool)
    ensures
        r == has_hex_prefix(s@),
{
    let n = s.unicode_len();
    n >= 2 && s.get_char(0) == '0' && s.get_char(1) == 'x'
}

/// Reads a hexadecimal number that may carry a leading `0x`.
pub fn strip_radix16(num: &str) -> (r: Result<u64, HexError>)
    ensures
        r == parse_hex_spec(strip_hex_prefix(num@)),
{
    if starts_with_hex_prefix(num) {
        let n = num.unicode_len();
        parse_hex_digits(num.substring_char(2, n))
    } else {
        parse_hex_digits(num)
    }
}

} // verus!
