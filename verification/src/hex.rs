//! Hexadecimal digits and big-endian hex numerals, as the RSP wire format
//! uses them: packet checksums are two hex digits, and several command bodies
//! carry variable-length hex integers.

use vstd::prelude::*;

verus! {

/// True for ASCII `0-9`, `a-f`, `A-F`.
pub open spec fn is_hex_digit(c: u8) -> bool {
    (0x30 <= c && c <= 0x39) || (0x61 <= c && c <= 0x66) || (0x41 <= c && c <= 0x46)
}

/// Numeric value of a hex digit (meaningful only when `is_hex_digit(c)`).
pub open spec fn hex_digit_value(c: u8) -> nat {
    if 0x30 <= c && c <= 0x39 {
        (c - 0x30) as nat
    } else if 0x61 <= c && c <= 0x66 {
        (c - 0x61 + 10) as nat
    } else if 0x41 <= c && c <= 0x46 {
        (c - 0x41 + 10) as nat
    } else {
        0
    }
}

/// True when every byte of `s` is a hex digit.
pub open spec fn all_hex_digits(s: Seq<u8>) -> bool {
    forall|i: int| 0 <= i < s.len() ==> is_hex_digit(#[trigger] s[i])
}

/// Value of a big-endian hex numeral (most significant digit first).
pub open spec fn hex_value(s: Seq<u8>) -> nat
    decreases s.len(),
{
    if s.len() == 0 {
        0
    } else {
        hex_value(s.drop_last()) * 16 + hex_digit_value(s.last())
    }
}

/// The lowercase hex digit with value `v`.
pub open spec fn hex_digit_of(v: nat) -> u8 {
    if v < 10 {
        (0x30 + v) as u8
    } else {
        (0x61 + (v - 10)) as u8
    }
}

/// Classifies one byte as a hex digit.
pub fn hex_digit_p(c: u8) -> (r: bool)
    ensures
        r == is_hex_digit(c),
{
    (0x30 <= c && c <= 0x39) || (0x61 <= c && c <= 0x66) || (0x41 <= c && c <= 0x46)
}

/// Numeric value of one hex digit.
pub fn hex_digit_val(c: u8) -> (r: u8)
    requires
        is_hex_digit(c),
    ensures
        r == hex_digit_value(c),
        r < 16,
{
    if 0x30 <= c && c <= 0x39 {
        c - 0x30
    } else if 0x61 <= c && c <= 0x66 {
        c - 0x61 + 10
    } else {
        c - 0x41 + 10
    }
}

/// The lowercase digit for a value below 16.
pub fn hex_digit_enc(v: u8) -> (r: u8)
    requires
        v < 16,
    ensures
        r == hex_digit_of(v as nat),
        is_hex_digit(r),
        hex_digit_value(r) == v as nat,
{
    if v < 10 {
        0x30 + v
    } else {
        0x61 + (v - 10)
    }
}

/// Encoding a value below 16 gives a hex digit that decodes back to it.
pub proof fn lemma_hex_digit_of(v: nat)
    requires
        v < 16,
    ensures
        is_hex_digit(hex_digit_of(v)),
        hex_digit_value(hex_digit_of(v)) == v,
{
}

/// Hex numerals grow monotonically with each appended digit, so once a prefix
/// exceeds a bound the whole numeral does.
pub proof fn lemma_hex_value_prefix_monotone(s: Seq<u8>, i: int)
    requires
        0 <= i <= s.len(),
    ensures
        hex_value(s.take(i)) <= hex_value(s),
    decreases s.len() - i,
{
    if i < s.len() {
        assert(s.take(i + 1).drop_last() =~= s.take(i));
        assert(hex_value(s.take(i + 1)) == hex_value(s.take(i)) * 16 + hex_digit_value(
            s.take(i + 1).last(),
        ));
        lemma_hex_value_prefix_monotone(s, i + 1);
    } else {
        assert(s.take(i) =~= s);
    }
}

} // verus!
