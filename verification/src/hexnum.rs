//! Big natural numbers written as big-endian hexadecimal digit sequences.
//!
//! The protocol transports an RSA public key as hexadecimal text, so the
//! library models each key component as the sequence of its hexadecimal
//! digit values (most significant first), kept canonical: non-empty and
//! without a redundant leading zero.

use vstd::prelude::*;

verus! {

/// ASCII code of a hexadecimal digit, either case.
pub open spec fn is_hex_digit(b: u8) -> bool {
    (0x30 <= b && b <= 0x39) || (0x61 <= b && b <= 0x66) || (0x41 <= b && b <= 0x46)
}

/// The numeric value of a hexadecimal digit byte.
pub open spec fn hex_value(b: u8) -> u8
    recommends
        is_hex_digit(b),
{
    if 0x30 <= b && b <= 0x39 {
        (b - 0x30) as u8
    } else if 0x61 <= b && b <= 0x66 {
        (b - 0x61 + 10) as u8
    } else {
        (b - 0x41 + 10) as u8
    }
}

/// The lower-case ASCII digit for a value below 16.
pub open spec fn hex_digit_of(d: u8) -> u8
    recommends
        d < 16,
{
    if d < 10 {
        (0x30 + d) as u8
    } else {
        (0x61 + (d - 10)) as u8
    }
}

/// Digit values of a sequence of hexadecimal digit bytes.
pub open spec fn digit_values(s: Seq<u8>) -> Seq<u8> {
    s.map_values(|b: u8| hex_value(b))
}

/// Lower-case digit bytes of a sequence of digit values.
pub open spec fn digit_bytes(d: Seq<u8>) -> Seq<u8> {
    d.map_values(|x: u8| hex_digit_of(x))
}

/// The natural number a big-endian digit-value sequence denotes.
pub open spec fn digits_value(d: Seq<u8>) -> nat
    decreases d.len(),
{
    if d.len() == 0 {
        0
    } else {
        digits_value(d.drop_last()) * 16 + d.last() as nat
    }
}

/// A canonical digit sequence: non-empty, every entry below 16, and no
/// redundant leading zero.
pub open spec fn canonical(d: Seq<u8>) -> bool {
    &&& d.len() >= 1
    &&& forall|i: int| 0 <= i < d.len() ==> d[i] < 16
    &&& d.len() > 1 ==> d[0] != 0
}

/// Remove redundant leading zeros, keeping at least one digit.
pub open spec fn strip_zeros(d: Seq<u8>) -> Seq<u8>
    decreases d.len(),
{
    if d.len() > 1 && d[0] == 0 {
        strip_zeros(d.drop_first())
    } else {
        d
    }
}

/// A digit round-trips through its lower-case byte.
pub proof fn lemma_digit_round_trip(d: u8)
    requires
        d < 16,
    ensures
        is_hex_digit(hex_digit_of(d)),
        hex_value(hex_digit_of(d)) == d,
        hex_digit_of(d) < 128,
        d == 0 <==> hex_digit_of(d) == 0x30,
{
}

/// Stripping leading zeros yields a canonical sequence.
pub proof fn lemma_strip_zeros_canonical(d: Seq<u8>)
    requires
        d.len() >= 1,
        forall|i: int| 0 <= i < d.len() ==> d[i] < 16,
    ensures
        canonical(strip_zeros(d)),
    decreases d.len(),
{
    if d.len() > 1 && d[0] == 0 {
        lemma_strip_zeros_canonical(d.drop_first());
    }
}

/// A canonical sequence is unchanged by stripping.
pub proof fn lemma_strip_zeros_of_canonical(d: Seq<u8>)
    requires
        canonical(d),
    ensures
        strip_zeros(d) == d,
{
}

/// Turn a hexadecimal digit byte into its value.
pub fn hex_value_of(b: u8) -> (d: u8)
    requires
        is_hex_digit(b),
    ensures
        d == hex_value(b),
        d < 16,
{
    if 0x30 <= b && b <= 0x39 {
        b - 0x30
    } else if 0x61 <= b && b <= 0x66 {
        b - 0x61 + 10
    } else {
        b - 0x41 + 10
    }
}

/// Test whether a byte is a hexadecimal digit.
pub fn is_hex_digit_byte(b: u8) -> (r: bool)
    ensures
        r == is_hex_digit(b),
{
    (0x30 <= b && b <= 0x39) || (0x61 <= b && b <= 0x66) || (0x41 <= b && b <= 0x46)
}

/// Turn a digit value into its lower-case byte.
pub fn hex_digit_for(d: u8) -> (b: u8)
    requires
        d < 16,
    ensures
        b == hex_digit_of(d),
{
    if d < 10 {
        0x30 + d
    } else {
        0x61 + (d - 10)
    }
}

} // verus!
