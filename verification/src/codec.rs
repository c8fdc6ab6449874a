//! Transport codec for an RSA public key.
//!
//! A public key (modulus `n`, exponent `e`) travels between host and guest as
//! the string `"<n_hex>,<e_hex>"`: the two components in lower-case
//! hexadecimal, joined by a single comma, with no prefix and no padding.
//! Encoding is deterministic and injective; decoding trims surrounding ASCII
//! whitespace, accepts either letter case, and fails closed on anything that
//! is not exactly two non-empty hexadecimal fields.

use vstd::prelude::*;

use crate::errors::ProtocolError;
use crate::hexnum::{
    canonical, digit_bytes, digit_values, hex_digit_of, hex_value, is_hex_digit, strip_zeros,
    hex_value_of, is_hex_digit_byte, hex_digit_for,
    lemma_digit_round_trip, lemma_strip_zeros_canonical, lemma_strip_zeros_of_canonical,
};

verus! {

/// The ASCII comma separating the two fields.
pub const SEPARATOR: u8 = 0x2C;

/// The public component of the key pair: modulus and exponent, each a
/// canonical big-endian sequence of hexadecimal digit values.
#[derive(Clone, Debug, PartialEq, Eq)]
pub struct PublicKey {
    /// Digit values of the modulus, most significant first.
    pub n: Vec<u8>,
    /// Digit values of the public exponent, most significant first.
    pub e: Vec<u8>,
}

impl PublicKey {
    /// Both components are canonical digit sequences.
    pub open spec fn wf(&self) -> bool {
        canonical(self.n@) && canonical(self.e@)
    }
}

/// ASCII whitespace removed from the ends of the transport string.
pub open spec fn is_ascii_ws(b: u8) -> bool {
    b == 0x20 || b == 0x09 || b == 0x0A || b == 0x0B || b == 0x0C || b == 0x0D
}

/// Drop leading ASCII whitespace.
pub open spec fn trim_front(s: Seq<u8>) -> Seq<u8>
    decreases s.len(),
{
    if s.len() > 0 && is_ascii_ws(s[0]) {
        trim_front(s.drop_first())
    } else {
        s
    }
}

/// Drop trailing ASCII whitespace.
pub open spec fn trim_back(s: Seq<u8>) -> Seq<u8>
    decreases s.len(),
{
    if s.len() > 0 && is_ascii_ws(s.last()) {
        trim_back(s.drop_last())
    } else {
        s
    }
}

/// Drop surrounding ASCII whitespace.
pub open spec fn trimmed(s: Seq<u8>) -> Seq<u8> {
    trim_back(trim_front(s))
}

/// The bytes split into two non-empty all-hexadecimal fields at position `i`.
pub open spec fn splits_at(s: Seq<u8>, i: int) -> bool {
    &&& 1 <= i
    &&& i < s.len() - 1
    &&& s[i] == SEPARATOR
    &&& forall|j: int| 0 <= j < s.len() && j != i ==> is_hex_digit(s[j])
}

/// The bytes are a well-formed key encoding: exactly one separator with a
/// non-empty hexadecimal field on each side.
pub open spec fn well_formed(s: Seq<u8>) -> bool {
    exists|i: int| splits_at(s, i)
}

/// The position of the unique separator of a well-formed encoding.
pub open spec fn separator_pos(s: Seq<u8>) -> int {
    choose|i: int| splits_at(s, i)
}

/// What decoding yields on the UTF-8 bytes of the transport string: the two
/// digit-value fields, canonicalized, or nothing when the input is malformed.
pub open spec fn spec_decode(s: Seq<u8>) -> Option<(Seq<u8>, Seq<u8>)> {
    let t = trimmed(s);
    if well_formed(t) {
        let i = separator_pos(t);
        Some(
            (
                strip_zeros(digit_values(t.take(i))),
                strip_zeros(digit_values(t.skip(i + 1))),
            ),
        )
    } else {
        None
    }
}

/// The UTF-8 bytes produced by encoding the digit values `n` and `e`.
pub open spec fn spec_encode(n: Seq<u8>, e: Seq<u8>) -> Seq<u8> {
    digit_bytes(n) + seq![SEPARATOR] + digit_bytes(e)
}

/// A well-formed encoding has exactly one separator position.
pub proof fn lemma_separator_unique(s: Seq<u8>, i: int)
    requires
        splits_at(s, i),
    ensures
        well_formed(s),
        separator_pos(s) == i,
{
    assert(well_formed(s));
    let i0 = separator_pos(s);
    assert(splits_at(s, i0));
    if i0 != i {
        assert(is_hex_digit(s[i0]));
    }
}

/// Bytes without any separator are rejected.
pub proof fn lemma_reject_missing_separator(t: Seq<u8>)
    requires
        forall|j: int| 0 <= j < t.len() ==> t[j] != SEPARATOR,
    ensures
        !well_formed(t),
{
    if well_formed(t) {
        let i = separator_pos(t);
        assert(splits_at(t, i));
    }
}

/// Bytes holding a character that is neither a hexadecimal digit nor the
/// separator are rejected.
pub proof fn lemma_reject_non_hex(t: Seq<u8>, j: int)
    requires
        0 <= j < t.len(),
        !is_hex_digit(t[j]),
        t[j] != SEPARATOR,
    ensures
        !well_formed(t),
{
    if well_formed(t) {
        let i = separator_pos(t);
        assert(splits_at(t, i));
        assert(is_hex_digit(t[j]));
    }
}

/// Bytes holding two separators (three or more fields) are rejected.
pub proof fn lemma_reject_extra_fields(t: Seq<u8>, i: int, j: int)
    requires
        0 <= i < j < t.len(),
        t[i] == SEPARATOR,
        t[j] == SEPARATOR,
    ensures
        !well_formed(t),
{
    if well_formed(t) {
        let k = separator_pos(t);
        assert(splits_at(t, k));
        if k != i {
            assert(is_hex_digit(t[i]));
        } else {
            assert(is_hex_digit(t[j]));
        }
    }
}

/// An encoding whose first or last byte is the separator (an empty field) is
/// rejected.
pub proof fn lemma_reject_empty_field(t: Seq<u8>)
    requires
        t.len() > 0,
        t[0] == SEPARATOR || t.last() == SEPARATOR,
    ensures
        !well_formed(t),
{
    if well_formed(t) {
        let i = separator_pos(t);
        assert(splits_at(t, i));
        if t[0] == SEPARATOR {
            assert(is_hex_digit(t[0]));
        } else {
            assert(is_hex_digit(t[t.len() - 1]));
        }
    }
}

/// Decode the transport string into the public key it denotes.
///
/// Fails with `MalformedInput` exactly when the trimmed input is not one
/// separator between two non-empty hexadecimal fields; on success the fields
/// are the canonicalized digit values of the two components.
pub fn decode(s: &str) -> (r: Result<PublicKey, ProtocolError>)
    ensures
        match r {
            Ok(pk) => {
                &&& spec_decode(vstd::utf8::encode_utf8(s@)) == Some((pk.n@, pk.e@))
                &&& pk.wf()
            },
            Err(k) => {
                &&& k == ProtocolError::MalformedInput
                &&& spec_decode(vstd::utf8::encode_utf8(s@)) is None
            },
        },
{
    let bytes = s.as_bytes();
    let ghost b: Seq<u8> = bytes@;
    let len = bytes.len();

    proof {
        assert(b == vstd::utf8::encode_utf8(s@));
        assert(b.skip(0) =~= b);
    }

    // Trim leading whitespace.
    let mut lo: usize = 0;
    while lo < len && byte_is_ws(bytes[lo])
        invariant
            lo <= len,
            len == b.len(),
            bytes@ == b,
            trim_front(b) == trim_front(b.skip(lo as int)),
        decreases len - lo,
    {
        proof {
            assert(b.skip(lo as int)[0] == b[lo as int]);
            assert(b.skip(lo as int).drop_first() =~= b.skip(lo as int + 1));
        }
        lo = lo + 1;
    }
    proof {
        if lo < len {
            assert(b.skip(lo as int)[0] == b[lo as int]);
        }
        assert(trim_front(b) == b.skip(lo as int));
    }

    // Trim trailing whitespace.
    let mut hi: usize = len;
    proof {
        assert(b.subrange(lo as int, len as int) =~= b.skip(lo as int));
    }
    while hi > lo && byte_is_ws(bytes[hi - 1])
        invariant
            lo <= hi <= len,
            len == b.len(),
            bytes@ == b,
            trimmed(b) == trim_back(b.subrange(lo as int, hi as int)),
        decreases hi,
    {
        proof {
            let t = b.subrange(lo as int, hi as int);
            assert(t.last() == b[hi - 1]);
            assert(t.drop_last() =~= b.subrange(lo as int, hi as int - 1));
        }
        hi = hi - 1;
    }
    let ghost t: Seq<u8> = b.subrange(lo as int, hi as int);
    proof {
        if hi > lo {
            assert(t.last() == b[hi - 1]);
        }
        assert(trimmed(b) == t);
    }

    // Find the unique separator; reject anything else that is not hex.
    let mut sep: Option<usize> = None;
    let mut k: usize = lo;
    while k < hi
        invariant
            lo <= k <= hi <= len,
            len == b.len(),
            bytes@ == b,
            b == vstd::utf8::encode_utf8(s@),
            t == b.subrange(lo as int, hi as int),
            trimmed(b) == t,
            match sep {
                Option::None => forall|j: int| lo <= j < k ==> is_hex_digit(b[j]),
                Option::Some(c) => {
                    &&& lo <= c < k
                    &&& b[c as int] == SEPARATOR
                    &&& forall|j: int| lo <= j < k && j != c ==> is_hex_digit(b[j])
                },
            },
        decreases hi - k,
    {
        let byte = bytes[k];
        if byte == SEPARATOR {
            match sep {
                Option::None => {
                    sep = Some(k);
                },
                Option::Some(c) => {
                    proof {
                        assert(t[c - lo] == SEPARATOR);
                        assert(t[k - lo] == SEPARATOR);
                        lemma_reject_extra_fields(t, c - lo, k - lo);
                    }
                    return Err(ProtocolError::MalformedInput);
                },
            }
        } else if !is_hex_digit_byte(byte) {
            proof {
                assert(t[k - lo] == b[k as int]);
                lemma_reject_non_hex(t, k - lo);
            }
            return Err(ProtocolError::MalformedInput);
        }
        k = k + 1;
    }

    let c = match sep {
        Option::None => {
            proof {
                assert(forall|j: int| 0 <= j < t.len() ==> t[j] == b[lo + j]);
                lemma_reject_missing_separator(t);
            }
            return Err(ProtocolError::MalformedInput);
        },
        Option::Some(c) => c,
    };

    if c == lo || c == hi - 1 {
        proof {
            if c == lo {
                assert(t[0] == SEPARATOR);
            } else {
                assert(t.last() == SEPARATOR);
            }
            lemma_reject_empty_field(t);
        }
        return Err(ProtocolError::MalformedInput);
    }

    proof {
        assert(t[c - lo] == SEPARATOR);
        assert forall|j: int| 0 <= j < t.len() && j != c - lo implies is_hex_digit(t[j]) by {
            assert(t[j] == b[lo + j]);
        }
        lemma_separator_unique(t, c - lo);
    }

    let n_digits = parse_digits(bytes, lo, c);
    let e_digits = parse_digits(bytes, c + 1, hi);
    let n = canonicalize(n_digits);
    let e = canonicalize(e_digits);
    proof {
        assert(b.subrange(lo as int, c as int) =~= t.take(c - lo));
        assert(b.subrange(c as int + 1, hi as int) =~= t.skip(c - lo + 1));
    }
    Ok(PublicKey { n, e })
}

/// Encode the public key as its transport string.
///
/// Deterministic: lower-case hexadecimal, one comma, no padding.  Injective
/// on well-formed keys, as `lemma_encode_injective` states.
pub fn encode(pk: &PublicKey) -> (r: String)
    requires
        pk.wf(),
    ensures
        vstd::utf8::encode_utf8(r@) == spec_encode(pk.n@, pk.e@),
{
    let mut out: Vec<u8> = Vec::new();
    push_digit_bytes(&mut out, &pk.n);
    out.push(SEPARATOR);
    push_digit_bytes(&mut out, &pk.e);
    proof {
        assert(out@ =~= spec_encode(pk.n@, pk.e@));
        assert forall|i: int| 0 <= i < out@.len() implies out@[i] < 128 by {
            let s = spec_encode(pk.n@, pk.e@);
            if i < pk.n@.len() {
                lemma_digit_round_trip(pk.n@[i]);
            } else if i > pk.n@.len() {
                lemma_digit_round_trip(pk.e@[i - pk.n@.len() - 1]);
            }
        }
    }
    string_from_ascii(out)
}

/// Round-trip law: decoding an encoded key yields exactly the key back, for
/// every pair of canonical (modulus, exponent) digit sequences.
pub proof fn lemma_codec_round_trip(n: Seq<u8>, e: Seq<u8>)
    requires
        canonical(n),
        canonical(e),
    ensures
        spec_decode(spec_encode(n, e)) == Some((n, e)),
{
    let s = spec_encode(n, e);
    assert forall|i: int| 0 <= i < s.len() && i != n.len() implies is_hex_digit(s[i]) by {
        if i < n.len() {
            lemma_digit_round_trip(n[i]);
        } else {
            lemma_digit_round_trip(e[i - n.len() - 1]);
        }
    }
    lemma_digit_round_trip(n[0]);
    lemma_digit_round_trip(e[0]);
    assert(!is_ascii_ws(s[0]));
    assert(s.last() == hex_digit_of(e.last()));
    assert(!is_ascii_ws(s.last()));
    assert(trim_front(s) == s);
    assert(trim_back(s) == s);
    assert(trimmed(s) == s);
    assert(splits_at(s, n.len() as int));
    lemma_separator_unique(s, n.len() as int);
    assert(digit_values(s.take(n.len() as int)) =~= n) by {
        assert forall|i: int| 0 <= i < n.len() implies s.take(n.len() as int)[i] == hex_digit_of(
            n[i],
        ) && hex_value(hex_digit_of(n[i])) == n[i] by {
            lemma_digit_round_trip(n[i]);
        }
    }
    assert(digit_values(s.skip(n.len() + 1 as int)) =~= e) by {
        assert forall|i: int| 0 <= i < e.len() implies s.skip(n.len() + 1 as int)[i] == hex_digit_of(
            e[i],
        ) && hex_value(hex_digit_of(e[i])) == e[i] by {
            lemma_digit_round_trip(e[i]);
        }
    }
    lemma_strip_zeros_of_canonical(n);
    lemma_strip_zeros_of_canonical(e);
}

/// Injectivity law: the encoding is an injective mapping on well-formed
/// keys — two keys with the same transport string are the same key.
pub proof fn lemma_encode_injective(n1: Seq<u8>, e1: Seq<u8>, n2: Seq<u8>, e2: Seq<u8>)
    requires
        canonical(n1),
        canonical(e1),
        canonical(n2),
        canonical(e2),
        spec_encode(n1, e1) == spec_encode(n2, e2),
    ensures
        n1 == n2,
        e1 == e2,
{
    lemma_codec_round_trip(n1, e1);
    lemma_codec_round_trip(n2, e2);
}

/// Test whether a byte is ASCII whitespace.
fn byte_is_ws(b: u8) -> (r: bool)
    ensures
        r == is_ascii_ws(b),
{
    b == 0x20 || b == 0x09 || b == 0x0A || b == 0x0B || b == 0x0C || b == 0x0D
}

/// Read the digit values of a run of hexadecimal digit bytes.
fn parse_digits(bytes: &[u8], from: usize, to: usize) -> (v: Vec<u8>)
    requires
        from <= to <= bytes@.len(),
        forall|j: int| from <= j < to ==> is_hex_digit(bytes@[j]),
    ensures
        v@ == digit_values(bytes@.subrange(from as int, to as int)),
        forall|i: int| 0 <= i < v@.len() ==> v@[i] < 16,
{
    let mut v: Vec<u8> = Vec::new();
    let mut k = from;
    while k < to
        invariant
            from <= k <= to <= bytes@.len(),
            forall|j: int| from <= j < to ==> is_hex_digit(bytes@[j]),
            v@ == digit_values(bytes@.subrange(from as int, k as int)),
            forall|i: int| 0 <= i < v@.len() ==> v@[i] < 16,
        decreases to - k,
    {
        let d = hex_value_of(bytes[k]);
        v.push(d);
        proof {
            assert(digit_values(bytes@.subrange(from as int, k as int + 1)) =~= digit_values(
                bytes@.subrange(from as int, k as int),
            ).push(hex_value(bytes@[k as int])));
        }
        k = k + 1;
    }
    proof {
        assert(bytes@.subrange(from as int, to as int) == bytes@.subrange(
            from as int,
            k as int,
        ));
    }
    v
}

/// Canonicalize a non-empty digit sequence by stripping leading zeros.
fn canonicalize(v: Vec<u8>) -> (r: Vec<u8>)
    requires
        v@.len() >= 1,
        forall|i: int| 0 <= i < v@.len() ==> v@[i] < 16,
    ensures
        r@ == strip_zeros(v@),
        canonical(r@),
{
    let mut i: usize = 0;
    proof {
        assert(v@.skip(0) =~= v@);
    }
    while i < v.len() - 1 && v[i] == 0
        invariant
            v@.len() >= 1,
            i < v@.len(),
            forall|j: int| 0 <= j < v@.len() ==> v@[j] < 16,
            strip_zeros(v@) == strip_zeros(v@.skip(i as int)),
        decreases v@.len() - i,
    {
        proof {
            assert(v@.skip(i as int)[0] == v@[i as int]);
            assert(v@.skip(i as int).drop_first() =~= v@.skip(i as int + 1));
        }
        i = i + 1;
    }
    proof {
        assert(v@.skip(i as int)[0] == v@[i as int]);
        assert(strip_zeros(v@.skip(i as int)) == v@.skip(i as int));
        lemma_strip_zeros_canonical(v@);
    }
    let mut r: Vec<u8> = Vec::new();
    let mut k = i;
    while k < v.len()
        invariant
            i <= k <= v@.len(),
            r@ == v@.subrange(i as int, k as int),
        decreases v@.len() - k,
    {
        r.push(v[k]);
        proof {
            assert(v@.subrange(i as int, k as int + 1) =~= v@.subrange(i as int, k as int).push(
                v@[k as int],
            ));
        }
        k = k + 1;
    }
    proof {
        assert(r@ =~= v@.skip(i as int));
    }
    r
}

/// Push the lower-case digit bytes of a digit-value sequence.
fn push_digit_bytes(out: &mut Vec<u8>, d: &Vec<u8>)
    requires
        forall|i: int| 0 <= i < d@.len() ==> d@[i] < 16,
    ensures
        final(out)@ == old(out)@ + digit_bytes(d@),
{
    let mut k: usize = 0;
    while k < d.len()
        invariant
            k <= d@.len(),
            forall|i: int| 0 <= i < d@.len() ==> d@[i] < 16,
            out@ == old(out)@ + digit_bytes(d@.take(k as int)),
        decreases d@.len() - k,
    {
        let b = hex_digit_for(d[k]);
        out.push(b);
        proof {
            assert(digit_bytes(d@.take(k as int + 1)) =~= digit_bytes(d@.take(k as int)).push(
                hex_digit_of(d@[k as int]),
            ));
        }
        k = k + 1;
    }
    proof {
        assert(d@.take(d@.len() as int) =~= d@);
    }
}

/// Relies on `String::from_utf8`: a vector of ASCII bytes is valid UTF-8 and
/// the returned string's UTF-8 encoding is exactly the input bytes.
#[verifier::external_body]
fn string_from_ascii(v: Vec<u8>) -> (r: String)
    requires
        forall|i: int| 0 <= i < v@.len() ==> v@[i] < 128,
    ensures
        vstd::utf8::encode_utf8(r@) == v@,
{
    String::from_utf8(v).unwrap_or_default()
}

} // verus!
