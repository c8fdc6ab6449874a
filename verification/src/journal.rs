//! The committed-output format.
//!
//! The guest commits the ciphertext to its public output channel as a word
//! stream: one 32-bit little-endian word holding the byte count, then one
//! word per byte, each byte in the low octet of its own word.  The journal
//! carried inside a receipt is exactly this stream, and the host recovers
//! the ciphertext by parsing it; parsing fails closed on any stream that no
//! byte string produces.

use vstd::prelude::*;

use crate::errors::ProtocolError;

verus! {

/// The four little-endian bytes of a 32-bit value.
pub open spec fn word_bytes(x: int) -> Seq<u8>
    recommends
        0 <= x < 0x1_0000_0000,
{
    seq![
        (x % 256) as u8,
        ((x / 256) % 256) as u8,
        ((x / 65536) % 256) as u8,
        ((x / 16777216) % 256) as u8,
    ]
}

/// The value of the four little-endian bytes starting at `k`.
pub open spec fn word_at(b: Seq<u8>, k: int) -> int
    recommends
        0 <= k,
        k + 4 <= b.len(),
{
    b[k] + 256 * b[k + 1] + 65536 * b[k + 2] + 16777216 * b[k + 3]
}

/// Each byte in its own little-endian word.
pub open spec fn byte_words(d: Seq<u8>) -> Seq<u8>
    decreases d.len(),
{
    if d.len() == 0 {
        Seq::empty()
    } else {
        word_bytes(d.first() as int) + byte_words(d.drop_first())
    }
}

/// The journal bytes committing the byte string `d`.
pub open spec fn spec_journal(d: Seq<u8>) -> Seq<u8>
    recommends
        d.len() < 0x1_0000_0000,
{
    word_bytes(d.len() as int) + byte_words(d)
}

/// What parsing a journal yields: the unique byte string whose commitment is
/// exactly these bytes, or nothing.
pub open spec fn spec_parse_journal(b: Seq<u8>) -> Option<Seq<u8>> {
    if b.len() >= 4 {
        let l = word_at(b, 0);
        if b.len() == 4 + 4 * l && (forall|j: int|
            4 <= j < b.len() && j % 4 != 0 ==> b[j] == 0) {
            Some(Seq::new(l as nat, |j: int| b[4 + 4 * j]))
        } else {
            None
        }
    } else {
        None
    }
}

/// Word decomposition round-trips.
proof fn lemma_word_round_trip(x: int)
    requires
        0 <= x < 0x1_0000_0000,
    ensures
        word_at(word_bytes(x), 0) == x,
{
    assert(x % 256 + 256 * ((x / 256) % 256) + 65536 * ((x / 65536) % 256) + 16777216 * ((x
        / 16777216) % 256) == x) by (nonlinear_arith)
        requires
            0 <= x < 0x1_0000_0000,
    ;
}

/// `byte_words` of a concatenation is the concatenation of `byte_words`.
proof fn lemma_byte_words_concat(a: Seq<u8>, b: Seq<u8>)
    ensures
        byte_words(a + b) == byte_words(a) + byte_words(b),
    decreases a.len(),
{
    if a.len() == 0 {
        assert(a + b =~= b);
        assert(byte_words(a) + byte_words(b) =~= byte_words(b));
    } else {
        lemma_byte_words_concat(a.drop_first(), b);
        assert((a + b).drop_first() =~= a.drop_first() + b);
        assert((a + b).first() == a.first());
        assert(byte_words(a + b) =~= byte_words(a) + byte_words(b));
    }
}

/// Length of the word stream of a byte string.
proof fn lemma_byte_words_len(d: Seq<u8>)
    ensures
        byte_words(d).len() == 4 * d.len(),
    decreases d.len(),
{
    if d.len() > 0 {
        lemma_byte_words_len(d.drop_first());
    }
}

/// The word holding byte `j` of the committed string.
proof fn lemma_byte_words_index(d: Seq<u8>, j: int)
    requires
        0 <= j < d.len(),
    ensures
        byte_words(d)[4 * j] == d[j],
        byte_words(d)[4 * j + 1] == 0,
        byte_words(d)[4 * j + 2] == 0,
        byte_words(d)[4 * j + 3] == 0,
    decreases d.len(),
{
    lemma_byte_words_len(d);
    if j > 0 {
        lemma_byte_words_index(d.drop_first(), j - 1);
        lemma_byte_words_len(d.drop_first());
    } else {
        assert(d.first() as int % 256 == d[0]);
        assert(d.first() as int / 256 == 0);
    }
}

/// Round-trip law: parsing the commitment of any byte string below the length
/// bound yields exactly that byte string.
pub proof fn lemma_journal_round_trip(d: Seq<u8>)
    requires
        d.len() < 0x1_0000_0000,
    ensures
        spec_parse_journal(spec_journal(d)) == Some(d),
{
    let b = spec_journal(d);
    lemma_byte_words_len(d);
    lemma_word_round_trip(d.len() as int);
    assert forall|k: int| 0 <= k < 4 implies b[k] == word_bytes(d.len() as int)[k] by {}
    assert(word_at(b, 0) == word_at(word_bytes(d.len() as int), 0));
    assert forall|j: int| 4 <= j < b.len() && j % 4 != 0 implies b[j] == 0 by {
        let q = (j - 4) / 4;
        assert(j - 4 == 4 * q + (j - 4) % 4);
        lemma_byte_words_index(d, q);
    }
    let parsed = Seq::new(d.len(), |j: int| b[4 + 4 * j]);
    assert(parsed =~= d) by {
        assert forall|j: int| 0 <= j < d.len() implies b[4 + 4 * j] == d[j] by {
            lemma_byte_words_index(d, j);
        }
    }
}

/// A parsed journal is the commitment of what it parsed to: the format is
/// injective, and a journal accepted by the parser equals the commitment of
/// its result byte for byte.
pub proof fn lemma_journal_parse_exact(b: Seq<u8>)
    requires
        spec_parse_journal(b) is Some,
    ensures
        spec_journal(spec_parse_journal(b).unwrap()) == b,
{
    let d = spec_parse_journal(b).unwrap();
    let l = word_at(b, 0);
    lemma_byte_words_len(d);
    assert(word_bytes(l) =~= b.take(4)) by {
        lemma_word_bytes_of_word_at(b);
    }
    assert(spec_journal(d) =~= b) by {
        assert forall|k: int| 0 <= k < b.len() implies spec_journal(d)[k] == b[k] by {
            if k < 4 {
                assert(word_bytes(d.len() as int)[k] == b.take(4)[k]);
            } else {
                let q = (k - 4) / 4;
                let r = (k - 4) % 4;
                assert(k - 4 == 4 * q + r);
                lemma_byte_words_index(d, q);
                if r != 0 {
                    assert(k % 4 != 0);
                }
            }
        }
    }
}

/// The commitment format is injective: different byte strings always
/// commit to different journals, so a journal that still parses after a
/// change carries a different ciphertext.
pub proof fn lemma_journal_injective(d1: Seq<u8>, d2: Seq<u8>)
    requires
        d1.len() < 0x1_0000_0000,
        d2.len() < 0x1_0000_0000,
        spec_journal(d1) == spec_journal(d2),
    ensures
        d1 == d2,
{
    lemma_journal_round_trip(d1);
    lemma_journal_round_trip(d2);
}

/// The little-endian bytes of a parsed word are the bytes themselves.
proof fn lemma_word_bytes_of_word_at(b: Seq<u8>)
    requires
        b.len() >= 4,
    ensures
        word_bytes(word_at(b, 0)) =~= b.take(4),
{
    let x = word_at(b, 0);
    assert(x % 256 == b[0] && (x / 256) % 256 == b[1] && (x / 65536) % 256 == b[2] && (x
        / 16777216) % 256 == b[3]) by (nonlinear_arith)
        requires
            x == b[0] + 256 * b[1] + 65536 * b[2] + 16777216 * b[3],
            0 <= b[0] < 256 && 0 <= b[1] < 256 && 0 <= b[2] < 256 && 0 <= b[3] < 256,
    ;
}

/// Commit a byte string to its journal form.
pub fn encode_journal(data: &[u8]) -> (r: Vec<u8>)
    requires
        data@.len() < 0x1_0000_0000,
    ensures
        r@ == spec_journal(data@),
{
    let len = data.len();
    let mut out: Vec<u8> = Vec::new();
    out.push((len % 256) as u8);
    out.push(((len / 256) % 256) as u8);
    out.push(((len / 65536) % 256) as u8);
    out.push(((len / 16777216) % 256) as u8);
    proof {
        assert(out@ =~= word_bytes(data@.len() as int));
        assert(data@.take(0) =~= Seq::<u8>::empty());
    }
    let mut i: usize = 0;
    while i < len
        invariant
            i <= len,
            len == data@.len(),
            len < 0x1_0000_0000,
            out@ == word_bytes(len as int) + byte_words(data@.take(i as int)),
        decreases len - i,
    {
        out.push(data[i]);
        out.push(0);
        out.push(0);
        out.push(0);
        proof {
            let prefix = data@.take(i as int);
            let next = data@.take(i as int + 1);
            assert(next =~= prefix + seq![data@[i as int]]);
            lemma_byte_words_concat(prefix, seq![data@[i as int]]);
            assert(byte_words(seq![data@[i as int]]) =~= word_bytes(data@[i as int] as int)) by {
                let single = seq![data@[i as int]];
                assert(single.first() == data@[i as int]);
                assert(single.drop_first() =~= Seq::<u8>::empty());
                assert(byte_words(single) == word_bytes(single.first() as int) + byte_words(
                    single.drop_first(),
                ));
                assert(word_bytes(single.first() as int) + Seq::<u8>::empty() =~= word_bytes(
                    single.first() as int,
                ));
            }
            assert(data@[i as int] as int % 256 == data@[i as int]);
            assert(data@[i as int] as int / 256 == 0);
            assert(out@ =~= word_bytes(len as int) + byte_words(next));
        }
        i = i + 1;
    }
    proof {
        assert(data@.take(len as int) =~= data@);
    }
    out
}

/// Parse a journal back into the committed byte string.
///
/// Fails with `MalformedInput` exactly when no byte string commits to these
/// bytes: too short, a length that does not match, or padding that is not
/// zero.
pub fn decode_journal(b: &[u8]) -> (r: Result<Vec<u8>, ProtocolError>)
    ensures
        match r {
            Ok(d) => spec_parse_journal(b@) == Some(d@),
            Err(k) => {
                &&& k == ProtocolError::MalformedInput
                &&& spec_parse_journal(b@) is None
            },
        },
{
    let total = b.len();
    if total < 4 {
        return Err(ProtocolError::MalformedInput);
    }
    let l: usize = (b[0] as usize) + 256 * (b[1] as usize) + 65536 * (b[2] as usize) + 16777216
        * (b[3] as usize);
    proof {
        assert(l == word_at(b@, 0));
    }
    if (total - 4) % 4 != 0 || (total - 4) / 4 != l {
        proof {
            assert(total - 4 != 4 * l);
        }
        return Err(ProtocolError::MalformedInput);
    }
    proof {
        assert(total == 4 + 4 * l);
    }
    let mut out: Vec<u8> = Vec::new();
    let mut j: usize = 0;
    while j < l
        invariant
            j <= l,
            b@.len() == 4 + 4 * l,
            4 + 4 * l <= usize::MAX,
            l == word_at(b@, 0),
            out@ == Seq::new(j as nat, |q: int| b@[4 + 4 * q]),
            forall|k: int| 4 <= k < 4 + 4 * j && k % 4 != 0 ==> b@[k] == 0,
        decreases l - j,
    {
        let base = 4 + 4 * j;
        if b[base + 1] != 0 || b[base + 2] != 0 || b[base + 3] != 0 {
            proof {
                if b@[base + 1] != 0 {
                    assert((base + 1) % 4 == 1);
                } else if b@[base + 2] != 0 {
                    assert((base + 2) % 4 == 2);
                } else {
                    assert((base + 3) % 4 == 3);
                }
            }
            return Err(ProtocolError::MalformedInput);
        }
        out.push(b[base]);
        proof {
            assert(out@ =~= Seq::new(j as nat + 1, |q: int| b@[4 + 4 * q]));
            assert forall|k: int| 4 <= k < 4 + 4 * (j + 1) && k % 4 != 0 implies b@[k] == 0 by {
                if k >= 4 + 4 * j {
                    assert(k == base + 1 || k == base + 2 || k == base + 3);
                }
            }
        }
        j = j + 1;
    }
    Ok(out)
}

} // verus!
