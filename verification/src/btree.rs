//! B-tree pieces: the key/value pair record stored in a leaf's slots, and
//! the byte-lexicographic order that leaves keep their keys in. A pair is
//! encoded as a 16-bit little-endian key length, the key bytes, then the
//! value bytes to the end of the slot.

use crate::bsearch::ordering_rank;
use crate::codec::u16_le_spec;
use core::cmp::Ordering;
use vstd::prelude::*;
use vstd::slice::{slice_subrange, slice_to_vec};

pub mod leaf;

verus! {

broadcast use vstd::std_specs::vec::axiom_spec_len;

/// Three-way byte-lexicographic comparison: the order `&[u8]` sorts in.
pub open spec fn lex_cmp(a: Seq<u8>, b: Seq<u8>) -> Ordering
    decreases a.len(),
{
    if a.len() == 0 && b.len() == 0 {
        Ordering::Equal
    } else if a.len() == 0 {
        Ordering::Less
    } else if b.len() == 0 {
        Ordering::Greater
    } else if a[0] < b[0] {
        Ordering::Less
    } else if a[0] > b[0] {
        Ordering::Greater
    } else {
        lex_cmp(a.skip(1), b.skip(1))
    }
}

/// `a` strictly precedes `b` byte-lexicographically.
pub open spec fn lex_lt(a: Seq<u8>, b: Seq<u8>) -> bool {
    lex_cmp(a, b) == Ordering::Less
}

/// Two byte sequences compare `Equal` exactly when they are equal.
pub proof fn lemma_lex_cmp_eq(a: Seq<u8>, b: Seq<u8>)
    ensures
        (lex_cmp(a, b) == Ordering::Equal) <==> (a == b),
    decreases a.len(),
{
    if a.len() == 0 && b.len() == 0 {
        assert(a =~= b);
    } else if a.len() != 0 && b.len() != 0 && a[0] == b[0] {
        lemma_lex_cmp_eq(a.skip(1), b.skip(1));
        if lex_cmp(a, b) == Ordering::Equal {
            assert(a.skip(1) == b.skip(1));
            assert forall|i: int| 0 <= i < a.len() implies a[i] == b[i] by {
                if i > 0 {
                    assert(a[i] == a.skip(1)[i - 1]);
                    assert(b[i] == b.skip(1)[i - 1]);
                }
            }
            assert(a =~= b);
        }
        if a == b {
            assert(a.skip(1) =~= b.skip(1));
        }
    }
}

/// Swapping the arguments flips `Less` and `Greater`.
pub proof fn lemma_lex_cmp_flip(a: Seq<u8>, b: Seq<u8>)
    ensures
        lex_cmp(b, a) == (match lex_cmp(a, b) {
            Ordering::Less => Ordering::Greater,
            Ordering::Equal => Ordering::Equal,
            Ordering::Greater => Ordering::Less,
        }),
    decreases a.len(),
{
    if a.len() != 0 && b.len() != 0 && a[0] == b[0] {
        lemma_lex_cmp_flip(a.skip(1), b.skip(1));
    }
}

/// The strict byte-lexicographic order is transitive.
pub proof fn lemma_lex_lt_trans(a: Seq<u8>, b: Seq<u8>, c: Seq<u8>)
    requires
        lex_lt(a, b),
        lex_lt(b, c),
    ensures
        lex_lt(a, c),
    decreases a.len() + b.len() + c.len(),
{
    if a.len() != 0 && b.len() != 0 && c.len() != 0 {
        if a[0] == b[0] && b[0] == c[0] {
            lemma_lex_lt_trans(a.skip(1), b.skip(1), c.skip(1));
        }
    }
}

/// `a` at or before `b` and `b` strictly before `c` puts `a` strictly
/// before `c`.
pub proof fn lemma_lex_le_lt_trans(a: Seq<u8>, b: Seq<u8>, c: Seq<u8>)
    requires
        ordering_rank(lex_cmp(a, b)) <= 1,
        lex_lt(b, c),
    ensures
        lex_lt(a, c),
{
    if lex_cmp(a, b) == Ordering::Equal {
        lemma_lex_cmp_eq(a, b);
    } else {
        lemma_lex_lt_trans(a, b, c);
    }
}

/// `a` strictly before `b` and `b` at or before `c` puts `a` strictly
/// before `c`.
pub proof fn lemma_lex_lt_le_trans(a: Seq<u8>, b: Seq<u8>, c: Seq<u8>)
    requires
        lex_lt(a, b),
        ordering_rank(lex_cmp(b, c)) <= 1,
    ensures
        lex_lt(a, c),
{
    if lex_cmp(b, c) == Ordering::Equal {
        lemma_lex_cmp_eq(b, c);
    } else {
        lemma_lex_lt_trans(a, b, c);
    }
}

/// Compares two byte slices in byte-lexicographic order.
#[verifier::loop_isolation(false)]
pub fn compare_bytes(a: &[u8], b: &[u8]) -> (r: Ordering)
    ensures
        r == lex_cmp(a@, b@),
{
    let alen = a.len();
    let blen = b.len();
    let mut i: usize = 0;
    proof {
        assert(a@.skip(0) =~= a@);
        assert(b@.skip(0) =~= b@);
    }
    while i < alen && i < blen
        invariant
            i <= alen,
            i <= blen,
            lex_cmp(a@, b@) == lex_cmp(a@.skip(i as int), b@.skip(i as int)),
        decreases alen - i,
    {
        let x = a[i];
        let y = b[i];
        if x < y {
            return Ordering::Less;
        }
        if x > y {
            return Ordering::Greater;
        }
        proof {
            assert(a@.skip(i as int).skip(1) =~= a@.skip(i as int + 1));
            assert(b@.skip(i as int).skip(1) =~= b@.skip(i as int + 1));
        }
        i += 1;
    }
    if alen < blen {
        Ordering::Less
    } else if alen > blen {
        Ordering::Greater
    } else {
        Ordering::Equal
    }
}

/// A decoded key/value record.
pub struct Pair {
    pub key: Vec<u8>,
    pub value: Vec<u8>,
}

/// A slot's bytes form a valid pair: room for the length field, and a key
/// length that fits in the slot.
pub open spec fn pair_bytes_wf(b: Seq<u8>) -> bool {
    &&& b.len() >= 2
    &&& 2 + u16_le_spec(b, 0) <= b.len()
}

/// The key bytes of an encoded pair.
pub open spec fn spec_pair_key(b: Seq<u8>) -> Seq<u8> {
    b.subrange(2, 2 + u16_le_spec(b, 0))
}

/// The value bytes of an encoded pair.
pub open spec fn spec_pair_value(b: Seq<u8>) -> Seq<u8> {
    b.subrange(2 + u16_le_spec(b, 0), b.len() as int)
}

impl Pair {
    /// Decodes a pair from a slot's bytes.
    pub fn from_bytes(bytes: &[u8]) -> (p: Pair)
        requires
            pair_bytes_wf(bytes@),
        ensures
            p.key@ == spec_pair_key(bytes@),
            p.value@ == spec_pair_value(bytes@),
    {
        let klen = (bytes[0] as usize) + 256 * (bytes[1] as usize);
        let key = slice_to_vec(slice_subrange(bytes, 2, 2 + klen));
        let value = slice_to_vec(slice_subrange(bytes, 2 + klen, bytes.len()));
        Pair { key, value }
    }

    /// Encodes this pair for storage in a slot.
    pub fn to_bytes(&self) -> (r: Vec<u8>)
        requires
            self.key@.len() <= 0xffff,
            2 + self.key@.len() + self.value@.len() <= usize::MAX,
        ensures
            pair_bytes_wf(r@),
            spec_pair_key(r@) == self.key@,
            spec_pair_value(r@) == self.value@,
            r@.len() == 2 + self.key@.len() + self.value@.len(),
    {
        encode_pair(self.key.as_slice(), self.value.as_slice())
    }
}

/// Appends all of `src` to `out`.
#[verifier::loop_isolation(false)]
pub(crate) fn push_bytes(out: &mut Vec<u8>, src: &[u8])
    requires
        old(out)@.len() + src@.len() <= usize::MAX,
    ensures
        final(out)@ == old(out)@ + src@,
{
    let mut i: usize = 0;
    while i < src.len()
        invariant
            i <= src@.len(),
            out@ == old(out)@ + src@.subrange(0, i as int),
        decreases src@.len() - i,
    {
        proof {
            assert(old(out)@ + src@.subrange(0, i as int + 1) =~= (old(out)@ + src@.subrange(
                0,
                i as int,
            )).push(src@[i as int]));
        }
        out.push(src[i]);
        i += 1;
    }
    proof {
        assert(src@.subrange(0, src@.len() as int) =~= src@);
    }
}

/// Encodes a key and value as one slot record: 16-bit little-endian key
/// length, key bytes, value bytes.
pub fn encode_pair(key: &[u8], value: &[u8]) -> (r: Vec<u8>)
    requires
        key@.len() <= 0xffff,
        2 + key@.len() + value@.len() <= usize::MAX,
    ensures
        pair_bytes_wf(r@),
        spec_pair_key(r@) == key@,
        spec_pair_value(r@) == value@,
        r@.len() == 2 + key@.len() + value@.len(),
{
    let klen = key.len();
    let mut out: Vec<u8> = Vec::new();
    out.push((klen % 256) as u8);
    out.push((klen / 256) as u8);
    push_bytes(&mut out, key);
    push_bytes(&mut out, value);
    proof {
        assert(u16_le_spec(out@, 0) == klen);
        assert(spec_pair_key(out@) =~= key@);
        assert(spec_pair_value(out@) =~= value@);
    }
    out
}

} // verus!
