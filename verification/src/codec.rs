//! Little-endian integer fields inside page byte buffers. The on-page headers
//! store 16-bit counts and offsets and 64-bit page identifiers; these helpers
//! read and write them and are specified against the byte-level encoding.

use vstd::pervasive::VecAdditionalExecFns;
use vstd::prelude::*;

verus! {

broadcast use vstd::std_specs::vec::axiom_spec_len;

/// The 16-bit value stored little-endian at byte offset `i` of `s`.
pub open spec fn u16_le_spec(s: Seq<u8>, i: int) -> int {
    s[i] + 256 * s[i + 1]
}

/// The 64-bit value stored little-endian at byte offset `i` of `s`.
pub open spec fn u64_le_spec(s: Seq<u8>, i: int) -> int {
    s[i] + 256 * (s[i + 1] + 256 * (s[i + 2] + 256 * (s[i + 3] + 256 * (s[i + 4] + 256 * (s[i + 5]
        + 256 * (s[i + 6] + 256 * s[i + 7]))))))
}

/// Reads the 16-bit little-endian field at byte offset `i`.
pub fn read_u16_le(bytes: &Vec<u8>, i: usize) -> (r: u16)
    requires
        i + 2 <= bytes.len(),
    ensures
        r as int == u16_le_spec(bytes@, i as int),
{
    let lo = bytes[i];
    let hi = bytes[i + 1];
    (lo as u16) + 256 * (hi as u16)
}

/// Writes `v` as a 16-bit little-endian field at byte offset `i`, leaving
/// every other byte unchanged.
pub fn write_u16_le(bytes: &mut Vec<u8>, i: usize, v: u16)
    requires
        i + 2 <= old(bytes).len(),
    ensures
        final(bytes)@.len() == old(bytes)@.len(),
        u16_le_spec(final(bytes)@, i as int) == v as int,
        forall|j: int|
            0 <= j < old(bytes)@.len() && j != i && j != i + 1 ==> final(bytes)@[j] == old(
                bytes,
            )@[j],
{
    let lo: u8 = (v % 256) as u8;
    let hi: u8 = (v / 256) as u8;
    bytes.set(i, lo);
    bytes.set(i + 1, hi);
}

/// Reads the 64-bit little-endian field at byte offset `i`.
pub fn read_u64_le(bytes: &Vec<u8>, i: usize) -> (r: u64)
    requires
        i + 8 <= bytes.len(),
    ensures
        r as int == u64_le_spec(bytes@, i as int),
{
    let b0 = bytes[i] as u64;
    let b1 = bytes[i + 1] as u64;
    let b2 = bytes[i + 2] as u64;
    let b3 = bytes[i + 3] as u64;
    let b4 = bytes[i + 4] as u64;
    let b5 = bytes[i + 5] as u64;
    let b6 = bytes[i + 6] as u64;
    let b7 = bytes[i + 7] as u64;
    b0 + 256 * (b1 + 256 * (b2 + 256 * (b3 + 256 * (b4 + 256 * (b5 + 256 * (b6 + 256 * b7))))))
}

/// Appends `v` to `bytes` as eight little-endian bytes.
#[verifier::rlimit(60)]
pub fn push_u64_le(bytes: &mut Vec<u8>, v: u64)
    ensures
        final(bytes)@.len() == old(bytes)@.len() + 8,
        forall|j: int| 0 <= j < old(bytes)@.len() ==> final(bytes)@[j] == old(bytes)@[j],
        u64_le_spec(final(bytes)@, old(bytes)@.len() as int) == v as int,
{
    bytes.push((v % 256) as u8);
    bytes.push(((v / 256) % 256) as u8);
    bytes.push(((v / 0x1_0000) % 256) as u8);
    bytes.push(((v / 0x100_0000) % 256) as u8);
    bytes.push(((v / 0x1_0000_0000) % 256) as u8);
    bytes.push(((v / 0x100_0000_0000) % 256) as u8);
    bytes.push(((v / 0x1_0000_0000_0000) % 256) as u8);
    bytes.push((v / 0x100_0000_0000_0000) as u8);
}

} // verus!
