//! Slotted page layout: variable-length byte records packed into one
//! fixed-capacity buffer. The buffer starts with an 8-byte header (16-bit
//! slot count, 16-bit free-space offset, 4 bytes of padding); the rest is the
//! body. A pointer array (4 bytes per slot: 16-bit offset, 16-bit length)
//! grows forward from the start of the body while the data region grows
//! backward from its end; the free-space offset marks the boundary. Offsets
//! in pointers are measured from the start of the body.

use crate::codec::{read_u16_le, u16_le_spec, write_u16_le};
use core::ops::Range;
use vstd::prelude::*;
use vstd::slice::slice_subrange;

verus! {

broadcast use vstd::std_specs::vec::axiom_spec_len;

/// Bytes occupied by one pointer-array entry.
pub const POINTER_SIZE: usize = 4;

/// Bytes occupied by the slotted page header.
pub const HEADER_SIZE: usize = 8;

/// The decoded slotted page header: slot count and the byte offset (from the
/// start of the body) where the data region begins.
#[derive(Clone, Copy, Debug, PartialEq, Eq, Structural)]
pub struct Header {
    pub num_slots: u16,
    pub free_space_offset: u16,
}

/// One pointer-array entry: where a slot's bytes live inside the body.
#[derive(Clone, Copy, Debug, PartialEq, Eq, Structural)]
pub struct Pointer {
    pub offset: u16,
    pub len: u16,
}

impl Pointer {
    /// The window `offset..offset + len` that this pointer addresses inside
    /// the page body.
    pub fn range(&self) -> (r: Range<usize>)
        ensures
            r.start == self.offset as int,
            r.end == self.offset as int + self.len as int,
    {
        let start = self.offset as usize;
        let end = start + self.len as usize;
        start..end
    }
}

/// Capacity of the body: everything after the header.
pub open spec fn spec_capacity(s: Seq<u8>) -> int {
    s.len() - 8
}

/// The stored slot count.
pub open spec fn spec_num_slots(s: Seq<u8>) -> int {
    u16_le_spec(s, 0)
}

/// The stored free-space offset: start of the data region within the body.
pub open spec fn spec_free_space_offset(s: Seq<u8>) -> int {
    u16_le_spec(s, 2)
}

/// Body offset of slot `k`'s bytes.
pub open spec fn spec_pointer_offset(s: Seq<u8>, k: int) -> int {
    u16_le_spec(s, 8 + 4 * k)
}

/// Length of slot `k`'s bytes.
pub open spec fn spec_pointer_len(s: Seq<u8>, k: int) -> int {
    u16_le_spec(s, 8 + 4 * k + 2)
}

/// Bytes taken by the pointer array.
pub open spec fn spec_pointers_size(s: Seq<u8>) -> int {
    4 * spec_num_slots(s)
}

/// Free bytes between the pointer array and the data region.
pub open spec fn spec_free_space(s: Seq<u8>) -> int {
    spec_free_space_offset(s) - spec_pointers_size(s)
}

/// The bytes of slot `k`, addressed through its pointer.
pub open spec fn spec_slot_data(s: Seq<u8>, k: int) -> Seq<u8> {
    s.subrange(8 + spec_pointer_offset(s, k), 8 + spec_pointer_offset(s, k) + spec_pointer_len(s, k))
}

/// Slot `k`'s bytes lie inside the data region.
pub open spec fn pointer_in_bounds(s: Seq<u8>, k: int) -> bool {
    &&& spec_free_space_offset(s) <= spec_pointer_offset(s, k)
    &&& spec_pointer_offset(s, k) + spec_pointer_len(s, k) <= spec_capacity(s)
}

/// Slots `j` and `k` address non-overlapping byte ranges.
pub open spec fn pointers_disjoint(s: Seq<u8>, j: int, k: int) -> bool {
    ||| spec_pointer_offset(s, j) + spec_pointer_len(s, j) <= spec_pointer_offset(s, k)
    ||| spec_pointer_offset(s, k) + spec_pointer_len(s, k) <= spec_pointer_offset(s, j)
}

/// Layout invariant of a slotted page: the pointer array and the data region
/// do not collide, every pointer addresses bytes inside the data region, and
/// no two pointers overlap.
pub open spec fn wf(s: Seq<u8>) -> bool {
    &&& 8 <= s.len() <= 8 + 0xffff
    &&& 0 <= spec_pointers_size(s) <= spec_free_space_offset(s) <= spec_capacity(s)
    &&& forall|k: int| 0 <= k < spec_num_slots(s) ==> #[trigger] pointer_in_bounds(s, k)
    &&& forall|j: int, k: int|
        0 <= j < k < spec_num_slots(s) ==> #[trigger] pointers_disjoint(s, j, k)
}

/// A slotted page over one owned byte buffer (header plus body).
pub struct Slotted {
    bytes: Vec<u8>,
}

impl View for Slotted {
    type V = Seq<u8>;

    closed spec fn view(&self) -> Seq<u8> {
        self.bytes@
    }
}

impl Slotted {
    /// Wraps a byte buffer as a slotted page. The buffer must hold the
    /// header and a body short enough for 16-bit offsets.
    pub fn new(bytes: Vec<u8>) -> (s: Self)
        requires
            8 <= bytes.len() <= 8 + 0xffff,
        ensures
            s@ == bytes@,
    {
        Slotted { bytes }
    }

    /// Read access to the whole buffer.
    pub fn as_bytes(&self) -> (r: &Vec<u8>)
        ensures
            r@ == self@,
    {
        &self.bytes
    }

    /// Byte capacity of the body.
    pub fn capacity(&self) -> (r: usize)
        requires
            8 <= self@.len(),
        ensures
            r == spec_capacity(self@),
    {
        self.bytes.len() - HEADER_SIZE
    }

    /// The decoded header.
    pub fn header(&self) -> (h: Header)
        requires
            8 <= self@.len(),
        ensures
            h.num_slots as int == spec_num_slots(self@),
            h.free_space_offset as int == spec_free_space_offset(self@),
    {
        Header {
            num_slots: read_u16_le(&self.bytes, 0),
            free_space_offset: read_u16_le(&self.bytes, 2),
        }
    }

    /// Number of slots currently stored.
    pub fn num_slots(&self) -> (r: usize)
        requires
            8 <= self@.len(),
        ensures
            r == spec_num_slots(self@),
    {
        read_u16_le(&self.bytes, 0) as usize
    }

    /// The stored free-space offset.
    pub fn free_space_offset(&self) -> (r: usize)
        requires
            8 <= self@.len(),
        ensures
            r == spec_free_space_offset(self@),
    {
        read_u16_le(&self.bytes, 2) as usize
    }

    /// Free bytes available between the pointer array and the data region.
    pub fn free_space(&self) -> (r: usize)
        requires
            wf(self@),
        ensures
            r == spec_free_space(self@),
    {
        self.free_space_offset() - POINTER_SIZE * self.num_slots()
    }

    /// The pointer stored for slot `k`.
    pub fn pointer_at(&self, k: usize) -> (p: Pointer)
        requires
            wf(self@),
            k < spec_num_slots(self@),
        ensures
            p.offset as int == spec_pointer_offset(self@, k as int),
            p.len as int == spec_pointer_len(self@, k as int),
    {
        proof {
            assert(pointer_in_bounds(self@, k as int));
        }
        Pointer {
            offset: read_u16_le(&self.bytes, 8 + POINTER_SIZE * k),
            len: read_u16_le(&self.bytes, 8 + POINTER_SIZE * k + 2),
        }
    }

    /// Resets the page to hold no slots, with the whole body free. Destroys
    /// any prior content logically (the body bytes themselves are untouched).
    pub fn initialize(&mut self)
        requires
            8 <= old(self)@.len() <= 8 + 0xffff,
        ensures
            final(self)@.len() == old(self)@.len(),
            wf(final(self)@),
            spec_num_slots(final(self)@) == 0,
            spec_free_space_offset(final(self)@) == spec_capacity(final(self)@),
            spec_free_space(final(self)@) == spec_capacity(final(self)@),
            forall|j: int| 4 <= j < old(self)@.len() ==> final(self)@[j] == old(self)@[j],
    {
        let cap = self.bytes.len() - 8;
        write_u16_le(&mut self.bytes, 0, 0);
        write_u16_le(&mut self.bytes, 2, cap as u16);
    }

    /// The bytes stored for slot `k`.
    pub fn data(&self, k: usize) -> (r: &[u8])
        requires
            wf(self@),
            k < spec_num_slots(self@),
        ensures
            r@ == spec_slot_data(self@, k as int),
    {
        let p = self.pointer_at(k);
        let start = 8 + p.offset as usize;
        let end = start + p.len as usize;
        proof {
            assert(pointer_in_bounds(self@, k as int));
        }
        slice_subrange(self.bytes.as_slice(), start, end)
    }

    /// Reserves `len` bytes from the top of the data region and opens a slot
    /// at `index`, shifting the pointers at `index..num_slots` up by one.
    /// Fails, leaving the page untouched, exactly when the free space cannot
    /// hold one more pointer plus `len` data bytes. The reserved bytes keep
    /// whatever content the region held; `write_data` fills them.
    #[verifier::loop_isolation(false)]
    #[verifier::rlimit(100)]
    pub fn insert(&mut self, index: usize, len: usize) -> (r: Option<()>)
        requires
            wf(old(self)@),
            index <= spec_num_slots(old(self)@),
        ensures
            r is Some <==> spec_free_space(old(self)@) >= 4 + len,
            r is None ==> final(self)@ == old(self)@,
            r is Some ==> ({
                let s0 = old(self)@;
                let s1 = final(self)@;
                &&& s1.len() == s0.len()
                &&& wf(s1)
                &&& spec_num_slots(s1) == spec_num_slots(s0) + 1
                &&& spec_free_space_offset(s1) == spec_free_space_offset(s0) - len
                &&& spec_free_space(s1) == spec_free_space(s0) - (4 + len)
                &&& spec_pointer_offset(s1, index as int) == spec_free_space_offset(s0) - len
                &&& spec_pointer_len(s1, index as int) == len
                &&& (forall|k: int|
                    0 <= k < index ==> spec_pointer_offset(s1, k) == spec_pointer_offset(s0, k)
                        && spec_pointer_len(s1, k) == spec_pointer_len(s0, k))
                &&& (forall|k: int|
                    index < k <= spec_num_slots(s0) ==> spec_pointer_offset(s1, k)
                        == spec_pointer_offset(s0, k - 1) && spec_pointer_len(s1, k)
                        == spec_pointer_len(s0, k - 1))
                &&& (forall|j: int|
                    8 + spec_free_space_offset(s0) <= j < s0.len() ==> s1[j] == s0[j])
                &&& (forall|k: int|
                    0 <= k < index ==> spec_slot_data(s1, k) == spec_slot_data(s0, k))
                &&& (forall|k: int|
                    index < k <= spec_num_slots(s0) ==> spec_slot_data(s1, k) == spec_slot_data(
                        s0,
                        k - 1,
                    ))
            }),
    {
        let fs = self.free_space();
        if fs < POINTER_SIZE || fs - POINTER_SIZE < len {
            return None;
        }
        let ghost s0 = self@;
        let ns = self.num_slots();
        let fso = self.free_space_offset();
        let new_fso = fso - len;

        // Shift the pointer array bytes for slots index..ns up by one entry,
        // walking backward so no byte is read after it was overwritten.
        let mut t = POINTER_SIZE * ns;
        while t > POINTER_SIZE * index
            invariant
                4 * index <= t <= 4 * ns,
                self@.len() == s0.len(),
                forall|j: int| 0 <= j < 8 + t + 4 && j < s0.len() ==> self@[j] == s0[j],
                forall|j: int| 8 + t + 4 <= j < 8 + 4 * ns + 4 ==> self@[j] == s0[j - 4],
                forall|j: int| 8 + 4 * ns + 4 <= j < s0.len() ==> self@[j] == s0[j],
            decreases t,
        {
            let b = self.bytes[8 + t - 1];
            self.bytes.set(8 + t + 3, b);
            t -= 1;
        }

        write_u16_le(&mut self.bytes, 2, new_fso as u16);
        write_u16_le(&mut self.bytes, 0, (ns + 1) as u16);
        write_u16_le(&mut self.bytes, 8 + POINTER_SIZE * index, new_fso as u16);
        write_u16_le(&mut self.bytes, 8 + POINTER_SIZE * index + 2, len as u16);

        proof {
            let s1 = self@;
            // Byte-level picture relative to the original buffer.
            assert(forall|j: int|
                8 <= j < 8 + 4 * (index as int) ==> s1[j] == s0[j]);
            assert(forall|j: int|
                8 + 4 * (index as int) + 4 <= j < 8 + 4 * (ns as int) + 4 ==> s1[j] == s0[j - 4]);
            assert(forall|j: int| 8 + 4 * (ns as int) + 4 <= j < s0.len() ==> s1[j] == s0[j]);
            assert(spec_num_slots(s1) == spec_num_slots(s0) + 1);
            assert(spec_free_space_offset(s1) == spec_free_space_offset(s0) - len);
            assert(spec_pointer_offset(s1, index as int) == spec_free_space_offset(s0) - len);
            assert(spec_pointer_len(s1, index as int) == len);
            assert forall|j: int|
                0 <= j < index implies spec_pointer_offset(s1, j) == spec_pointer_offset(s0, j)
                    && spec_pointer_len(s1, j) == spec_pointer_len(s0, j) by {
                assert(s1[8 + 4 * j] == s0[8 + 4 * j]);
                assert(s1[8 + 4 * j + 1] == s0[8 + 4 * j + 1]);
                assert(s1[8 + 4 * j + 2] == s0[8 + 4 * j + 2]);
                assert(s1[8 + 4 * j + 3] == s0[8 + 4 * j + 3]);
            }
            assert forall|j: int|
                index < j <= ns implies spec_pointer_offset(s1, j) == spec_pointer_offset(
                s0,
                j - 1,
            ) && spec_pointer_len(s1, j) == spec_pointer_len(s0, j - 1) by {
                assert(s1[8 + 4 * j] == s0[8 + 4 * (j - 1)]);
                assert(s1[8 + 4 * j + 1] == s0[8 + 4 * (j - 1) + 1]);
                assert(s1[8 + 4 * j + 2] == s0[8 + 4 * (j - 1) + 2]);
                assert(s1[8 + 4 * j + 3] == s0[8 + 4 * (j - 1) + 3]);
            }
            assert(forall|j: int|
                8 + spec_free_space_offset(s0) <= j < s0.len() ==> s1[j] == s0[j]);
            assert forall|j: int| 0 <= j < spec_num_slots(s1) implies #[trigger] pointer_in_bounds(
                s1,
                j,
            ) by {
                if j < index {
                    assert(pointer_in_bounds(s0, j));
                } else if j > index {
                    assert(pointer_in_bounds(s0, j - 1));
                }
            }
            assert forall|i: int, j: int|
                0 <= i < j < spec_num_slots(s1) implies #[trigger] pointers_disjoint(
                s1,
                i,
                j,
            ) by {
                if i < index && j < index {
                    assert(pointers_disjoint(s0, i, j));
                } else if i < index && j > index {
                    assert(pointers_disjoint(s0, i, j - 1));
                } else if i > index && j > index {
                    assert(pointers_disjoint(s0, i - 1, j - 1));
                } else if i < index && j == index {
                    assert(pointer_in_bounds(s0, i));
                } else if i == index && j > index {
                    assert(pointer_in_bounds(s0, j - 1));
                }
            }
            assert forall|j: int| 0 <= j < index implies spec_slot_data(s1, j) == spec_slot_data(
                s0,
                j,
            ) by {
                assert(pointer_in_bounds(s0, j));
                assert(spec_slot_data(s1, j) =~= spec_slot_data(s0, j));
            }
            assert forall|j: int|
                index < j <= spec_num_slots(s0) implies spec_slot_data(s1, j) == spec_slot_data(
                s0,
                j - 1,
            ) by {
                assert(pointer_in_bounds(s0, j - 1));
                assert(spec_slot_data(s1, j) =~= spec_slot_data(s0, j - 1));
            }
        }
        Some(())
    }

    /// Fills slot `k`'s reserved bytes with `buf`, which must match the
    /// slot's length exactly. No byte outside the slot's window changes.
    #[verifier::loop_isolation(false)]
    pub fn write_data(&mut self, k: usize, buf: &[u8])
        requires
            wf(old(self)@),
            k < spec_num_slots(old(self)@),
            buf@.len() == spec_pointer_len(old(self)@, k as int),
        ensures
            final(self)@.len() == old(self)@.len(),
            wf(final(self)@),
            spec_num_slots(final(self)@) == spec_num_slots(old(self)@),
            spec_free_space_offset(final(self)@) == spec_free_space_offset(old(self)@),
            spec_free_space(final(self)@) == spec_free_space(old(self)@),
            forall|j: int|
                0 <= j < spec_num_slots(old(self)@) ==> spec_pointer_offset(final(self)@, j)
                    == spec_pointer_offset(old(self)@, j) && spec_pointer_len(final(self)@, j)
                    == spec_pointer_len(old(self)@, j),
            spec_slot_data(final(self)@, k as int) == buf@,
            forall|j: int|
                0 <= j < spec_num_slots(old(self)@) && j != k ==> spec_slot_data(final(self)@, j)
                    == spec_slot_data(old(self)@, j),
    {
        let ghost s0 = self@;
        let p = self.pointer_at(k);
        let start = 8 + p.offset as usize;
        proof {
            assert(pointer_in_bounds(s0, k as int));
        }
        let mut t: usize = 0;
        while t < buf.len()
            invariant
                t <= buf@.len(),
                self@.len() == s0.len(),
                forall|j: int|
                    0 <= j < s0.len() && !(start <= j < start + buf@.len()) ==> self@[j] == s0[j],
                forall|j: int| start <= j < start + t ==> self@[j] == buf@[j - start],
            decreases buf@.len() - t,
        {
            self.bytes.set(start + t, buf[t]);
            t += 1;
        }
        proof {
            let s1 = self@;
            assert forall|j: int| 0 <= j < spec_num_slots(s1) implies #[trigger] pointer_in_bounds(
                s1,
                j,
            ) by {
                assert(pointer_in_bounds(s0, j));
            }
            assert forall|i: int, j: int|
                0 <= i < j < spec_num_slots(s1) implies #[trigger] pointers_disjoint(
                s1,
                i,
                j,
            ) by {
                assert(pointers_disjoint(s0, i, j));
            }
            assert(spec_slot_data(s1, k as int) =~= buf@);
            assert forall|j: int|
                0 <= j < spec_num_slots(s0) && j != k implies spec_slot_data(s1, j)
                    == spec_slot_data(s0, j) by {
                assert(pointer_in_bounds(s0, j));
                if j < k {
                    assert(pointers_disjoint(s0, j, k as int));
                } else {
                    assert(pointers_disjoint(s0, k as int, j));
                }
                assert(spec_slot_data(s1, j) =~= spec_slot_data(s0, j));
            }
        }
    }
}

} // verus!
