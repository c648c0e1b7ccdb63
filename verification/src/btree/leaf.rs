//! B-tree leaf node: a page interpreted as a 16-byte header holding the
//! sibling links (previous and next page id, 8 bytes each, little-endian)
//! followed by a slotted page whose slots are key/value pairs kept in
//! byte-lexicographic key order. Lookup is a binary search over the pairs.

use crate::bsearch::ordering_rank;
use crate::btree::{
    compare_bytes, lemma_lex_cmp_eq, lemma_lex_cmp_flip, lemma_lex_le_lt_trans,
    lemma_lex_lt_le_trans, lex_cmp, lex_lt, pair_bytes_wf, spec_pair_key, spec_pair_value,
    encode_pair, Pair,
};
use crate::codec::{push_u64_le, read_u64_le, u64_le_spec};
use crate::disk::{PageId, INVALID_PAGE_ID};
use crate::slotted::{
    spec_capacity, spec_free_space, spec_num_slots, spec_slot_data, wf, Slotted,
};
use core::cmp::Ordering;
use vstd::prelude::*;
use vstd::slice::{slice_subrange, slice_to_vec};

verus! {

broadcast use vstd::std_specs::vec::axiom_spec_len;

/// The decoded leaf header: the sibling links, stored raw (the sentinel
/// means "no sibling").
pub struct Header {
    pub prev_page_id: PageId,
    pub next_page_id: PageId,
}

/// A leaf node over one owned page.
pub struct Leaf {
    header: Header,
    body: Slotted,
}

/// Abstract state of a leaf: the raw sibling links and the slotted body
/// bytes.
pub struct LeafView {
    pub prev: u64,
    pub next: u64,
    pub body: Seq<u8>,
}

impl View for Leaf {
    type V = LeafView;

    closed spec fn view(&self) -> LeafView {
        LeafView {
            prev: self.header.prev_page_id.0,
            next: self.header.next_page_id.0,
            body: self.body@,
        }
    }
}

/// Number of key/value pairs stored.
pub open spec fn leaf_num_pairs(v: LeafView) -> int {
    spec_num_slots(v.body)
}

/// The key stored at slot `k`.
pub open spec fn key_at(v: LeafView, k: int) -> Seq<u8> {
    spec_pair_key(spec_slot_data(v.body, k))
}

/// The value stored at slot `k`.
pub open spec fn value_at(v: LeafView, k: int) -> Seq<u8> {
    spec_pair_value(spec_slot_data(v.body, k))
}

/// Leaf invariant: the slotted body is well formed and every slot decodes
/// as a pair.
pub open spec fn leaf_wf(v: LeafView) -> bool {
    &&& wf(v.body)
    &&& forall|k: int|
        0 <= k < spec_num_slots(v.body) ==> pair_bytes_wf(#[trigger] spec_slot_data(v.body, k))
}

/// The stored keys are in byte-lexicographic order (duplicates allowed).
pub open spec fn keys_sorted(v: LeafView) -> bool {
    forall|i: int, j: int|
        0 <= i <= j < leaf_num_pairs(v) ==> ordering_rank(lex_cmp(key_at(v, i), key_at(v, j)))
            <= 1
}

impl Leaf {
    /// Interprets a page as a leaf: sibling links from the first 16 bytes,
    /// the slotted body from the rest. Nothing is validated; format a fresh
    /// page with `initialize` first.
    pub fn new(page: Vec<u8>) -> (leaf: Self)
        requires
            24 <= page.len() <= 16 + 8 + 0xffff,
        ensures
            leaf@.prev == u64_le_spec(page@, 0),
            leaf@.next == u64_le_spec(page@, 8),
            leaf@.body == page@.skip(16),
    {
        let prev = read_u64_le(&page, 0);
        let next = read_u64_le(&page, 8);
        let body_bytes = slice_to_vec(slice_subrange(page.as_slice(), 16, page.len()));
        proof {
            assert(page@.subrange(16, page@.len() as int) =~= page@.skip(16));
        }
        Leaf {
            header: Header { prev_page_id: PageId(prev), next_page_id: PageId(next) },
            body: Slotted::new(body_bytes),
        }
    }

    /// Serializes the leaf back to page bytes, sibling links first.
    pub fn to_page(&self) -> (r: Vec<u8>)
        requires
            self@.body.len() <= 8 + 0xffff,
        ensures
            r@.len() == 16 + self@.body.len(),
            u64_le_spec(r@, 0) == self@.prev,
            u64_le_spec(r@, 8) == self@.next,
            r@.skip(16) == self@.body,
    {
        let mut out: Vec<u8> = Vec::new();
        push_u64_le(&mut out, self.header.prev_page_id.0);
        push_u64_le(&mut out, self.header.next_page_id.0);
        crate::btree::push_bytes(&mut out, self.body.as_bytes().as_slice());
        proof {
            assert(out@.skip(16) =~= self@.body);
        }
        out
    }

    /// Formats the leaf as empty: no siblings, no pairs.
    pub fn initialize(&mut self)
        requires
            8 <= old(self)@.body.len() <= 8 + 0xffff,
        ensures
            final(self)@.body.len() == old(self)@.body.len(),
            final(self)@.prev == INVALID_PAGE_ID,
            final(self)@.next == INVALID_PAGE_ID,
            leaf_wf(final(self)@),
            keys_sorted(final(self)@),
            leaf_num_pairs(final(self)@) == 0,
            spec_free_space(final(self)@.body) == spec_capacity(final(self)@.body),
    {
        self.header.prev_page_id = PageId(INVALID_PAGE_ID);
        self.header.next_page_id = PageId(INVALID_PAGE_ID);
        self.body.initialize();
    }

    /// The previous sibling, absent exactly when the stored value is the
    /// sentinel.
    pub fn prev_page_id(&self) -> (r: Option<PageId>)
        ensures
            r == if self@.prev != INVALID_PAGE_ID {
                Some(PageId(self@.prev))
            } else {
                Option::<PageId>::None
            },
    {
        self.header.prev_page_id.valid()
    }

    /// The next sibling, absent exactly when the stored value is the
    /// sentinel.
    pub fn next_page_id(&self) -> (r: Option<PageId>)
        ensures
            r == if self@.next != INVALID_PAGE_ID {
                Some(PageId(self@.next))
            } else {
                Option::<PageId>::None
            },
    {
        self.header.next_page_id.valid()
    }

    /// Sets the previous sibling link; `None` stores the sentinel.
    pub fn set_prev_page_id(&mut self, page_id: Option<PageId>)
        ensures
            final(self)@.prev == (match page_id {
                Some(p) => p.0,
                None => INVALID_PAGE_ID,
            }),
            final(self)@.next == old(self)@.next,
            final(self)@.body == old(self)@.body,
    {
        self.header.prev_page_id = match page_id {
            Some(p) => p,
            None => PageId(INVALID_PAGE_ID),
        };
    }

    /// Sets the next sibling link; `None` stores the sentinel.
    pub fn set_next_page_id(&mut self, page_id: Option<PageId>)
        ensures
            final(self)@.next == (match page_id {
                Some(p) => p.0,
                None => INVALID_PAGE_ID,
            }),
            final(self)@.prev == old(self)@.prev,
            final(self)@.body == old(self)@.body,
    {
        self.header.next_page_id = match page_id {
            Some(p) => p,
            None => PageId(INVALID_PAGE_ID),
        };
    }

    /// Number of stored pairs.
    pub fn num_pairs(&self) -> (r: usize)
        requires
            8 <= self@.body.len(),
        ensures
            r == leaf_num_pairs(self@),
    {
        self.body.num_slots()
    }

    /// Free bytes left in the body for further pairs and pointers.
    pub fn free_space(&self) -> (r: usize)
        requires
            leaf_wf(self@),
        ensures
            r == spec_free_space(self@.body),
    {
        self.body.free_space()
    }

    /// Decodes the pair stored at `slot_id`.
    pub fn pair_at(&self, slot_id: usize) -> (p: Pair)
        requires
            leaf_wf(self@),
            slot_id < leaf_num_pairs(self@),
        ensures
            p.key@ == key_at(self@, slot_id as int),
            p.value@ == value_at(self@, slot_id as int),
    {
        Pair::from_bytes(self.body.data(slot_id))
    }

    /// Binary search for `key` over the sorted pairs: `Ok(i)` names a slot
    /// whose key equals `key`; `Err(p)` is the unique insertion point, with
    /// every key before it strictly smaller and every key at or after it
    /// strictly greater.
    #[verifier::loop_isolation(false)]
    pub fn search_slot_id(&self, key: &[u8]) -> (r: Result<usize, usize>)
        requires
            leaf_wf(self@),
            keys_sorted(self@),
        ensures
            match r {
                Ok(i) => i < leaf_num_pairs(self@) && key_at(self@, i as int) == key@,
                Err(p) => p <= leaf_num_pairs(self@) && (forall|j: int|
                    0 <= j < p ==> lex_lt(#[trigger] key_at(self@, j), key@)) && (forall|j: int|
                    p <= j < leaf_num_pairs(self@) ==> lex_lt(key@, #[trigger] key_at(self@, j))),
            },
    {
        let n = self.num_pairs();
        let mut left: usize = 0;
        let mut right: usize = n;
        while left < right
            invariant
                left <= right <= n,
                forall|j: int| 0 <= j < left ==> lex_lt(#[trigger] key_at(self@, j), key@),
                forall|j: int| right <= j < n ==> lex_lt(key@, #[trigger] key_at(self@, j)),
            decreases right - left,
        {
            let mid = left + (right - left) / 2;
            let p = self.pair_at(mid);
            let cmp = compare_bytes(p.key.as_slice(), key);
            match cmp {
                Ordering::Less => {
                    proof {
                        assert forall|j: int| 0 <= j < mid + 1 implies lex_lt(
                            #[trigger] key_at(self@, j),
                            key@,
                        ) by {
                            lemma_lex_le_lt_trans(key_at(self@, j), key_at(self@, mid as int), key@);
                        }
                    }
                    left = mid + 1;
                },
                Ordering::Greater => {
                    proof {
                        lemma_lex_cmp_flip(key_at(self@, mid as int), key@);
                        assert forall|j: int| mid <= j < n implies lex_lt(
                            key@,
                            #[trigger] key_at(self@, j),
                        ) by {
                            lemma_lex_lt_le_trans(key@, key_at(self@, mid as int), key_at(self@, j));
                        }
                    }
                    right = mid;
                },
                Ordering::Equal => {
                    proof {
                        lemma_lex_cmp_eq(key_at(self@, mid as int), key@);
                    }
                    return Ok(mid);
                },
            }
        }
        Err(left)
    }

    /// Stores the pair `(key, value)` at `slot_id`, shifting later slots
    /// up, as one slotted-page insert plus the data write. Fails, changing
    /// nothing, exactly when the body lacks room for the encoded pair and
    /// its pointer. Keeping the keys sorted is the caller's charge: use the
    /// insertion point that `search_slot_id` returns.
    pub fn insert(&mut self, slot_id: usize, key: &[u8], value: &[u8]) -> (r: Option<()>)
        requires
            leaf_wf(old(self)@),
            slot_id <= leaf_num_pairs(old(self)@),
            key@.len() <= 0xffff,
            2 + key@.len() + value@.len() <= usize::MAX,
        ensures
            r is Some <==> spec_free_space(old(self)@.body) >= 4 + 2 + key@.len() + value@.len(),
            r is None ==> final(self)@ == old(self)@,
            r is Some ==> ({
                let v0 = old(self)@;
                let v1 = final(self)@;
                &&& leaf_wf(v1)
                &&& v1.prev == v0.prev && v1.next == v0.next
                &&& v1.body.len() == v0.body.len()
                &&& leaf_num_pairs(v1) == leaf_num_pairs(v0) + 1
                &&& key_at(v1, slot_id as int) == key@
                &&& value_at(v1, slot_id as int) == value@
                &&& (forall|k: int|
                    0 <= k < slot_id ==> #[trigger] key_at(v1, k) == key_at(v0, k) && value_at(
                        v1,
                        k,
                    ) == value_at(v0, k))
                &&& (forall|k: int|
                    slot_id < k <= leaf_num_pairs(v0) ==> #[trigger] key_at(v1, k) == key_at(
                        v0,
                        k - 1,
                    ) && value_at(v1, k) == value_at(v0, k - 1))
                &&& spec_free_space(v1.body) == spec_free_space(v0.body) - (4 + 2 + key@.len()
                    + value@.len())
            }),
    {
        let record = encode_pair(key, value);
        let ghost v0 = self@;
        match self.body.insert(slot_id, record.len()) {
            None => None,
            Some(()) => {
                self.body.write_data(slot_id, record.as_slice());
                proof {
                    let v1 = self@;
                    assert forall|k: int|
                        0 <= k < leaf_num_pairs(v1) implies pair_bytes_wf(
                        #[trigger] spec_slot_data(v1.body, k),
                    ) by {
                        if k < slot_id {
                            assert(pair_bytes_wf(spec_slot_data(v0.body, k)));
                        } else if k > slot_id {
                            assert(pair_bytes_wf(spec_slot_data(v0.body, k - 1)));
                        }
                    }
                }
                Some(())
            },
        }
    }
}

/// A sorted leaf stays sorted when a pair is inserted at the insertion
/// point that `search_slot_id` reported for its key: every key before the
/// point is strictly smaller, every key at or after it strictly greater.
pub proof fn lemma_sorted_after_insert(v0: LeafView, v1: LeafView, p: int, key: Seq<u8>)
    requires
        keys_sorted(v0),
        0 <= p <= leaf_num_pairs(v0),
        leaf_num_pairs(v1) == leaf_num_pairs(v0) + 1,
        key_at(v1, p) == key,
        forall|k: int| 0 <= k < p ==> #[trigger] key_at(v1, k) == key_at(v0, k),
        forall|k: int| p < k <= leaf_num_pairs(v0) ==> #[trigger] key_at(v1, k) == key_at(v0, k - 1),
        forall|j: int| 0 <= j < p ==> lex_lt(#[trigger] key_at(v0, j), key),
        forall|j: int| p <= j < leaf_num_pairs(v0) ==> lex_lt(key, #[trigger] key_at(v0, j)),
    ensures
        keys_sorted(v1),
{
    assert forall|i: int, j: int| 0 <= i <= j < leaf_num_pairs(v1) implies ordering_rank(
        lex_cmp(key_at(v1, i), key_at(v1, j)),
    ) <= 1 by {
        if i == j {
            lemma_lex_cmp_eq(key_at(v1, i), key_at(v1, j));
        } else if i < p && j < p {
            assert(key_at(v1, i) == key_at(v0, i) && key_at(v1, j) == key_at(v0, j));
        } else if i < p && j == p {
            assert(lex_lt(key_at(v0, i), key));
        } else if i < p && j > p {
            assert(key_at(v1, i) == key_at(v0, i) && key_at(v1, j) == key_at(v0, j - 1));
        } else if i == p && j > p {
            assert(lex_lt(key, key_at(v0, j - 1)));
        } else {
            assert(key_at(v1, i) == key_at(v0, i - 1) && key_at(v1, j) == key_at(v0, j - 1));
        }
    }
}

} // verus!
