//! Buffer pool: a fixed-size cache of pages with pinning and clock-sweep
//! (second-chance) eviction. Frames hold one buffer each, together with a
//! usage counter (eviction chances) and a pin counter (outstanding handles).
//! The manager adds a page table from page id to frame and splits a cache
//! miss at the disk boundary: it picks and prepares the victim frame and
//! reports what must be written back and read; the surrounding program
//! performs the I/O and hands the page bytes back through `finish_load`.

use crate::disk::{PageId, INVALID_PAGE_ID, PAGE_SIZE};
use std::collections::HashMap;
use vstd::prelude::*;

verus! {

broadcast use vstd::std_specs::vec::axiom_spec_len, vstd::std_specs::hash::group_hash_axioms;

/// Dense index of a frame inside the pool: `0..pool_size`.
#[derive(Clone, Copy, Debug, PartialEq, Eq, Hash, Structural)]
pub struct BufferId(pub usize);

/// One cached page: its identifier, its bytes, and whether the in-memory
/// copy differs from what disk holds.
pub struct Buffer {
    pub page_id: PageId,
    pub page: Vec<u8>,
    pub is_dirty: bool,
}

/// A pool slot: one buffer plus its clock-sweep chance counter and the
/// number of outstanding handles that pin it.
pub struct Frame {
    pub usage_count: u64,
    pub pin_count: u64,
    pub buffer: Buffer,
}

/// Fixed-size array of frames plus the rotating clock hand.
pub struct BufferPool {
    pub buffers: Vec<Frame>,
    pub next_victim_id: BufferId,
}

/// A frame's local invariant: a full page of bytes, a dirty buffer always
/// names a real page, and a pinned buffer always has at least one eviction
/// chance left (so the clock sweep can never pick a pinned frame).
pub open spec fn frame_wf(fr: Frame) -> bool {
    &&& fr.buffer.page@.len() == PAGE_SIZE
    &&& (fr.pin_count > 0 ==> fr.usage_count > 0)
    &&& (fr.buffer.is_dirty ==> fr.buffer.page_id.0 != INVALID_PAGE_ID)
}

/// Pool invariant: at least one frame, a clock hand inside the pool, and
/// every frame well formed.
pub open spec fn pool_wf(p: BufferPool) -> bool {
    &&& 1 <= p.buffers@.len()
    &&& p.next_victim_id.0 < p.buffers@.len()
    &&& forall|i: int| 0 <= i < p.buffers@.len() ==> frame_wf(#[trigger] p.buffers@[i])
}

/// The buffers of `a` and `b` hold the same page, bytes and dirty flag.
pub open spec fn same_buffer(a: Frame, b: Frame) -> bool {
    &&& a.buffer.page_id == b.buffer.page_id
    &&& a.buffer.is_dirty == b.buffer.is_dirty
    &&& a.buffer.page@ == b.buffer.page@
}

/// Total of all chance counters; the clock sweep's termination measure.
spec fn usage_sum(frames: Seq<Frame>) -> int
    decreases frames.len(),
{
    if frames.len() == 0 {
        0
    } else {
        usage_sum(frames.drop_last()) + frames.last().usage_count
    }
}

proof fn lemma_usage_sum_nonneg(frames: Seq<Frame>)
    ensures
        usage_sum(frames) >= 0,
    decreases frames.len(),
{
    if frames.len() > 0 {
        lemma_usage_sum_nonneg(frames.drop_last());
    }
}

proof fn lemma_usage_sum_update(frames: Seq<Frame>, i: int, fr: Frame)
    requires
        0 <= i < frames.len(),
    ensures
        usage_sum(frames.update(i, fr)) == usage_sum(frames) - frames[i].usage_count
            + fr.usage_count,
    decreases frames.len(),
{
    if i == frames.len() - 1 {
        assert(frames.update(i, fr).drop_last() =~= frames.drop_last());
    } else {
        lemma_usage_sum_update(frames.drop_last(), i, fr);
        assert(frames.update(i, fr).drop_last() =~= frames.drop_last().update(i, fr));
    }
}

/// The frame index examined `k + 1` steps before the hand position `nv`
/// reaches its current place, in a pool of `n` frames (walking backward,
/// wrapping at zero).
spec fn back_idx(nv: int, n: int, k: int) -> int {
    if nv - 1 - k >= 0 {
        nv - 1 - k
    } else {
        nv - 1 - k + n
    }
}

/// A page of zeroed bytes.
fn zero_page() -> (r: Vec<u8>)
    ensures
        r@.len() == PAGE_SIZE,
        forall|i: int| 0 <= i < r@.len() ==> r@[i] == 0u8,
{
    let mut v: Vec<u8> = Vec::new();
    let mut i: usize = 0;
    while i < PAGE_SIZE
        invariant
            i <= PAGE_SIZE,
            v@.len() == i,
            forall|j: int| 0 <= j < v@.len() ==> v@[j] == 0u8,
        decreases PAGE_SIZE - i,
    {
        v.push(0u8);
        i += 1;
    }
    v
}

/// A byte-for-byte copy of `src`.
fn copy_bytes(src: &Vec<u8>) -> (r: Vec<u8>)
    ensures
        r@ == src@,
{
    let mut v: Vec<u8> = Vec::new();
    let mut i: usize = 0;
    while i < src.len()
        invariant
            i <= src@.len(),
            v@ == src@.subrange(0, i as int),
        decreases src@.len() - i,
    {
        v.push(src[i]);
        i += 1;
    }
    proof {
        assert(v@ =~= src@);
    }
    v
}

/// An unused frame: no chances, no pins, the sentinel page id, zeroed bytes.
fn empty_frame() -> (fr: Frame)
    ensures
        frame_wf(fr),
        fr.usage_count == 0,
        fr.pin_count == 0,
        fr.buffer.page_id.0 == INVALID_PAGE_ID,
        !fr.buffer.is_dirty,
        fr.buffer.page@.len() == PAGE_SIZE,
{
    Frame {
        usage_count: 0,
        pin_count: 0,
        buffer: Buffer { page_id: PageId::invalid(), page: zero_page(), is_dirty: false },
    }
}

impl BufferPool {
    /// A pool of `pool_size` unused frames with the hand at frame 0.
    pub fn new(pool_size: usize) -> (p: Self)
        requires
            1 <= pool_size,
        ensures
            pool_wf(p),
            p.buffers@.len() == pool_size,
            p.next_victim_id.0 == 0,
            forall|i: int|
                0 <= i < pool_size ==> (#[trigger] p.buffers@[i]).usage_count == 0
                    && p.buffers@[i].pin_count == 0 && p.buffers@[i].buffer.page_id.0
                    == INVALID_PAGE_ID && !p.buffers@[i].buffer.is_dirty,
    {
        let mut buffers: Vec<Frame> = Vec::new();
        let mut i: usize = 0;
        while i < pool_size
            invariant
                i <= pool_size,
                buffers@.len() == i,
                forall|j: int|
                    0 <= j < i ==> frame_wf(#[trigger] buffers@[j]) && buffers@[j].usage_count == 0
                        && buffers@[j].pin_count == 0 && buffers@[j].buffer.page_id.0
                        == INVALID_PAGE_ID && !buffers@[j].buffer.is_dirty,
            decreases pool_size - i,
        {
            buffers.push(empty_frame());
            i += 1;
        }
        BufferPool { buffers, next_victim_id: BufferId(0) }
    }

    /// Number of frames; fixed at construction.
    pub fn size(&self) -> (r: usize)
        ensures
            r == self.buffers@.len(),
    {
        self.buffers.len()
    }

    /// The hand position advanced by one frame, wrapping.
    pub fn increment_id(&self, buffer_id: BufferId) -> (r: BufferId)
        requires
            1 <= self.buffers@.len(),
            buffer_id.0 < self.buffers@.len(),
        ensures
            r.0 == (buffer_id.0 + 1) % (self.buffers@.len() as int),
            r.0 < self.buffers@.len(),
    {
        let n = self.size();
        BufferId((buffer_id.0 + 1) % n)
    }

    /// Clock-sweep victim selection. Walks frames from the hand, wrapping:
    /// a frame with no chances left is the victim; an unpinned frame loses
    /// one chance; after a full circle of nothing but pinned frames the
    /// sweep reports exhaustion. Pins, buffers and the page bytes are never
    /// touched; only chance counters decrease and the hand moves.
    #[verifier::loop_isolation(false)]
    pub fn evict(&mut self) -> (r: Option<BufferId>)
        requires
            pool_wf(*old(self)),
        ensures
            pool_wf(*final(self)),
            final(self).buffers@.len() == old(self).buffers@.len(),
            forall|i: int|
                0 <= i < old(self).buffers@.len() ==> same_buffer(
                    old(self).buffers@[i],
                    #[trigger] final(self).buffers@[i],
                ) && final(self).buffers@[i].pin_count == old(self).buffers@[i].pin_count
                    && final(self).buffers@[i].usage_count <= old(self).buffers@[i].usage_count,
            match r {
                Some(b) => b.0 < final(self).buffers@.len() && final(self).buffers@[b.0
                    as int].usage_count == 0 && final(self).buffers@[b.0 as int].pin_count == 0,
                None => forall|i: int|
                    0 <= i < final(self).buffers@.len()
                        ==> (#[trigger] final(self).buffers@[i]).pin_count > 0,
            },
    {
        let pool_size = self.size();
        let mut consecutive_pinned: usize = 0;
        loop
            invariant
                pool_wf(*self),
                self.buffers@.len() == pool_size,
                consecutive_pinned < pool_size,
                forall|i: int|
                    0 <= i < pool_size ==> same_buffer(
                        old(self).buffers@[i],
                        #[trigger] self.buffers@[i],
                    ) && self.buffers@[i].pin_count == old(self).buffers@[i].pin_count
                        && self.buffers@[i].usage_count <= old(self).buffers@[i].usage_count,
                forall|k: int|
                    0 <= k < consecutive_pinned ==> self.buffers@[back_idx(
                        self.next_victim_id.0 as int,
                        pool_size as int,
                        k,
                    )].pin_count > 0,
            decreases usage_sum(self.buffers@), pool_size - consecutive_pinned,
        {
            proof {
                lemma_usage_sum_nonneg(self.buffers@);
            }
            let v = self.next_victim_id.0;
            let uc = self.buffers[v].usage_count;
            if uc == 0 {
                return Some(BufferId(v));
            }
            let pinned = self.buffers[v].pin_count > 0;
            if !pinned {
                let ghost frames0 = self.buffers@;
                let fr = &mut self.buffers[v];
                fr.usage_count = uc - 1;
                proof {
                    lemma_usage_sum_update(frames0, v as int, self.buffers@[v as int]);
                    lemma_usage_sum_nonneg(self.buffers@);
                    assert(usage_sum(self.buffers@) == usage_sum(frames0) - 1);
                }
                consecutive_pinned = 0;
            } else {
                let ghost nv0 = v as int;
                let ghost n = pool_size as int;
                let ghost m = nv0 + 1;
                let ghost mw = (nv0 + 1) % n;
                consecutive_pinned += 1;
                proof {
                    assert forall|k: int|
                        0 <= k < consecutive_pinned implies #[trigger] self.buffers@[back_idx(
                        m,
                        n,
                        k,
                    )].pin_count > 0 by {
                        if k == 0 {
                            assert(back_idx(m, n, 0) == nv0);
                        } else {
                            assert(back_idx(m, n, k) == back_idx(nv0, n, k - 1));
                            assert(self.buffers@[back_idx(nv0, n, k - 1)].pin_count > 0);
                        }
                    }
                }
                if consecutive_pinned >= pool_size {
                    proof {
                        assert forall|i: int| 0 <= i < pool_size implies (#[trigger] self.buffers@[i]).pin_count
                            > 0 by {
                            let k = if i <= nv0 {
                                nv0 - i
                            } else {
                                nv0 - i + n
                            };
                            assert(0 <= k < pool_size);
                            assert(back_idx(m, n, k) == i);
                            assert(self.buffers@[back_idx(m, n, k)].pin_count > 0);
                        }
                    }
                    return None;
                }
                proof {
                    assert forall|k: int|
                        0 <= k < consecutive_pinned implies #[trigger] self.buffers@[back_idx(
                        mw,
                        n,
                        k,
                    )].pin_count > 0 by {
                        if m < n {
                            vstd::arithmetic::div_mod::lemma_small_mod(m as nat, n as nat);
                        } else {
                            vstd::arithmetic::div_mod::lemma_mod_self_0(n);
                        }
                        assert(back_idx(mw, n, k) == back_idx(m, n, k));
                        assert(self.buffers@[back_idx(m, n, k)].pin_count > 0);
                    }
                }
            }
            self.next_victim_id = self.increment_id(self.next_victim_id);
        }
    }
}

/// Failure of the pool itself: no evictable frame exists. Recoverable; the
/// caller must release pins and retry.
#[derive(Clone, Copy, Debug, PartialEq, Eq, Structural)]
pub enum PoolError {
    NoFreeBuffer,
}

/// A victim's dirty page that must reach disk before its frame is reused.
pub struct WriteBack {
    pub page_id: PageId,
    pub data: Vec<u8>,
}

/// Outcome of `fetch_page`. On a hit the handle is ready. On a miss the
/// victim frame has been prepared and claimed for the requested page: the
/// caller must first perform `write_back` if present, then read the page
/// from disk and install its bytes with `finish_load`.
pub enum FetchOutcome {
    Hit(BufferId),
    Load { buffer_id: BufferId, write_back: Option<WriteBack> },
}

/// The buffer pool manager: the pool, plus a page table mapping each cached
/// page id to the frame that holds it.
pub struct BufferPoolManager {
    pub pool: BufferPool,
    pub page_table: HashMap<u64, usize>,
}

/// Manager invariant: the pool is well formed, every page-table entry names
/// a frame holding exactly that page, and every frame holding a real page is
/// indexed by the table (so a page is cached in at most one frame).
pub open spec fn manager_wf(m: BufferPoolManager) -> bool {
    &&& pool_wf(m.pool)
    &&& forall|k: u64|
        #[trigger] m.page_table@.contains_key(k) ==> k != INVALID_PAGE_ID && m.page_table@[k]
            < m.pool.buffers@.len() && m.pool.buffers@[m.page_table@[k] as int].buffer.page_id.0
            == k
    &&& forall|i: int|
        0 <= i < m.pool.buffers@.len() && (#[trigger] m.pool.buffers@[i]).buffer.page_id.0
            != INVALID_PAGE_ID ==> m.page_table@.contains_key(m.pool.buffers@[i].buffer.page_id.0)
            && m.page_table@[m.pool.buffers@[i].buffer.page_id.0] == i
}

/// A saturating count bump: the successor, capped at the maximum.
pub open spec fn bumped(c: u64) -> int {
    if c == u64::MAX {
        c as int
    } else {
        c + 1
    }
}

impl BufferPoolManager {
    /// A manager over a fresh pool (no frame holding a page yet) with an
    /// empty page table.
    pub fn new(pool: BufferPool) -> (m: Self)
        requires
            pool_wf(pool),
            forall|i: int|
                0 <= i < pool.buffers@.len() ==> (#[trigger] pool.buffers@[i]).buffer.page_id.0
                    == INVALID_PAGE_ID,
        ensures
            manager_wf(m),
            m.pool == pool,
            m.page_table@ == Map::<u64, usize>::empty(),
    {
        BufferPoolManager { pool, page_table: HashMap::new() }
    }

    /// Number of frames in the pool.
    pub fn size(&self) -> (r: usize)
        ensures
            r == self.pool.buffers@.len(),
    {
        self.pool.size()
    }

    /// Read access to a frame's page bytes; holding a handle from
    /// `fetch_page` makes this the cached copy of that page.
    pub fn page_bytes(&self, buffer_id: BufferId) -> (r: &Vec<u8>)
        requires
            buffer_id.0 < self.pool.buffers@.len(),
        ensures
            r@ == self.pool.buffers@[buffer_id.0 as int].buffer.page@,
    {
        &self.pool.buffers[buffer_id.0].buffer.page
    }

    /// The frame caching `page_id`, if any.
    pub fn lookup(&self, page_id: PageId) -> (r: Option<BufferId>)
        requires
            manager_wf(*self),
        ensures
            r == if self.page_table@.contains_key(page_id.0) {
                Some(BufferId(self.page_table@[page_id.0]))
            } else {
                Option::<BufferId>::None
            },
    {
        match self.page_table.get(&page_id.to_u64()) {
            Some(b) => Some(BufferId(*b)),
            None => None,
        }
    }

    /// The page id a frame currently holds.
    pub fn page_id_of(&self, buffer_id: BufferId) -> (r: PageId)
        requires
            buffer_id.0 < self.pool.buffers@.len(),
        ensures
            r == self.pool.buffers@[buffer_id.0 as int].buffer.page_id,
    {
        self.pool.buffers[buffer_id.0].buffer.page_id
    }

    /// Fetches `page_id`. A cached page is returned as `Hit`, pinned, with
    /// one more eviction chance. Otherwise a victim frame is evicted and
    /// claimed (`Load`): its old table entry is dropped, the new one is
    /// installed, and the victim's dirty page — if any — is handed back for
    /// write-back; the caller must then load the page bytes through
    /// `finish_load`. With every frame pinned the fetch fails, leaving the
    /// cache as it was except for spent eviction chances.
    pub fn fetch_page(&mut self, page_id: PageId) -> (r: Result<FetchOutcome, PoolError>)
        requires
            manager_wf(*old(self)),
            page_id.0 != INVALID_PAGE_ID,
        ensures
            manager_wf(*final(self)),
            final(self).pool.buffers@.len() == old(self).pool.buffers@.len(),
            old(self).page_table@.contains_key(page_id.0) <==> (r matches Ok(FetchOutcome::Hit(
                _,
            ))),
            match r {
                Ok(FetchOutcome::Hit(bid)) => {
                    let frames0 = old(self).pool.buffers@;
                    let frames1 = final(self).pool.buffers@;
                    &&& bid.0 == old(self).page_table@[page_id.0]
                    &&& bid.0 < frames0.len()
                    &&& final(self).page_table@ == old(self).page_table@
                    &&& same_buffer(frames0[bid.0 as int], frames1[bid.0 as int])
                    &&& frames1[bid.0 as int].buffer.page_id == page_id
                    &&& frames1[bid.0 as int].pin_count == bumped(frames0[bid.0 as int].pin_count)
                    &&& frames1[bid.0 as int].usage_count == bumped(
                        frames0[bid.0 as int].usage_count,
                    )
                    &&& forall|i: int|
                        0 <= i < frames0.len() && i != bid.0 ==> same_buffer(
                            frames0[i],
                            #[trigger] frames1[i],
                        ) && frames1[i].pin_count == frames0[i].pin_count && frames1[i].usage_count
                            == frames0[i].usage_count
                },
                Ok(FetchOutcome::Load { buffer_id, write_back }) => {
                    let frames0 = old(self).pool.buffers@;
                    let frames1 = final(self).pool.buffers@;
                    let old_pid = frames0[buffer_id.0 as int].buffer.page_id;
                    &&& buffer_id.0 < frames0.len()
                    &&& frames0[buffer_id.0 as int].pin_count == 0
                    &&& (match write_back {
                        Some(wb) => frames0[buffer_id.0 as int].buffer.is_dirty && wb.page_id
                            == old_pid && wb.data@ == frames0[buffer_id.0 as int].buffer.page@,
                        None => !frames0[buffer_id.0 as int].buffer.is_dirty,
                    })
                    &&& frames1[buffer_id.0 as int].buffer.page_id == page_id
                    &&& !frames1[buffer_id.0 as int].buffer.is_dirty
                    &&& frames1[buffer_id.0 as int].usage_count == 1
                    &&& frames1[buffer_id.0 as int].pin_count == 1
                    &&& frames1[buffer_id.0 as int].buffer.page@ == frames0[buffer_id.0
                        as int].buffer.page@
                    &&& final(self).page_table@ == (if old_pid.0 != INVALID_PAGE_ID {
                        old(self).page_table@.remove(old_pid.0)
                    } else {
                        old(self).page_table@
                    }).insert(page_id.0, buffer_id.0)
                    &&& forall|i: int|
                        0 <= i < frames0.len() && i != buffer_id.0 ==> same_buffer(
                            frames0[i],
                            #[trigger] frames1[i],
                        ) && frames1[i].pin_count == frames0[i].pin_count && frames1[i].usage_count
                            <= frames0[i].usage_count
                },
                Err(e) => {
                    let frames0 = old(self).pool.buffers@;
                    let frames1 = final(self).pool.buffers@;
                    &&& e == PoolError::NoFreeBuffer
                    &&& final(self).page_table@ == old(self).page_table@
                    &&& (forall|i: int|
                        0 <= i < frames1.len() ==> (#[trigger] frames1[i]).pin_count > 0)
                    &&& forall|i: int|
                        0 <= i < frames0.len() ==> same_buffer(frames0[i], #[trigger] frames1[i])
                            && frames1[i].pin_count == frames0[i].pin_count
                            && frames1[i].usage_count <= frames0[i].usage_count
                },
            },
    {
        let key = page_id.to_u64();
        let cached = match self.page_table.get(&key) {
            Some(b) => Some(*b),
            None => None,
        };
        match cached {
            Some(bid) => {
                let fr = &mut self.pool.buffers[bid];
                if fr.usage_count < u64::MAX {
                    fr.usage_count = fr.usage_count + 1;
                }
                if fr.pin_count < u64::MAX {
                    fr.pin_count = fr.pin_count + 1;
                }
                Ok(FetchOutcome::Hit(BufferId(bid)))
            },
            None => {
                match self.pool.evict() {
                    None => Err(PoolError::NoFreeBuffer),
                    Some(victim) => {
                        let v = victim.0;
                        let old_pid = self.pool.buffers[v].buffer.page_id;
                        let dirty = self.pool.buffers[v].buffer.is_dirty;
                        let write_back = if dirty {
                            let data = copy_bytes(&self.pool.buffers[v].buffer.page);
                            Some(WriteBack { page_id: old_pid, data })
                        } else {
                            None
                        };
                        if old_pid.0 != INVALID_PAGE_ID {
                            self.page_table.remove(&old_pid.0);
                        }
                        let fr = &mut self.pool.buffers[v];
                        fr.buffer.page_id = page_id;
                        fr.buffer.is_dirty = false;
                        fr.usage_count = 1;
                        fr.pin_count = 1;
                        self.page_table.insert(key, v);
                        Ok(FetchOutcome::Load { buffer_id: victim, write_back })
                    },
                }
            },
        }
    }

    /// Installs the bytes read from disk into a frame claimed by a `Load`
    /// outcome. Nothing but the page bytes changes.
    pub fn finish_load(&mut self, buffer_id: BufferId, data: Vec<u8>)
        requires
            manager_wf(*old(self)),
            buffer_id.0 < old(self).pool.buffers@.len(),
            data@.len() == PAGE_SIZE,
        ensures
            manager_wf(*final(self)),
            final(self).page_table@ == old(self).page_table@,
            final(self).pool.buffers@.len() == old(self).pool.buffers@.len(),
            final(self).pool.buffers@[buffer_id.0 as int].buffer.page@ == data@,
            final(self).pool.buffers@[buffer_id.0 as int].buffer.page_id == old(
                self,
            ).pool.buffers@[buffer_id.0 as int].buffer.page_id,
            final(self).pool.buffers@[buffer_id.0 as int].buffer.is_dirty == old(
                self,
            ).pool.buffers@[buffer_id.0 as int].buffer.is_dirty,
            final(self).pool.buffers@[buffer_id.0 as int].pin_count == old(
                self,
            ).pool.buffers@[buffer_id.0 as int].pin_count,
            final(self).pool.buffers@[buffer_id.0 as int].usage_count == old(
                self,
            ).pool.buffers@[buffer_id.0 as int].usage_count,
            forall|i: int|
                0 <= i < old(self).pool.buffers@.len() && i != buffer_id.0
                    ==> final(self).pool.buffers@[i] == old(self).pool.buffers@[i],
    {
        let fr = &mut self.pool.buffers[buffer_id.0];
        fr.buffer.page = data;
    }

    /// Overwrites a pinned page's cached bytes and marks the buffer dirty:
    /// the write side of the checked read-many/write-one discipline.
    pub fn update_page(&mut self, buffer_id: BufferId, data: Vec<u8>)
        requires
            manager_wf(*old(self)),
            buffer_id.0 < old(self).pool.buffers@.len(),
            data@.len() == PAGE_SIZE,
            old(self).pool.buffers@[buffer_id.0 as int].buffer.page_id.0 != INVALID_PAGE_ID,
        ensures
            manager_wf(*final(self)),
            final(self).page_table@ == old(self).page_table@,
            final(self).pool.buffers@.len() == old(self).pool.buffers@.len(),
            final(self).pool.buffers@[buffer_id.0 as int].buffer.page@ == data@,
            final(self).pool.buffers@[buffer_id.0 as int].buffer.is_dirty,
            final(self).pool.buffers@[buffer_id.0 as int].buffer.page_id == old(
                self,
            ).pool.buffers@[buffer_id.0 as int].buffer.page_id,
            final(self).pool.buffers@[buffer_id.0 as int].pin_count == old(
                self,
            ).pool.buffers@[buffer_id.0 as int].pin_count,
            final(self).pool.buffers@[buffer_id.0 as int].usage_count == old(
                self,
            ).pool.buffers@[buffer_id.0 as int].usage_count,
            forall|i: int|
                0 <= i < old(self).pool.buffers@.len() && i != buffer_id.0
                    ==> final(self).pool.buffers@[i] == old(self).pool.buffers@[i],
    {
        let fr = &mut self.pool.buffers[buffer_id.0];
        fr.buffer.page = data;
        fr.buffer.is_dirty = true;
    }

    /// Releases one handle to a frame. With no outstanding handle left the
    /// frame becomes evictable again (once its chances run out).
    pub fn unpin(&mut self, buffer_id: BufferId)
        requires
            manager_wf(*old(self)),
            buffer_id.0 < old(self).pool.buffers@.len(),
        ensures
            manager_wf(*final(self)),
            final(self).page_table@ == old(self).page_table@,
            final(self).pool.buffers@.len() == old(self).pool.buffers@.len(),
            final(self).pool.buffers@[buffer_id.0 as int].pin_count == (
            if old(self).pool.buffers@[buffer_id.0 as int].pin_count > 0 {
                old(self).pool.buffers@[buffer_id.0 as int].pin_count - 1
            } else {
                0int
            }),
            same_buffer(
                old(self).pool.buffers@[buffer_id.0 as int],
                final(self).pool.buffers@[buffer_id.0 as int],
            ),
            final(self).pool.buffers@[buffer_id.0 as int].usage_count == old(
                self,
            ).pool.buffers@[buffer_id.0 as int].usage_count,
            forall|i: int|
                0 <= i < old(self).pool.buffers@.len() && i != buffer_id.0
                    ==> final(self).pool.buffers@[i] == old(self).pool.buffers@[i],
    {
        let fr = &mut self.pool.buffers[buffer_id.0];
        if fr.pin_count > 0 {
            fr.pin_count = fr.pin_count - 1;
        }
    }

    /// Creates a cache entry for a freshly allocated page: same path as a
    /// fetch miss, but the initial disk read is skipped — the frame gets a
    /// zeroed page marked dirty immediately. The caller supplies the new
    /// page id (from the disk collaborator's allocator); it must not be
    /// cached already.
    pub fn create_page(&mut self, page_id: PageId) -> (r: Result<
        (BufferId, Option<WriteBack>),
        PoolError,
    >)
        requires
            manager_wf(*old(self)),
            page_id.0 != INVALID_PAGE_ID,
            !old(self).page_table@.contains_key(page_id.0),
        ensures
            manager_wf(*final(self)),
            final(self).pool.buffers@.len() == old(self).pool.buffers@.len(),
            match r {
                Ok((buffer_id, write_back)) => {
                    let frames0 = old(self).pool.buffers@;
                    let frames1 = final(self).pool.buffers@;
                    let old_pid = frames0[buffer_id.0 as int].buffer.page_id;
                    &&& buffer_id.0 < frames0.len()
                    &&& frames0[buffer_id.0 as int].pin_count == 0
                    &&& (match write_back {
                        Some(wb) => frames0[buffer_id.0 as int].buffer.is_dirty && wb.page_id
                            == old_pid && wb.data@ == frames0[buffer_id.0 as int].buffer.page@,
                        None => !frames0[buffer_id.0 as int].buffer.is_dirty,
                    })
                    &&& frames1[buffer_id.0 as int].buffer.page_id == page_id
                    &&& frames1[buffer_id.0 as int].buffer.is_dirty
                    &&& frames1[buffer_id.0 as int].usage_count == 1
                    &&& frames1[buffer_id.0 as int].pin_count == 1
                    &&& frames1[buffer_id.0 as int].buffer.page@.len() == PAGE_SIZE
                    &&& (forall|j: int|
                        0 <= j < PAGE_SIZE ==> frames1[buffer_id.0 as int].buffer.page@[j] == 0u8)
                    &&& final(self).page_table@ == (if old_pid.0 != INVALID_PAGE_ID {
                        old(self).page_table@.remove(old_pid.0)
                    } else {
                        old(self).page_table@
                    }).insert(page_id.0, buffer_id.0)
                    &&& forall|i: int|
                        0 <= i < frames0.len() && i != buffer_id.0 ==> same_buffer(
                            frames0[i],
                            #[trigger] frames1[i],
                        ) && frames1[i].pin_count == frames0[i].pin_count && frames1[i].usage_count
                            <= frames0[i].usage_count
                },
                Err(e) => {
                    let frames0 = old(self).pool.buffers@;
                    let frames1 = final(self).pool.buffers@;
                    &&& e == PoolError::NoFreeBuffer
                    &&& final(self).page_table@ == old(self).page_table@
                    &&& (forall|i: int|
                        0 <= i < frames1.len() ==> (#[trigger] frames1[i]).pin_count > 0)
                    &&& forall|i: int|
                        0 <= i < frames0.len() ==> same_buffer(frames0[i], #[trigger] frames1[i])
                            && frames1[i].pin_count == frames0[i].pin_count
                            && frames1[i].usage_count <= frames0[i].usage_count
                },
            },
    {
        let key = page_id.to_u64();
        match self.pool.evict() {
            None => Err(PoolError::NoFreeBuffer),
            Some(victim) => {
                let v = victim.0;
                let old_pid = self.pool.buffers[v].buffer.page_id;
                let dirty = self.pool.buffers[v].buffer.is_dirty;
                let write_back = if dirty {
                    let data = copy_bytes(&self.pool.buffers[v].buffer.page);
                    Some(WriteBack { page_id: old_pid, data })
                } else {
                    None
                };
                if old_pid.0 != INVALID_PAGE_ID {
                    self.page_table.remove(&old_pid.0);
                }
                let zeros = zero_page();
                let fr = &mut self.pool.buffers[v];
                fr.buffer.page_id = page_id;
                fr.buffer.is_dirty = true;
                fr.buffer.page = zeros;
                fr.usage_count = 1;
                fr.pin_count = 1;
                self.page_table.insert(key, v);
                Ok((victim, write_back))
            },
        }
    }
}

} // verus!
