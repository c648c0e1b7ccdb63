//! Page identifiers and the page-size constant. Disk I/O itself (the heap
//! file) lives outside the verified library; everything here is the plain
//! data that the cache and the page layouts share.

use vstd::prelude::*;

verus! {

/// Size in bytes of one page, the unit of disk I/O and caching.
pub const PAGE_SIZE: usize = 4096;

/// Raw value reserved to mean "no page": all bits set.
pub const INVALID_PAGE_ID: u64 = 0xffff_ffff_ffff_ffff;

/// Unsigned 64-bit identifier of a fixed-size page. The all-ones value is a
/// sentinel denoting absence; `valid` converts the sentinel to `None`.
#[derive(Clone, Copy, Debug, PartialEq, Eq, Hash, Structural)]
pub struct PageId(pub u64);

impl PageId {
    /// Whether this identifier names an actual page (is not the sentinel).
    pub open spec fn is_valid(self) -> bool {
        self.0 != INVALID_PAGE_ID
    }

    /// Maps the sentinel to `None` and every other value to `Some(self)`.
    pub fn valid(self) -> (r: Option<PageId>)
        ensures
            r == if self.is_valid() {
                Some(self)
            } else {
                Option::<PageId>::None
            },
    {
        if self.0 == INVALID_PAGE_ID {
            None
        } else {
            Some(self)
        }
    }

    /// The raw 64-bit value of this identifier.
    pub fn to_u64(self) -> (r: u64)
        ensures
            r == self.0,
    {
        self.0
    }

    /// The reserved "no page" identifier.
    pub fn invalid() -> (r: PageId)
        ensures
            r.0 == INVALID_PAGE_ID,
    {
        PageId(INVALID_PAGE_ID)
    }
}

impl Default for PageId {
    /// The default page id is the sentinel.
    fn default() -> (r: Self)
        ensures
            r.0 == INVALID_PAGE_ID,
    {
        PageId(INVALID_PAGE_ID)
    }
}

impl From<Option<PageId>> for PageId {
    /// `None` becomes the sentinel, undoing `valid`.
    fn from(page_id: Option<PageId>) -> (r: Self) {
        match page_id {
            Some(p) => p,
            None => PageId(INVALID_PAGE_ID),
        }
    }
}

impl vstd::std_specs::convert::FromSpecImpl<Option<PageId>> for PageId {
    open spec fn obeys_from_spec() -> bool {
        true
    }

    open spec fn from_spec(page_id: Option<PageId>) -> PageId {
        match page_id {
            Some(p) => p,
            None => PageId(INVALID_PAGE_ID),
        }
    }
}

} // verus!
