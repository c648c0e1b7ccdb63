use relly::buffer::{BufferPool, BufferPoolManager, FetchOutcome, PoolError};
use relly::disk::{PageId, PAGE_SIZE};

fn page_filled_with(tag: u8) -> Vec<u8> {
    vec![tag; PAGE_SIZE]
}

#[test]
fn fetch_twice_without_eviction_hits_cache() {
    let mut mgr = BufferPoolManager::new(BufferPool::new(2));
    let pid = PageId(7);
    let mut disk_reads = 0;

    match mgr.fetch_page(pid).unwrap() {
        FetchOutcome::Load { buffer_id, write_back } => {
            assert!(write_back.is_none());
            disk_reads += 1;
            mgr.finish_load(buffer_id, page_filled_with(0xab));
        }
        FetchOutcome::Hit(_) => panic!("a fresh pool cannot hit"),
    }

    match mgr.fetch_page(pid).unwrap() {
        FetchOutcome::Hit(bid) => {
            assert_eq!(mgr.page_bytes(bid), &page_filled_with(0xab));
            assert_eq!(mgr.page_id_of(bid), pid);
        }
        FetchOutcome::Load { .. } => panic!("the cached page must not be re-read"),
    }
    assert_eq!(disk_reads, 1);
}

#[test]
fn pinning_every_frame_exhausts_the_pool() {
    let n: usize = 3;
    let mut mgr = BufferPoolManager::new(BufferPool::new(n));
    let mut handles = Vec::new();
    for i in 0..n {
        match mgr.fetch_page(PageId(i as u64)).unwrap() {
            FetchOutcome::Load { buffer_id, write_back } => {
                assert!(write_back.is_none());
                mgr.finish_load(buffer_id, page_filled_with(i as u8));
                handles.push(buffer_id);
            }
            FetchOutcome::Hit(_) => panic!("distinct pages cannot hit"),
        }
    }

    // Every frame is pinned: an (N+1)th page is refused, recoverably.
    match mgr.fetch_page(PageId(99)) {
        Err(PoolError::NoFreeBuffer) => {}
        Ok(_) => panic!("the pool must report exhaustion"),
    }

    // Releasing one pin makes the retry succeed.
    mgr.unpin(handles[0]);
    match mgr.fetch_page(PageId(99)).unwrap() {
        FetchOutcome::Load { buffer_id, write_back } => {
            assert!(write_back.is_none());
            mgr.finish_load(buffer_id, page_filled_with(99));
        }
        FetchOutcome::Hit(_) => panic!("page 99 was never cached"),
    }
}

#[test]
fn evicting_a_dirty_frame_writes_it_back_once() {
    let mut mgr = BufferPoolManager::new(BufferPool::new(1));
    let pid = PageId(1);
    match mgr.fetch_page(pid).unwrap() {
        FetchOutcome::Load { buffer_id, write_back } => {
            assert!(write_back.is_none());
            mgr.finish_load(buffer_id, page_filled_with(1));
            mgr.update_page(buffer_id, page_filled_with(0x55));
            mgr.unpin(buffer_id);
        }
        FetchOutcome::Hit(_) => panic!("a fresh pool cannot hit"),
    }

    let mut write_backs = 0;
    match mgr.fetch_page(PageId(2)).unwrap() {
        FetchOutcome::Load { buffer_id, write_back } => {
            let wb = write_back.expect("the dirty page must be handed back");
            write_backs += 1;
            assert_eq!(wb.page_id, pid);
            assert_eq!(wb.data, page_filled_with(0x55));
            mgr.finish_load(buffer_id, page_filled_with(2));
        }
        FetchOutcome::Hit(_) => panic!("page 2 was never cached"),
    }
    assert_eq!(write_backs, 1);

    // The clean copy of page 2 leaves without a write-back.
    mgr.unpin(mgr.lookup(PageId(2)).unwrap());
    match mgr.fetch_page(PageId(3)).unwrap() {
        FetchOutcome::Load { write_back, .. } => assert!(write_back.is_none()),
        FetchOutcome::Hit(_) => panic!("page 3 was never cached"),
    }
}

#[test]
fn create_page_skips_the_read_and_starts_dirty() {
    let mut mgr = BufferPoolManager::new(BufferPool::new(2));
    let pid = PageId(5);
    let (bid, write_back) = mgr.create_page(pid).unwrap();
    assert!(write_back.is_none());
    assert_eq!(mgr.page_bytes(bid), &vec![0u8; PAGE_SIZE]);
    assert_eq!(mgr.page_id_of(bid), pid);
    // The created page is cached: fetching it hits.
    match mgr.fetch_page(pid).unwrap() {
        FetchOutcome::Hit(b) => assert_eq!(b, bid),
        FetchOutcome::Load { .. } => panic!("the created page must be cached"),
    }
}
