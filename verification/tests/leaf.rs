use relly::btree::leaf::Leaf;
use relly::btree::Pair;
use relly::buffer::{BufferPool, BufferPoolManager, FetchOutcome};
use relly::disk::{PageId, PAGE_SIZE};

fn empty_leaf(page_len: usize) -> Leaf {
    let mut leaf = Leaf::new(vec![0u8; page_len]);
    leaf.initialize();
    leaf
}

#[test]
fn sibling_links_follow_the_sentinel_rule() {
    let mut leaf = empty_leaf(128);
    assert_eq!(leaf.prev_page_id(), None);
    assert_eq!(leaf.next_page_id(), None);

    leaf.set_prev_page_id(Some(PageId(0)));
    leaf.set_next_page_id(Some(PageId(42)));
    assert_eq!(leaf.prev_page_id(), Some(PageId(0)));
    assert_eq!(leaf.next_page_id(), Some(PageId(42)));

    leaf.set_next_page_id(None);
    assert_eq!(leaf.next_page_id(), None);

    // Storing the all-ones value itself reads back as absent.
    leaf.set_prev_page_id(Some(PageId(u64::MAX)));
    assert_eq!(leaf.prev_page_id(), None);
}

#[test]
fn sorted_inserts_then_searches() {
    let mut leaf = empty_leaf(512);
    // Insert out of order, always at the reported insertion point.
    for key in [b"melon" as &[u8], b"apple", b"cherry", b"banana"] {
        let slot = leaf.search_slot_id(key).unwrap_err();
        assert_eq!(leaf.insert(slot, key, b"v"), Some(()));
    }
    assert_eq!(leaf.num_pairs(), 4);

    let sorted: [&[u8]; 4] = [b"apple", b"banana", b"cherry", b"melon"];
    for (i, key) in sorted.iter().enumerate() {
        assert_eq!(leaf.search_slot_id(key), Ok(i));
        let pair = leaf.pair_at(i);
        assert_eq!(pair.key.as_slice(), *key);
        assert_eq!(pair.value.as_slice(), b"v");
    }

    // Absent keys report the exact insertion point.
    assert_eq!(leaf.search_slot_id(b"aaa"), Err(0));
    assert_eq!(leaf.search_slot_id(b"blue"), Err(2));
    assert_eq!(leaf.search_slot_id(b"damson"), Err(3));
    assert_eq!(leaf.search_slot_id(b"zzz"), Err(4));
}

#[test]
fn insert_refuses_when_the_body_is_full() {
    // Body capacity 24: pair "ab"/"cd" costs 2 + 2 + 2 = 6 bytes plus a
    // 4-byte pointer, ten per insert.
    let mut leaf = empty_leaf(16 + 8 + 24);
    assert_eq!(leaf.insert(0, b"ab", b"cd"), Some(()));
    assert_eq!(leaf.insert(1, b"ef", b"gh"), Some(()));
    assert_eq!(leaf.insert(2, b"ij", b"kl"), None);
    assert_eq!(leaf.num_pairs(), 2);
    assert_eq!(leaf.free_space(), 4);
}

#[test]
fn pair_codec_round_trip() {
    let p = Pair { key: b"key".to_vec(), value: b"some value".to_vec() };
    let bytes = p.to_bytes();
    assert_eq!(bytes.len(), 2 + 3 + 10);
    let q = Pair::from_bytes(&bytes);
    assert_eq!(q.key, b"key".to_vec());
    assert_eq!(q.value, b"some value".to_vec());

    // An empty key still round-trips.
    let e = Pair { key: Vec::new(), value: b"v".to_vec() };
    let eb = e.to_bytes();
    let ed = Pair::from_bytes(&eb);
    assert_eq!(ed.key, Vec::<u8>::new());
    assert_eq!(ed.value, b"v".to_vec());
}

#[test]
fn page_round_trip_keeps_header_and_body() {
    let mut leaf = empty_leaf(128);
    leaf.set_next_page_id(Some(PageId(9)));
    let slot = leaf.search_slot_id(b"k").unwrap_err();
    leaf.insert(slot, b"k", b"val").unwrap();

    let page = leaf.to_page();
    assert_eq!(page.len(), 128);
    let reread = Leaf::new(page);
    assert_eq!(reread.prev_page_id(), None);
    assert_eq!(reread.next_page_id(), Some(PageId(9)));
    assert_eq!(reread.num_pairs(), 1);
    assert_eq!(reread.search_slot_id(b"k"), Ok(0));
    let pair = reread.pair_at(0);
    assert_eq!(pair.value.as_slice(), b"val");
}

#[test]
fn leaf_page_through_the_pool() {
    let mut mgr = BufferPoolManager::new(BufferPool::new(1));
    let pid = PageId(0);
    let (bid, _) = mgr.create_page(pid).unwrap();

    // Format the cached page as a leaf, store one pair, write it back.
    let mut leaf = Leaf::new(mgr.page_bytes(bid).clone());
    leaf.initialize();
    let slot = leaf.search_slot_id(b"k").unwrap_err();
    leaf.insert(slot, b"k", b"v").unwrap();
    mgr.update_page(bid, leaf.to_page());
    mgr.unpin(bid);

    // Fetching another page evicts the dirty leaf and hands its bytes back.
    let wb = match mgr.fetch_page(PageId(1)).unwrap() {
        FetchOutcome::Load { buffer_id, write_back } => {
            mgr.finish_load(buffer_id, vec![0u8; PAGE_SIZE]);
            write_back.expect("the leaf page was dirty")
        }
        FetchOutcome::Hit(_) => panic!("page 1 was never cached"),
    };
    assert_eq!(wb.page_id, pid);

    // The written-back bytes decode to the same leaf.
    let reread = Leaf::new(wb.data);
    assert_eq!(reread.num_pairs(), 1);
    assert_eq!(reread.search_slot_id(b"k"), Ok(0));
    assert_eq!(reread.pair_at(0).value.as_slice(), b"v");
}

#[test]
fn page_id_sentinel_rules() {
    assert_eq!(PageId(5).valid(), Some(PageId(5)));
    assert_eq!(PageId(0).valid(), Some(PageId(0)));
    assert_eq!(PageId(u64::MAX).valid(), None);
    assert_eq!(PageId::default().valid(), None);
    assert_eq!(PageId(7).to_u64(), 7);
    assert_eq!(PageId::invalid().valid(), None);
}
