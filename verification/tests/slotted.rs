use relly::slotted::{Pointer, Slotted};

#[test]
fn insert_round_trip() {
    let mut page = Slotted::new(vec![0u8; 128]);
    page.initialize();
    assert_eq!(page.capacity(), 120);
    assert_eq!(page.num_slots(), 0);
    let before = page.free_space();
    assert_eq!(before, 120);

    let record = [10u8, 20, 30, 40, 50];
    assert_eq!(page.insert(0, record.len()), Some(()));
    page.write_data(0, &record);

    assert_eq!(page.num_slots(), 1);
    assert_eq!(page.data(0), &record[..]);
    assert_eq!(page.free_space(), before - (record.len() + 4));
}

#[test]
fn insert_fails_exactly_when_no_room() {
    // Capacity 16: one pointer (4 bytes) plus a record must fit.
    let mut page = Slotted::new(vec![0u8; 24]);
    page.initialize();
    assert_eq!(page.free_space(), 16);

    let slots_before = page.num_slots();
    let offset_before = page.free_space_offset();
    // 4 + 13 = 17 > 16: refused, page untouched.
    assert_eq!(page.insert(0, 13), None);
    assert_eq!(page.num_slots(), slots_before);
    assert_eq!(page.free_space_offset(), offset_before);

    // 4 + 12 = 16: exactly fits.
    assert_eq!(page.insert(0, 12), Some(()));
    assert_eq!(page.free_space(), 0);

    // Nothing further fits, not even an empty record.
    assert_eq!(page.insert(0, 0), None);
}

#[test]
fn insert_shifts_pointers_and_keeps_data() {
    let mut page = Slotted::new(vec![0u8; 128]);
    page.initialize();
    assert_eq!(page.insert(0, 3), Some(()));
    page.write_data(0, b"low");
    assert_eq!(page.insert(1, 4), Some(()));
    page.write_data(1, b"high");
    // Open a gap in front: old slots move up, bytes intact.
    assert_eq!(page.insert(0, 5), Some(()));
    page.write_data(0, b"first");
    assert_eq!(page.num_slots(), 3);
    assert_eq!(page.data(0), b"first");
    assert_eq!(page.data(1), b"low");
    assert_eq!(page.data(2), b"high");
}

#[test]
fn header_and_pointer_accessors() {
    let mut page = Slotted::new(vec![0u8; 64]);
    page.initialize();
    let h = page.header();
    assert_eq!(h.num_slots, 0);
    assert_eq!(h.free_space_offset, 56);

    assert_eq!(page.insert(0, 6), Some(()));
    let p: Pointer = page.pointer_at(0);
    assert_eq!(p.len, 6);
    assert_eq!(p.offset, 50);
    assert_eq!(p.range(), 50..56);
}
