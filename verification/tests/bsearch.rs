use relly::bsearch::binary_search_by;
use std::cmp::Ordering;

#[test]
fn test() {
    let a = vec![1, 2, 3, 5, 8, 13, 21];
    assert_eq!(Ok(0), binary_search_by(a.len(), |idx| a[idx].cmp(&1)));
    assert_eq!(Err(0), binary_search_by(a.len(), |idx| a[idx].cmp(&0)));
    assert_eq!(Ok(1), binary_search_by(a.len(), |idx| a[idx].cmp(&2)));
    assert_eq!(Ok(4), binary_search_by(a.len(), |idx| a[idx].cmp(&8)));
    assert_eq!(Err(4), binary_search_by(a.len(), |idx| a[idx].cmp(&6)));
    assert_eq!(Ok(6), binary_search_by(a.len(), |idx| a[idx].cmp(&21)));
    assert_eq!(Err(7), binary_search_by(a.len(), |idx| a[idx].cmp(&22)));
}

#[test]
fn empty_range_is_err_zero() {
    let r = binary_search_by(0, |_idx| -> Ordering { unreachable!() });
    assert_eq!(r, Err(0));
}

#[test]
fn duplicate_keys_find_some_match() {
    let a = vec![3, 3, 3, 7];
    let r = binary_search_by(a.len(), |idx| a[idx].cmp(&3));
    let i = r.unwrap();
    assert_eq!(a[i], 3);
}
