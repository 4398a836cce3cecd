use mayheap::heap::vec::is_filled;
use mayheap::heap::Vec;

#[test]
fn heap_push_beyond_the_hint_succeeds() {
    fn fill<const N: usize>(extra: usize) {
        let mut v: Vec<usize, N> = Vec::new();
        for i in 0..N + extra {
            assert_eq!(v.push(i), Ok(()));
        }
        assert_eq!(v.len(), N + extra);
    }
    fill::<0>(0);
    fill::<0>(3);
    fill::<1>(1);
    fill::<4>(0);
    fill::<4>(9);
}

#[test]
fn heap_from_slice_round_trip_is_unconditional() {
    let v = Vec::<u8, 1>::from_slice(&[1, 2, 3, 4, 5]).unwrap();
    assert_eq!(v.as_slice(), &[1, 2, 3, 4, 5]);
    let w = Vec::<u8, 10>::try_from(&[1u8, 2][..]).unwrap();
    assert_eq!(w.as_slice(), &[1, 2]);
}

#[test]
fn heap_capacity_is_at_least_the_length() {
    let mut v: Vec<u8, 4> = Vec::new();
    assert!(v.capacity() >= 4);
    assert!(v.extend_from_slice(&[0; 100]).is_ok());
    assert!(v.capacity() >= 100);
    assert_eq!(v.len(), 100);
    let _ = v.is_full();
    assert_eq!(v.push(1), Ok(()));
}

#[test]
fn heap_operations_agree_with_the_fixed_ones() {
    let mut v = Vec::<u8, 2>::from_slice(&[1, 2, 3, 4, 5, 6]).unwrap();
    v.retain(|x| x % 2 == 0);
    assert_eq!(v.as_slice(), &[2, 4, 6]);
    assert_eq!(v.insert(1, 3), Ok(()));
    assert_eq!(v.as_slice(), &[2, 3, 4, 6]);
    assert_eq!(v.remove(0), 2);
    assert_eq!(v.swap_remove(0), 3);
    assert_eq!(v.as_slice(), &[6, 4]);
    assert_eq!(v.resize(4, 1), Ok(()));
    assert_eq!(v.as_slice(), &[6, 4, 1, 1]);
    assert_eq!(v.resize_default(5), Ok(()));
    assert_eq!(v.pop(), Some(0));
    v.truncate(1);
    assert_eq!(v.as_slice(), &[6]);
    assert!(v.starts_with(&[6]));
    assert!(v.ends_with(&[6]));
    v.push_unchecked(7);
    assert_eq!(v.pop_unchecked(), 7);
    v.extend(std::vec![8u8, 9].into_iter());
    assert_eq!(v.as_slice(), &[6, 8, 9]);
    v.inner_mut().push(10);
    assert_eq!(v.inner().len(), 4);
    v.retain_mut(|x| {
        *x += 1;
        *x > 7
    });
    assert_eq!(v.as_slice(), &[9, 10, 11]);
    let array: [u8; 3] = v.into_array().unwrap();
    assert_eq!(array, [9, 10, 11]);
}

#[test]
fn heap_write_str_and_iteration() {
    let mut v: Vec<u8, 1> = Vec::new();
    assert!(v.write_str("hello").is_ok());
    assert_eq!(v.as_slice(), b"hello");
    assert!(v == b"hello"[..]);
    let mut it = v.into_iter();
    assert_eq!(it.next(), Some(b'h'));
    assert_eq!(it.next(), Some(b'e'));
    let w = Vec::<u8, 0>::from_iter(std::vec![1u8, 2].into_iter());
    assert_eq!(w.into_inner(), std::vec![1, 2]);
    let x: Vec<u8, 0> = Vec::from(std::vec![3u8, 4]);
    assert_eq!(x.as_slice(), &[3, 4]);
    assert_eq!(std::vec::Vec::from(x), std::vec![3, 4]);
}

#[test]
fn heap_is_full_compares_length_and_room() {
    assert!(is_filled(0, 0));
    assert!(is_filled(7, 7));
    assert!(!is_filled(3, 4));
    assert!(!is_filled(0, 1));
    let mut v: Vec<u8, 4> = Vec::new();
    assert_eq!(v.is_full(), is_filled(v.len(), v.capacity()));
    assert!(v.extend_from_slice(&[1, 2, 3, 4, 5]).is_ok());
    assert_eq!(v.is_full(), is_filled(v.len(), v.capacity()));
    let exact: Vec<u8, 0> = Vec::from(std::vec::Vec::with_capacity(0));
    assert!(exact.is_full());
    assert_eq!(exact.capacity(), 0);
}
