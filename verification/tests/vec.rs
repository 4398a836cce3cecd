use mayheap::vec::IntoIter;
use mayheap::{Error, Vec};

#[test]
fn push_until_full_then_fail() {
    let mut v: Vec<u32, 3> = Vec::new();
    assert_eq!(v.push(1), Ok(()));
    assert_eq!(v.push(2), Ok(()));
    assert_eq!(v.push(3), Ok(()));
    assert_eq!(v.push(4), Err(4));
    assert_eq!(v.len(), 3);
    assert_eq!(v.as_slice(), &[1, 2, 3]);
}

#[test]
fn push_fills_every_capacity_up_to_eight() {
    fn fill<const N: usize>() {
        let mut v: Vec<usize, N> = Vec::new();
        for i in 0..N {
            assert_eq!(v.push(i), Ok(()));
        }
        assert_eq!(v.len(), N);
        assert!(v.is_full());
        assert_eq!(v.push(99), Err(99));
        assert_eq!(v.len(), N);
    }
    fill::<0>();
    fill::<1>();
    fill::<2>();
    fill::<5>();
    fill::<8>();
}

#[test]
fn new_vec_is_empty_with_capacity_n() {
    let v: Vec<u8, 7> = Vec::new();
    assert!(v.is_empty());
    assert!(!v.is_full());
    assert_eq!(v.len(), 0);
    assert_eq!(v.capacity(), 7);
    let d: Vec<u8, 7> = Vec::default();
    assert_eq!(d, v);
}

#[test]
fn from_slice_round_trip() {
    let v = Vec::<u8, 10>::from_slice(&[1, 2, 3, 4, 5]).unwrap();
    assert_eq!(v.as_slice(), &[1, 2, 3, 4, 5]);
    let exact = Vec::<u8, 5>::from_slice(&[1, 2, 3, 4, 5]).unwrap();
    assert_eq!(exact.as_slice(), &[1, 2, 3, 4, 5]);
    assert!(exact.is_full());
    let empty = Vec::<u8, 0>::from_slice(&[]).unwrap();
    assert!(empty.is_empty());
}

#[test]
fn from_slice_too_long_overflows() {
    let r = Vec::<u8, 1>::from_slice(&[1, 2, 3, 4, 5]);
    assert_eq!(r.unwrap_err(), Error::BufferOverflow);
}

#[test]
fn try_from_slice_behaves_as_from_slice() {
    let items = [7u16, 8, 9];
    let v = Vec::<u16, 3>::try_from(&items[..]).unwrap();
    assert_eq!(v.as_slice(), &[7, 8, 9]);
    assert_eq!(Vec::<u16, 2>::try_from(&items[..]).unwrap_err(), Error::BufferOverflow);
}

#[test]
fn extend_from_slice_fits_or_changes_nothing() {
    let mut v = Vec::<u8, 4>::from_slice(&[1, 2]).unwrap();
    assert_eq!(v.extend_from_slice(&[3, 4, 5]), Err(Error::BufferOverflow));
    assert_eq!(v.as_slice(), &[1, 2]);
    assert_eq!(v.extend_from_slice(&[3, 4]), Ok(()));
    assert_eq!(v.as_slice(), &[1, 2, 3, 4]);
    assert_eq!(v.extend_from_slice(&[]), Ok(()));
    assert_eq!(v.extend_from_slice(&[9]), Err(Error::BufferOverflow));
    assert_eq!(v.len(), 4);
}

#[test]
fn extend_takes_what_the_iterator_yields() {
    let mut v = Vec::<u8, 5>::from_slice(&[1]).unwrap();
    v.extend(std::vec![2u8, 3, 4].into_iter());
    assert_eq!(v.as_slice(), &[1, 2, 3, 4]);
    let w = Vec::<u8, 3>::from_iter(std::vec![5u8, 6, 7].into_iter());
    assert_eq!(w.as_slice(), &[5, 6, 7]);
}

#[test]
fn pop_returns_last_first() {
    let mut v = Vec::<u8, 3>::from_slice(&[1, 2]).unwrap();
    assert_eq!(v.pop(), Some(2));
    assert_eq!(v.pop_unchecked(), 1);
    assert_eq!(v.pop(), None);
    assert!(v.is_empty());
    v.push_unchecked(9);
    assert_eq!(v.as_slice(), &[9]);
}

#[test]
fn truncate_and_clear() {
    let mut v = Vec::<u8, 5>::from_slice(&[1, 2, 3, 4]).unwrap();
    v.truncate(10);
    assert_eq!(v.as_slice(), &[1, 2, 3, 4]);
    v.truncate(4);
    assert_eq!(v.as_slice(), &[1, 2, 3, 4]);
    v.truncate(2);
    assert_eq!(v.as_slice(), &[1, 2]);
    v.truncate(0);
    assert!(v.is_empty());
    let mut w = Vec::<u8, 5>::from_slice(&[1, 2, 3]).unwrap();
    w.clear();
    assert_eq!(w.len(), 0);
}

#[test]
fn resize_grows_cuts_and_refuses() {
    let mut v = Vec::<u8, 4>::from_slice(&[1, 2]).unwrap();
    assert_eq!(v.resize(4, 7), Ok(()));
    assert_eq!(v.as_slice(), &[1, 2, 7, 7]);
    assert_eq!(v.resize(1, 9), Ok(()));
    assert_eq!(v.as_slice(), &[1]);
    assert_eq!(v.resize(5, 9), Err(Error::BufferOverflow));
    assert_eq!(v.as_slice(), &[1]);
    assert_eq!(v.resize_default(3), Ok(()));
    assert_eq!(v.as_slice(), &[1, 0, 0]);
    assert_eq!(v.resize_default(5), Err(Error::BufferOverflow));
}

#[test]
fn insert_shifts_right_or_hands_back() {
    let mut v = Vec::<u8, 4>::from_slice(&[1, 3]).unwrap();
    assert_eq!(v.insert(1, 2), Ok(()));
    assert_eq!(v.insert(3, 4), Ok(()));
    assert_eq!(v.as_slice(), &[1, 2, 3, 4]);
    assert_eq!(v.insert(0, 5), Err(5));
    assert_eq!(v.as_slice(), &[1, 2, 3, 4]);
}

#[test]
fn remove_and_swap_remove() {
    let mut v = Vec::<u8, 5>::from_slice(&[1, 2, 3, 4, 5]).unwrap();
    assert_eq!(v.remove(1), 2);
    assert_eq!(v.as_slice(), &[1, 3, 4, 5]);
    assert_eq!(v.swap_remove(0), 1);
    assert_eq!(v.as_slice(), &[5, 3, 4]);
    assert_eq!(v.swap_remove_unchecked(2), 4);
    assert_eq!(v.as_slice(), &[5, 3]);
}

#[test]
fn starts_and_ends_with() {
    let v = Vec::<u8, 5>::from_slice(&[1, 2, 3]).unwrap();
    assert!(v.starts_with(&[]));
    assert!(v.starts_with(&[1, 2]));
    assert!(!v.starts_with(&[2]));
    assert!(!v.starts_with(&[1, 2, 3, 4]));
    assert!(v.ends_with(&[]));
    assert!(v.ends_with(&[2, 3]));
    assert!(!v.ends_with(&[2]));
    assert!(!v.ends_with(&[0, 1, 2, 3]));
}

#[test]
fn retain_keeps_order() {
    let mut v = Vec::<u8, 6>::from_slice(&[1, 2, 3, 4, 5, 6]).unwrap();
    v.retain(|x| x % 2 == 0);
    assert_eq!(v.as_slice(), &[2, 4, 6]);
    let mut seen = std::vec::Vec::new();
    v.retain(|x| {
        seen.push(*x);
        *x != 4
    });
    assert_eq!(seen, [2, 4, 6]);
    assert_eq!(v.as_slice(), &[2, 6]);
}

#[test]
fn retain_mut_changes_and_keeps() {
    let mut v = Vec::<u8, 4>::from_slice(&[1, 2, 3, 4]).unwrap();
    v.retain_mut(|x| {
        *x *= 10;
        *x != 20
    });
    assert_eq!(v.as_slice(), &[10, 30, 40]);
}

#[test]
fn into_array_needs_the_exact_length() {
    let v = Vec::<u8, 42>::from_slice(&[1, 2, 3, 5, 8]).unwrap();
    let array: [u8; 5] = v.into_array().unwrap();
    assert_eq!(array, [1, 2, 3, 5, 8]);
    let v = Vec::<u8, 42>::from_slice(&[1, 2, 3]).unwrap();
    let back = v.into_array::<4>().unwrap_err();
    assert_eq!(back.as_slice(), &[1, 2, 3]);
}

#[test]
fn into_iter_moves_items_out_in_order() {
    let v = Vec::<std::string::String, 3>::from_slice(&["a".to_string(), "b".to_string()])
        .unwrap();
    let mut it: IntoIter<std::string::String, 3> = v.into_iter();
    let mut rest = it.clone();
    assert_eq!(it.next(), Some("a".to_string()));
    assert_eq!(it.next(), Some("b".to_string()));
    assert_eq!(it.next(), None);
    assert_eq!(it.next(), None);
    assert_eq!(rest.next(), Some("a".to_string()));
}

#[test]
fn write_str_appends_bytes() {
    let mut v: Vec<u8, 6> = Vec::new();
    assert!(v.write_str("hé").is_ok());
    assert_eq!(v.as_slice(), &[0x68, 0xc3, 0xa9]);
    assert!(v.write_str("llo!").is_err());
    assert_eq!(v.len(), 3);
    assert!(v.write_str("llo").is_ok());
    assert_eq!(v.as_slice(), "héllo".as_bytes());
}

#[test]
fn slices_through_deref() {
    let mut v = Vec::<u8, 4>::from_slice(&[3, 1, 2]).unwrap();
    assert_eq!(v[0], 3);
    v[0] = 9;
    v.as_mut_slice()[1] = 8;
    assert_eq!(&v[..], &[9, 8, 2]);
    assert_eq!(v.iter().copied().max(), Some(9));
    assert_eq!(v.inner().len(), 3);
    assert_eq!(v.into_inner(), std::vec![9, 8, 2]);
}

#[test]
fn comparisons() {
    let a = Vec::<u8, 4>::from_slice(&[1, 2, 3]).unwrap();
    let b = Vec::<u8, 8>::from_slice(&[1, 2, 3]).unwrap();
    let c = Vec::<u8, 4>::from_slice(&[1, 2, 4]).unwrap();
    let d = Vec::<u8, 4>::from_slice(&[1, 2]).unwrap();
    assert!(a == b);
    assert!(a != c);
    assert!(a != d);
    assert!(a == [1u8, 2, 3]);
    assert!(a == &[1u8, 2, 3][..]);
    assert!(a == [1u8, 2, 3][..]);
    assert!(a != [1u8, 2][..]);
    assert!([1u8, 2, 3] == a);
    assert!([1u8, 2, 3][..] == a);
    assert!(a < c);
    assert!(d < a);
    assert!(b < c);
    assert!(b > d);
    assert!(b <= a && b >= a);
    assert_eq!(a.partial_cmp(&b), Some(std::cmp::Ordering::Equal));
    assert_eq!(c.partial_cmp(&b), Some(std::cmp::Ordering::Greater));
    let nan = Vec::<f32, 2>::from_slice(&[1.0, f32::NAN]).unwrap();
    let one = Vec::<f32, 2>::from_slice(&[1.0, 1.0]).unwrap();
    assert_eq!(nan.partial_cmp(&one), None);
    assert_eq!(one.partial_cmp(&nan), None);
    assert_eq!(a.clone(), a);
    let s: &[u8] = a.as_ref();
    assert_eq!(s, &[1, 2, 3]);
    assert_eq!(std::vec::Vec::from(a.clone()), std::vec![1, 2, 3]);
    assert_eq!(a.cmp(&c), std::cmp::Ordering::Less);
}

#[test]
fn try_from_a_buffer_needs_room() {
    let v = Vec::<u8, 3>::try_from(std::vec![1u8, 2, 3]).unwrap();
    assert_eq!(v.as_slice(), &[1, 2, 3]);
    let back = Vec::<u8, 2>::try_from(std::vec![1u8, 2, 3]).unwrap_err();
    assert_eq!(back, std::vec![1, 2, 3]);
}
