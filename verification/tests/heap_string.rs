use mayheap::heap::{String, Vec};

#[test]
fn heap_from_utf8_checks_validity() {
    let bytes = Vec::<u8, 1>::from_slice(&[0x80]).unwrap();
    assert!(String::<1>::from_utf8(bytes).is_err());
    let bytes = Vec::<u8, 1>::from_slice("hello".as_bytes()).unwrap();
    let s = String::<1>::from_utf8(bytes).unwrap();
    assert!(s == "hello");
}

#[test]
fn heap_string_never_runs_out_of_room() {
    let mut s: String<2> = String::new();
    assert!(s.capacity() >= 2);
    assert_eq!(s.push_str("hello"), Ok(()));
    assert_eq!(s.push('€'), Ok(()));
    assert!(s.write_str(" wor").is_ok());
    assert!(s.write_char('l').is_ok());
    assert_eq!(s.as_str(), "hello€ worl");
    assert_eq!(s.len(), 13);
    assert!(s.capacity() >= 13);
    assert_eq!(String::<0>::from_str("abc").unwrap().as_str(), "abc");
    assert_eq!(String::<0>::try_from("abc").unwrap().as_str(), "abc");
    assert_eq!(String::<1>::try_from(i64::MIN).unwrap().as_str(), "-9223372036854775808");
    assert_eq!(String::<1>::try_from(255u8).unwrap().as_str(), "255");
    assert_eq!(String::<1>::from_iter("xyz".chars()).as_str(), "xyz");
}

#[test]
fn heap_string_operations_agree_with_the_fixed_ones() {
    let mut s = String::<1>::from_str("aé€b").unwrap();
    assert_eq!(s.remove(1), 'é');
    assert_eq!(s.pop(), Some('b'));
    s.truncate(1);
    assert_eq!(s.as_str(), "a");
    s.as_mut_str().make_ascii_uppercase();
    assert_eq!(s.as_str(), "A");
    assert_eq!(s.clone().into_bytes().as_slice(), b"A");
    let bytes: Vec<u8, 1> = s.clone().into();
    assert_eq!(bytes.as_slice(), b"A");
    assert_eq!(std::string::String::from(s.clone()), "A");
    let back: String<1> = String::from("Zz".to_string());
    assert_eq!(back.as_str(), "Zz");
    s.clear();
    assert!(s.is_empty());
    assert_eq!(s.pop(), None);
    assert_eq!(String::<4>::from_utf8_unchecked(Vec::from_slice(b"ok").unwrap()).as_str(), "ok");
}
