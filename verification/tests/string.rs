use mayheap::{String, Vec};

#[test]
fn from_utf8_rejects_a_lone_continuation_byte() {
    let bytes = Vec::<u8, 8>::from_slice(&[0x80]).unwrap();
    let err = String::<8>::from_utf8(bytes).unwrap_err();
    assert_eq!(err.valid_up_to(), 0);
    let bytes = Vec::<u8, 8>::from_slice(&[b'a', b'b', 0xff, b'c']).unwrap();
    assert_eq!(String::<8>::from_utf8(bytes).unwrap_err().valid_up_to(), 2);
    let truncated = Vec::<u8, 8>::from_slice(&[0xe2, 0x82]).unwrap();
    assert!(String::<8>::from_utf8(truncated).is_err());
}

#[test]
fn from_utf8_accepts_hello() {
    let bytes = Vec::<u8, 8>::from_slice("hello".as_bytes()).unwrap();
    let s = String::<8>::from_utf8(bytes).unwrap();
    assert!(s == "hello");
    assert_eq!(s.as_str(), "hello");
    assert_eq!(s.len(), 5);
    let bytes = Vec::<u8, 9>::from_slice("héllo€".as_bytes()).unwrap();
    let s = String::<9>::from_utf8(bytes).unwrap();
    assert_eq!(s.as_str(), "héllo€");
    assert_eq!(s.len(), 9);
    let s = String::<4>::from_utf8(Vec::new()).unwrap();
    assert!(s.is_empty());
}

#[test]
fn from_utf8_unchecked_keeps_the_text() {
    let bytes = Vec::<u8, 8>::from_slice("añb".as_bytes()).unwrap();
    let s = String::<8>::from_utf8_unchecked(bytes);
    assert_eq!(s.as_str(), "añb");
}

#[test]
fn into_bytes_gives_the_encoding() {
    let s = String::<8>::from_str("h€").unwrap();
    let bytes = s.clone().into_bytes();
    assert_eq!(bytes.as_slice(), &[0x68, 0xe2, 0x82, 0xac]);
    let again: Vec<u8, 8> = s.into();
    assert_eq!(again, bytes);
}

#[test]
fn new_string_is_empty_with_capacity_n() {
    let s: String<16> = String::new();
    assert!(s.is_empty());
    assert_eq!(s.len(), 0);
    assert_eq!(s.capacity(), 16);
    assert_eq!(String::<16>::default(), s);
}

#[test]
fn push_str_counts_bytes() {
    let mut s: String<5> = String::new();
    assert_eq!(s.push_str("ab"), Ok(()));
    assert_eq!(s.push_str("é"), Ok(()));
    assert_eq!(s.len(), 4);
    assert_eq!(s.push_str("é"), Err(()));
    assert_eq!(s.as_str(), "abé");
    assert_eq!(s.push_str(""), Ok(()));
    assert_eq!(s.push_str("c"), Ok(()));
    assert_eq!(s.push_str("d"), Err(()));
    assert_eq!(s.as_str(), "abéc");
}

#[test]
fn push_counts_the_width_of_the_character() {
    let mut s: String<7> = String::new();
    assert_eq!(s.push('a'), Ok(()));
    assert_eq!(s.push('é'), Ok(()));
    assert_eq!(s.push('€'), Ok(()));
    assert_eq!(s.len(), 6);
    assert_eq!(s.push('😀'), Err(()));
    assert_eq!(s.push('é'), Err(()));
    assert_eq!(s.push('z'), Ok(()));
    assert_eq!(s.push('z'), Err(()));
    assert_eq!(s.as_str(), "aé€z");
    let mut wide: String<4> = String::new();
    assert_eq!(wide.push('😀'), Ok(()));
    assert_eq!(wide.len(), 4);
}

#[test]
fn pop_gives_characters_back_last_first() {
    let mut s = String::<8>::from_str("a€é").unwrap();
    assert_eq!(s.pop(), Some('é'));
    assert_eq!(s.pop(), Some('€'));
    assert_eq!(s.len(), 1);
    assert_eq!(s.pop(), Some('a'));
    assert_eq!(s.pop(), None);
}

#[test]
fn truncate_cuts_at_byte_lengths() {
    let mut s = String::<8>::from_str("aé€").unwrap();
    s.truncate(100);
    assert_eq!(s.as_str(), "aé€");
    s.truncate(6);
    assert_eq!(s.as_str(), "aé€");
    s.truncate(3);
    assert_eq!(s.as_str(), "aé");
    s.truncate(0);
    assert_eq!(s.as_str(), "");
}

#[test]
fn remove_takes_the_character_at_a_byte_position() {
    let mut s = String::<8>::from_str("aé€b").unwrap();
    assert_eq!(s.remove(1), 'é');
    assert_eq!(s.as_str(), "a€b");
    assert_eq!(s.remove(4), 'b');
    assert_eq!(s.remove(0), 'a');
    assert_eq!(s.as_str(), "€");
    s.clear();
    assert!(s.is_empty());
}

#[test]
fn as_mut_str_changes_in_place() {
    let mut s = String::<8>::from_str("héllo").unwrap();
    s.as_mut_str().make_ascii_uppercase();
    assert_eq!(s.as_str(), "HéLLO");
    assert_eq!(s.len(), 6);
    assert!(s.starts_with("Hé"));
}

#[test]
fn from_str_and_try_from_need_room() {
    assert_eq!(String::<5>::from_str("hello").unwrap().as_str(), "hello");
    assert!(String::<4>::from_str("hello").is_err());
    assert_eq!(String::<16>::try_from("hello").unwrap().as_str(), "hello");
    assert!(String::<2>::try_from("é!!").is_err());
    assert_eq!(String::<0>::try_from("").unwrap().as_str(), "");
}

#[test]
fn from_iter_collects_characters() {
    let s = String::<8>::from_iter("a€b".chars());
    assert_eq!(s.as_str(), "a€b");
}

#[test]
fn write_str_and_write_char() {
    let mut s: String<4> = String::new();
    assert!(s.write_str("ab").is_ok());
    assert!(s.write_char('é').is_ok());
    assert!(s.write_char('c').is_err());
    assert!(s.write_str("cd").is_err());
    assert_eq!(s.as_str(), "abé");
}

#[test]
fn numbers_in_decimal() {
    assert_eq!(String::<4>::try_from(-128i8).unwrap().as_str(), "-128");
    assert!(String::<3>::try_from(-128i8).is_err());
    assert_eq!(String::<3>::try_from(127i8).unwrap().as_str(), "127");
    assert_eq!(String::<6>::try_from(-32768i16).unwrap().as_str(), "-32768");
    assert_eq!(String::<11>::try_from(i32::MIN).unwrap().as_str(), "-2147483648");
    assert!(String::<10>::try_from(i32::MIN).is_err());
    assert_eq!(String::<20>::try_from(i64::MIN).unwrap().as_str(), "-9223372036854775808");
    assert_eq!(String::<20>::try_from(i64::MAX).unwrap().as_str(), "9223372036854775807");
    assert_eq!(String::<1>::try_from(0u8).unwrap().as_str(), "0");
    assert_eq!(String::<3>::try_from(255u8).unwrap().as_str(), "255");
    assert!(String::<2>::try_from(255u8).is_err());
    assert_eq!(String::<5>::try_from(65535u16).unwrap().as_str(), "65535");
    assert_eq!(String::<10>::try_from(4294967295u32).unwrap().as_str(), "4294967295");
    assert_eq!(String::<20>::try_from(u64::MAX).unwrap().as_str(), "18446744073709551615");
    assert!(String::<19>::try_from(u64::MAX).is_err());
    assert_eq!(String::<4>::try_from(1000u32).unwrap().as_str(), "1000");
    assert_eq!(String::<2>::try_from(-7i64).unwrap().as_str(), "-7");
    assert_eq!(String::<2>::try_from(10i32).unwrap().as_str(), "10");
}

#[test]
fn string_comparisons() {
    let a = String::<8>::from_str("abc").unwrap();
    let b = String::<16>::from_str("abc").unwrap();
    let c = String::<8>::from_str("abd").unwrap();
    assert!(a == b);
    assert!(a != c);
    assert!(a == "abc");
    assert!(a == *"abc");
    assert!(a != "ab");
    assert!("abc" == a);
    assert!(*"abc" == a);
    assert!(a < c);
    assert!(b < c);
    assert!(c > b);
    assert_eq!(a.partial_cmp(&b), Some(std::cmp::Ordering::Equal));
    assert!(String::<8>::from_str("ab").unwrap() < a);
    assert!(String::<8>::from_str("z").unwrap() < String::<8>::from_str("é").unwrap());
    assert_eq!(a.cmp(&c), std::cmp::Ordering::Less);
    assert_eq!(a.clone(), a);
    assert_eq!(&a[1..], "bc");
    let text: &str = a.as_ref();
    assert_eq!(text, "abc");
    assert_eq!("abc".parse::<String<3>>().unwrap(), a);
    assert!("abcd".parse::<String<3>>().is_err());
    assert_eq!(std::string::String::from(a), "abc");
}

#[test]
fn try_from_a_text_buffer_needs_room() {
    let s = String::<4>::try_from("a€".to_string()).unwrap();
    assert_eq!(s.as_str(), "a€");
    let back = String::<4>::try_from("a€b".to_string()).unwrap_err();
    assert_eq!(back, "a€b");
}
