use mayheap::{String, Vec};

struct Steps(u64);

impl Steps {
    fn next(&mut self, bound: usize) -> usize {
        self.0 = self.0.wrapping_mul(6364136223846793005).wrapping_add(1442695040888963407);
        ((self.0 >> 33) as usize) % bound
    }
}

fn same_vec<const N: usize>(ours: &Vec<u8, N>, theirs: &heapless::Vec<u8, N>) {
    assert_eq!(ours.as_slice(), theirs.as_slice());
    assert_eq!(ours.len(), theirs.len());
    assert_eq!(ours.capacity(), theirs.capacity());
    assert_eq!(ours.is_full(), theirs.is_full());
    assert_eq!(ours.is_empty(), theirs.is_empty());
}

fn walk_vec<const N: usize>(seed: u64) {
    let mut steps = Steps(seed);
    let mut ours: Vec<u8, N> = Vec::new();
    let mut theirs: heapless::Vec<u8, N> = heapless::Vec::new();
    for _ in 0..400 {
        let value = steps.next(256) as u8;
        match steps.next(12) {
            0 | 1 | 2 => assert_eq!(ours.push(value), theirs.push(value)),
            3 => assert_eq!(ours.pop(), theirs.pop()),
            4 => {
                let index = steps.next(ours.len() + 1);
                assert_eq!(ours.insert(index, value), theirs.insert(index, value));
            }
            5 => {
                if !ours.is_empty() {
                    let index = steps.next(ours.len());
                    assert_eq!(ours.remove(index), theirs.remove(index));
                }
            }
            6 => {
                if !ours.is_empty() {
                    let index = steps.next(ours.len());
                    assert_eq!(ours.swap_remove(index), theirs.swap_remove(index));
                }
            }
            7 => {
                let len = steps.next(N + 2);
                ours.truncate(len);
                theirs.truncate(len);
            }
            8 => {
                let more = [value, value.wrapping_add(1), value.wrapping_add(2)];
                let take = steps.next(4);
                assert_eq!(
                    ours.extend_from_slice(&more[..take]).is_ok(),
                    theirs.extend_from_slice(&more[..take]).is_ok()
                );
            }
            9 => {
                let len = steps.next(N + 3);
                assert_eq!(ours.resize(len, value).is_ok(), theirs.resize(len, value).is_ok());
            }
            10 => {
                ours.retain(|x| x % 3 != value % 3);
                theirs.retain(|x| x % 3 != value % 3);
            }
            _ => {
                let needle = [value];
                assert_eq!(ours.starts_with(&needle), theirs.starts_with(&needle));
                assert_eq!(ours.ends_with(&needle), theirs.ends_with(&needle));
                if steps.next(8) == 0 {
                    ours.clear();
                    theirs.clear();
                }
            }
        }
        same_vec(&ours, &theirs);
    }
}

#[test]
fn vec_agrees_with_the_inline_buffer() {
    walk_vec::<0>(1);
    walk_vec::<1>(2);
    walk_vec::<3>(3);
    walk_vec::<8>(4);
    walk_vec::<8>(5);
    walk_vec::<32>(6);
}

fn walk_string<const N: usize>(seed: u64) {
    let letters = ['a', 'z', 'é', 'ß', '€', '한', '😀', '0'];
    let words = ["", "ab", "é€", "😀!", "hello"];
    let mut steps = Steps(seed);
    let mut ours: String<N> = String::new();
    let mut theirs: heapless::String<N> = heapless::String::new();
    for _ in 0..400 {
        match steps.next(8) {
            0 | 1 => {
                let c = letters[steps.next(letters.len())];
                assert_eq!(ours.push(c), theirs.push(c));
            }
            2 | 3 => {
                let word = words[steps.next(words.len())];
                assert_eq!(ours.push_str(word), theirs.push_str(word));
            }
            4 => assert_eq!(ours.pop(), theirs.pop()),
            5 => {
                let at = steps.next(N + 2);
                if at > theirs.len() || theirs.is_char_boundary(at) {
                    ours.truncate(at);
                    theirs.truncate(at);
                }
            }
            6 => {
                if !theirs.is_empty() {
                    let at = steps.next(theirs.len());
                    if theirs.is_char_boundary(at) {
                        assert_eq!(ours.remove(at), theirs.remove(at));
                    }
                }
            }
            _ => {
                if steps.next(6) == 0 {
                    ours.clear();
                    theirs.clear();
                }
            }
        }
        assert_eq!(ours.as_str(), theirs.as_str());
        assert_eq!(ours.len(), theirs.len());
        assert_eq!(ours.capacity(), theirs.capacity());
    }
    let bytes = ours.clone().into_bytes();
    assert_eq!(bytes.as_slice(), theirs.clone().into_bytes().as_slice());
}

#[test]
fn string_agrees_with_the_inline_buffer() {
    walk_string::<0>(11);
    walk_string::<1>(12);
    walk_string::<4>(13);
    walk_string::<7>(14);
    walk_string::<16>(15);
    walk_string::<64>(16);
}

#[test]
fn from_utf8_agrees_with_the_inline_buffer() {
    let samples: [&[u8]; 8] = [
        b"",
        b"hello",
        &[0x80],
        &[0xc3, 0xa9],
        &[0xc3],
        &[0xe2, 0x82, 0xac, 0x41],
        &[0xed, 0xa0, 0x80],
        &[0xf0, 0x9f, 0x98, 0x80],
    ];
    for sample in samples {
        let ours = String::<8>::from_utf8(Vec::from_slice(sample).unwrap());
        let theirs = heapless::String::<8>::from_utf8(heapless::Vec::from_slice(sample).unwrap());
        assert_eq!(ours.is_ok(), theirs.is_ok());
        match (ours, theirs) {
            (Ok(a), Ok(b)) => assert_eq!(a.as_str(), b.as_str()),
            (Err(a), Err(b)) => assert_eq!(a, b),
            _ => unreachable!(),
        }
    }
}

#[test]
fn numbers_agree_with_the_inline_buffer() {
    let numbers: [i64; 9] = [0, 1, -1, 9, 10, -10, 12345, i64::MAX, i64::MIN];
    for n in numbers {
        let ours = String::<20>::try_from(n).unwrap();
        let theirs = heapless::String::<20>::try_from(n).unwrap();
        assert_eq!(ours.as_str(), theirs.as_str());
        assert_eq!(String::<3>::try_from(n).is_ok(), heapless::String::<3>::try_from(n).is_ok());
    }
    for n in [0u8, 7, 99, 100, 255] {
        assert_eq!(
            String::<3>::try_from(n).unwrap().as_str(),
            heapless::String::<3>::try_from(n).unwrap().as_str()
        );
        assert_eq!(String::<2>::try_from(n).is_ok(), heapless::String::<2>::try_from(n).is_ok());
    }
}
