//! A UTF-8 encoded, growable string on the heap, with a capacity hint.
use crate::heap::vec::Vec;
use crate::vec::{order_of_items, order_of_slices};
use core::cmp::Ordering;
use crate::string::{
    byte_len, decimal_string, decimal_text, lemma_encode_push, magnitude_of, removed_at,
    same_text,
};
use vstd::prelude::*;
use vstd::std_specs::cmp::{PartialEqSpec, PartialOrdSpec};
use vstd::std_specs::iter::IteratorSpec;
use vstd::string::StringSliceAdditionalSpecFns;
use vstd::utf8::{decode_utf8, encode_scalar, encode_utf8, is_char_boundary, valid_utf8};

verus! {

/// `String::with_capacity`: an empty string, with room reserved for
/// `capacity` bytes.
pub assume_specification[ std::string::String::with_capacity ](capacity: usize) -> (s:
    std::string::String)
    ensures
        s@ == Seq::<char>::empty(),
;

/// `String::capacity`: the number of bytes that the string has room for
/// without allocating again. It is never less than the length of the
/// encoding; beyond that it is up to the allocator.
pub assume_specification[ std::string::String::capacity ](s: &std::string::String) -> (n: usize)
    ensures
        n >= encode_utf8(s@).len(),
;

/// A string of UTF-8 encoded text on the heap. `N` is the number of bytes
/// for which room is reserved when the string is made; it limits nothing
/// afterwards.
///
/// Its view is the sequence of its characters. The operations that can fail
/// for want of room on a string of fixed capacity have the same signatures
/// here and always succeed.
#[derive(Debug, Hash, Ord)]
pub struct String<const N: usize> {
    text: std::string::String,
}

impl<const N: usize> View for String<N> {
    type V = Seq<char>;

    closed spec fn view(&self) -> Seq<char> {
        self.text@
    }
}

impl<const N: usize> String<N> {
    /// The UTF-8 encoding of the text.
    pub open spec fn bytes(&self) -> Seq<u8> {
        encode_utf8(self@)
    }

    /// Constructs a new, empty string with room reserved for `N` bytes.
    pub fn new() -> (s: Self)
        ensures
            s@ == Seq::<char>::empty(),
    {
        String { text: std::string::String::with_capacity(N) }
    }

    /// Converts UTF-8 bytes into a string. Fails exactly when the bytes are
    /// not well-formed UTF-8.
    pub fn from_utf8(vec: Vec<u8, N>) -> (r: Result<Self, core::str::Utf8Error>)
        ensures
            r is Ok <==> valid_utf8(vec@),
            r is Ok ==> r->Ok_0@ == decode_utf8(vec@) && r->Ok_0.bytes() == vec@,
    {
        match core::str::from_utf8(vec.as_slice()) {
            Ok(text) => {
                proof {
                    vstd::utf8::decode_utf8_encode_utf8(vec@);
                }
                Ok(String { text: text.to_owned() })
            },
            Err(e) => Err(e),
        }
    }

    /// Converts UTF-8 bytes into a string. The caller shows that the bytes
    /// are well-formed UTF-8.
    pub fn from_utf8_unchecked(vec: Vec<u8, N>) -> (s: Self)
        requires
            valid_utf8(vec@),
        ensures
            s@ == decode_utf8(vec@),
            s.bytes() == vec@,
    {
        match Self::from_utf8(vec) {
            Ok(s) => s,
            Err(_) => Self::new(),
        }
    }

    /// Converts the string into the bytes of its encoding.
    pub fn into_bytes(self) -> (vec: Vec<u8, N>)
        ensures
            vec@ == self.bytes(),
    {
        let bytes = self.text.as_str().as_bytes_vec();
        let mut vec = Vec::new();
        vec.extend(bytes.into_iter());
        vec
    }

    /// Extracts a string slice containing the entire string.
    pub fn as_str(&self) -> (s: &str)
        ensures
            s@ == self@,
    {
        self.text.as_str()
    }

    /// The text, for changes in place. Such changes keep the length of the
    /// encoding.
    pub fn as_mut_str(&mut self) -> (s: &mut str)
        ensures
            s@ == old(self)@,
            final(self)@ == final(s)@,
            final(self).bytes().len() == old(self).bytes().len(),
    {
        self.text.as_mut_str()
    }

    /// The length of the encoding, in bytes.
    pub fn len(&self) -> (n: usize)
        ensures
            n == self.bytes().len(),
    {
        byte_len(self.text.as_str())
    }

    /// Whether the string holds no character.
    pub fn is_empty(&self) -> (b: bool)
        ensures
            b == (self@.len() == 0),
    {
        self.text.as_str().is_empty()
    }

    /// Appends `string`. Always succeeds.
    pub fn push_str(&mut self, string: &str) -> (r: Result<(), ()>)
        ensures
            r is Ok,
            final(self)@ == old(self)@ + string@,
    {
        self.text.append(string);
        Ok(())
    }

    /// The number of bytes that the string has room for at present. It is
    /// never less than the length of the encoding.
    pub fn capacity(&self) -> (n: usize)
        ensures
            n >= self.bytes().len(),
    {
        self.text.capacity()
    }

    /// Appends the character `c`. Always succeeds.
    pub fn push(&mut self, c: char) -> (r: Result<(), ()>)
        ensures
            r is Ok,
            final(self)@ == old(self)@.push(c),
    {
        self.text.push(c);
        Ok(())
    }

    /// Cuts the encoding to its first `new_len` bytes; does nothing when it
    /// is no longer than that. Where it cuts, `new_len` lies on a character
    /// boundary.
    pub fn truncate(&mut self, new_len: usize)
        requires
            new_len <= old(self).bytes().len() ==> is_char_boundary(
                old(self).bytes(),
                new_len as int,
            ),
        ensures
            final(self).bytes() == if new_len <= old(self).bytes().len() {
                old(self).bytes().take(new_len as int)
            } else {
                old(self).bytes()
            },
    {
        self.text.truncate(new_len);
    }

    /// Removes the last character and returns it, or `None` if there is
    /// none.
    pub fn pop(&mut self) -> (r: Option<char>)
        ensures
            old(self)@.len() > 0 ==> r == Some(old(self)@.last()) && final(self)@ == old(
                self,
            )@.drop_last(),
            old(self)@.len() == 0 ==> r == None::<char> && final(self)@ == old(self)@,
            final(self).bytes().len() <= old(self).bytes().len(),
    {
        let r = self.text.pop();
        proof {
            if old(self)@.len() > 0 {
                lemma_encode_push(old(self)@.drop_last(), old(self)@.last());
                assert(old(self)@.drop_last().push(old(self)@.last()) =~= old(self)@);
            }
        }
        r
    }

    /// Removes the character whose encoding starts at byte `index`, and
    /// returns it.
    pub fn remove(&mut self, index: usize) -> (c: char)
        requires
            index < old(self).bytes().len(),
            is_char_boundary(old(self).bytes(), index as int),
        ensures
            removed_at(old(self).bytes(), index as int, c, final(self).bytes()),
    {
        self.text.remove(index)
    }

    /// Removes all characters.
    pub fn clear(&mut self)
        ensures
            final(self)@ == Seq::<char>::empty(),
    {
        self.text.clear();
    }
}

impl<const N: usize> String<N> {
    /// Copies `s` into a new string. Always succeeds.
    pub fn from_str(s: &str) -> (r: Result<Self, ()>)
        ensures
            r is Ok,
            r->Ok_0@ == s@,
    {
        let mut new = Self::new();
        match new.push_str(s) {
            Ok(()) => {
                assert(new@ =~= s@);
                Ok(new)
            },
            Err(()) => Err(()),
        }
    }

    /// The number with the given sign and magnitude, written in decimal.
    pub(crate) fn from_decimal(negative: bool, magnitude: u64) -> (r: Result<Self, ()>)
        requires
            negative ==> magnitude > 0,
        ensures
            r is Ok,
            r->Ok_0@ == decimal_text(
                if negative {
                    -(magnitude as int)
                } else {
                    magnitude as int
                },
            ),
    {
        Ok(String { text: decimal_string(negative, magnitude) })
    }

    /// Collects the characters that `iter` yields, in order.
    pub fn from_iter<I>(iter: I) -> (s: Self) where I: Iterator<Item = char>
        requires
            iter.obeys_prophetic_iter_laws(),
            iter.decrease() is Some,
        ensures
            s@ == iter.remaining(),
    {
        let mut s = Self::new();
        let mut iter = iter;
        let ghost all = iter.remaining();
        loop
            invariant
                iter.obeys_prophetic_iter_laws(),
                iter.decrease() is Some,
                s@ + iter.remaining() == all,
            ensures
                s@ == all,
            decreases iter.decrease()->0,
        {
            let ghost before = s@;
            let ghost pending = iter.remaining();
            match iter.next() {
                Some(c) => {
                    let _ = s.push(c);
                    assert(s@ + iter.remaining() =~= before + pending);
                },
                None => {
                    assert(s@ + iter.remaining() =~= s@);
                    break ;
                },
            }
        }
        s
    }

    /// Appends `s`. Always succeeds.
    pub fn write_str(&mut self, s: &str) -> (r: Result<(), core::fmt::Error>)
        ensures
            r is Ok,
            final(self)@ == old(self)@ + s@,
    {
        match self.push_str(s) {
            Ok(()) => Ok(()),
            Err(()) => Err(core::fmt::Error),
        }
    }

    /// Appends the character `c`. Always succeeds.
    pub fn write_char(&mut self, c: char) -> (r: Result<(), core::fmt::Error>)
        ensures
            r is Ok,
            final(self)@ == old(self)@.push(c),
    {
        match self.push(c) {
            Ok(()) => Ok(()),
            Err(()) => Err(core::fmt::Error),
        }
    }
}

impl<const N: usize> Default for String<N> {
    fn default() -> (s: Self)
        ensures
            s@ == Seq::<char>::empty(),
    {
        Self::new()
    }
}

impl<const N: usize> Clone for String<N> {
    fn clone(&self) -> (s: Self)
        ensures
            s@ == self@,
    {
        String { text: self.text.clone() }
    }
}

impl<const N: usize> core::ops::Deref for String<N> {
    type Target = str;

    fn deref(&self) -> (s: &str)
        ensures
            s@ == self@,
    {
        self.as_str()
    }
}

impl<const N: usize> core::ops::DerefMut for String<N> {
    fn deref_mut(&mut self) -> (s: &mut str)
        ensures
            s@ == old(self)@,
            final(self)@ == final(s)@,
    {
        self.as_mut_str()
    }
}

impl<const N1: usize, const N2: usize> PartialEq<String<N2>> for String<N1> {
    fn eq(&self, other: &String<N2>) -> (b: bool) {
        same_text(self.text.as_str(), other.text.as_str())
    }
}

impl<const N1: usize, const N2: usize> vstd::std_specs::cmp::PartialEqSpecImpl<String<N2>> for String<N1> {
    open spec fn obeys_eq_spec() -> bool {
        true
    }

    open spec fn eq_spec(&self, other: &String<N2>) -> bool {
        self@ == other@
    }
}

impl<const N: usize> PartialEq<str> for String<N> {
    fn eq(&self, other: &str) -> (b: bool) {
        same_text(self.text.as_str(), other)
    }
}

impl<const N: usize> vstd::std_specs::cmp::PartialEqSpecImpl<str> for String<N> {
    open spec fn obeys_eq_spec() -> bool {
        true
    }

    open spec fn eq_spec(&self, other: &str) -> bool {
        self@ == other@
    }
}

impl<'a, const N: usize> PartialEq<&'a str> for String<N> {
    fn eq(&self, other: &&'a str) -> (b: bool) {
        same_text(self.text.as_str(), *other)
    }
}

impl<'a, const N: usize> vstd::std_specs::cmp::PartialEqSpecImpl<&'a str> for String<N> {
    open spec fn obeys_eq_spec() -> bool {
        true
    }

    open spec fn eq_spec(&self, other: &&'a str) -> bool {
        self@ == other@
    }
}

impl<const N: usize> PartialEq<String<N>> for str {
    fn eq(&self, other: &String<N>) -> (b: bool) {
        same_text(self, other.text.as_str())
    }
}

impl<const N: usize> vstd::std_specs::cmp::PartialEqSpecImpl<String<N>> for str {
    open spec fn obeys_eq_spec() -> bool {
        true
    }

    open spec fn eq_spec(&self, other: &String<N>) -> bool {
        self@ == other@
    }
}

impl<'a, const N: usize> PartialEq<String<N>> for &'a str {
    fn eq(&self, other: &String<N>) -> (b: bool) {
        same_text(*self, other.text.as_str())
    }
}

impl<'a, const N: usize> vstd::std_specs::cmp::PartialEqSpecImpl<String<N>> for &'a str {
    open spec fn obeys_eq_spec() -> bool {
        true
    }

    open spec fn eq_spec(&self, other: &String<N>) -> bool {
        self@ == other@
    }
}

impl<const N: usize> AsRef<str> for String<N> {
    fn as_ref(&self) -> (s: &str)
        ensures
            s@ == self@,
    {
        self.as_str()
    }
}

impl<const N: usize> core::str::FromStr for String<N> {
    type Err = ();

    fn from_str(s: &str) -> (r: Result<Self, ()>)
        ensures
            r is Ok,
            r->Ok_0@ == s@,
    {
        String::<N>::from_str(s)
    }
}

impl<const N: usize> From<String<N>> for std::string::String {
    fn from(s: String<N>) -> (text: Self)
        ensures
            text@ == s@,
    {
        s.text
    }
}

impl<const N: usize> vstd::std_specs::convert::FromSpecImpl<String<N>> for std::string::String {
    open spec fn obeys_from_spec() -> bool {
        true
    }

    closed spec fn from_spec(s: String<N>) -> Self {
        s.text
    }
}

/// Strings are ordered as the byte sequences of their encodings are.
impl<const N1: usize, const N2: usize> PartialOrd<String<N2>> for String<N1> {
    fn partial_cmp(&self, other: &String<N2>) -> (r: Option<Ordering>) {
        order_of_slices(self.text.as_str().as_bytes(), other.text.as_str().as_bytes())
    }
}

impl<const N1: usize, const N2: usize> vstd::std_specs::cmp::PartialOrdSpecImpl<String<N2>> for String<N1> {
    open spec fn obeys_partial_cmp_spec() -> bool {
        true
    }

    open spec fn partial_cmp_spec(&self, other: &String<N2>) -> Option<Ordering> {
        order_of_items(self.bytes(), other.bytes())
    }
}

impl<const N: usize> From<std::string::String> for String<N> {
    fn from(text: std::string::String) -> (s: Self)
        ensures
            s@ == text@,
    {
        String { text }
    }
}

impl<const N: usize> vstd::std_specs::convert::FromSpecImpl<std::string::String> for String<N> {
    open spec fn obeys_from_spec() -> bool {
        true
    }

    closed spec fn from_spec(text: std::string::String) -> Self {
        String { text }
    }
}

impl<const N: usize> Eq for String<N> {

}

impl<'a, const N: usize> TryFrom<&'a str> for String<N> {
    type Error = ();

    fn try_from(s: &'a str) -> (r: Result<Self, ()>)
        ensures
            r is Ok,
            r->Ok_0@ == s@,
    {
        Self::from_str(s)
    }
}

/// A string is not given by its text alone, so no function of the text
/// gives the result: the contract of `try_from` itself says what holds.
impl<'a, const N: usize> vstd::std_specs::convert::TryFromSpecImpl<&'a str> for String<N> {
    open spec fn obeys_try_from_spec() -> bool {
        false
    }

    open spec fn try_from_spec(s: &'a str) -> Result<Self, ()> {
        arbitrary()
    }
}

/// Writes the number in decimal. Always succeeds.
impl<const N: usize> TryFrom<i8> for String<N> {
    type Error = ();

    fn try_from(n: i8) -> (r: Result<Self, ()>)
        ensures
            r is Ok,
            r->Ok_0@ == decimal_text(n as int),
    {
        Self::from_decimal(n < 0, magnitude_of(n as i64))
    }
}

impl<const N: usize> vstd::std_specs::convert::TryFromSpecImpl<i8> for String<N> {
    open spec fn obeys_try_from_spec() -> bool {
        false
    }

    open spec fn try_from_spec(n: i8) -> Result<Self, ()> {
        arbitrary()
    }
}

/// Writes the number in decimal. Always succeeds.
impl<const N: usize> TryFrom<i16> for String<N> {
    type Error = ();

    fn try_from(n: i16) -> (r: Result<Self, ()>)
        ensures
            r is Ok,
            r->Ok_0@ == decimal_text(n as int),
    {
        Self::from_decimal(n < 0, magnitude_of(n as i64))
    }
}

impl<const N: usize> vstd::std_specs::convert::TryFromSpecImpl<i16> for String<N> {
    open spec fn obeys_try_from_spec() -> bool {
        false
    }

    open spec fn try_from_spec(n: i16) -> Result<Self, ()> {
        arbitrary()
    }
}

/// Writes the number in decimal. Always succeeds.
impl<const N: usize> TryFrom<i32> for String<N> {
    type Error = ();

    fn try_from(n: i32) -> (r: Result<Self, ()>)
        ensures
            r is Ok,
            r->Ok_0@ == decimal_text(n as int),
    {
        Self::from_decimal(n < 0, magnitude_of(n as i64))
    }
}

impl<const N: usize> vstd::std_specs::convert::TryFromSpecImpl<i32> for String<N> {
    open spec fn obeys_try_from_spec() -> bool {
        false
    }

    open spec fn try_from_spec(n: i32) -> Result<Self, ()> {
        arbitrary()
    }
}

/// Writes the number in decimal. Always succeeds.
impl<const N: usize> TryFrom<i64> for String<N> {
    type Error = ();

    fn try_from(n: i64) -> (r: Result<Self, ()>)
        ensures
            r is Ok,
            r->Ok_0@ == decimal_text(n as int),
    {
        Self::from_decimal(n < 0, magnitude_of(n))
    }
}

impl<const N: usize> vstd::std_specs::convert::TryFromSpecImpl<i64> for String<N> {
    open spec fn obeys_try_from_spec() -> bool {
        false
    }

    open spec fn try_from_spec(n: i64) -> Result<Self, ()> {
        arbitrary()
    }
}

/// Writes the number in decimal. Always succeeds.
impl<const N: usize> TryFrom<u8> for String<N> {
    type Error = ();

    fn try_from(n: u8) -> (r: Result<Self, ()>)
        ensures
            r is Ok,
            r->Ok_0@ == decimal_text(n as int),
    {
        Self::from_decimal(false, n as u64)
    }
}

impl<const N: usize> vstd::std_specs::convert::TryFromSpecImpl<u8> for String<N> {
    open spec fn obeys_try_from_spec() -> bool {
        false
    }

    open spec fn try_from_spec(n: u8) -> Result<Self, ()> {
        arbitrary()
    }
}

/// Writes the number in decimal. Always succeeds.
impl<const N: usize> TryFrom<u16> for String<N> {
    type Error = ();

    fn try_from(n: u16) -> (r: Result<Self, ()>)
        ensures
            r is Ok,
            r->Ok_0@ == decimal_text(n as int),
    {
        Self::from_decimal(false, n as u64)
    }
}

impl<const N: usize> vstd::std_specs::convert::TryFromSpecImpl<u16> for String<N> {
    open spec fn obeys_try_from_spec() -> bool {
        false
    }

    open spec fn try_from_spec(n: u16) -> Result<Self, ()> {
        arbitrary()
    }
}

/// Writes the number in decimal. Always succeeds.
impl<const N: usize> TryFrom<u32> for String<N> {
    type Error = ();

    fn try_from(n: u32) -> (r: Result<Self, ()>)
        ensures
            r is Ok,
            r->Ok_0@ == decimal_text(n as int),
    {
        Self::from_decimal(false, n as u64)
    }
}

impl<const N: usize> vstd::std_specs::convert::TryFromSpecImpl<u32> for String<N> {
    open spec fn obeys_try_from_spec() -> bool {
        false
    }

    open spec fn try_from_spec(n: u32) -> Result<Self, ()> {
        arbitrary()
    }
}

/// Writes the number in decimal. Always succeeds.
impl<const N: usize> TryFrom<u64> for String<N> {
    type Error = ();

    fn try_from(n: u64) -> (r: Result<Self, ()>)
        ensures
            r is Ok,
            r->Ok_0@ == decimal_text(n as int),
    {
        Self::from_decimal(false, n)
    }
}

impl<const N: usize> vstd::std_specs::convert::TryFromSpecImpl<u64> for String<N> {
    open spec fn obeys_try_from_spec() -> bool {
        false
    }

    open spec fn try_from_spec(n: u64) -> Result<Self, ()> {
        arbitrary()
    }
}

impl<const N: usize> From<String<N>> for Vec<u8, N> {
    fn from(s: String<N>) -> (vec: Self)
        ensures
            vec@ == s.bytes(),
    {
        s.into_bytes()
    }
}

impl<const N: usize> vstd::std_specs::convert::FromSpecImpl<String<N>> for Vec<u8, N> {
    open spec fn obeys_from_spec() -> bool {
        false
    }

    open spec fn from_spec(s: String<N>) -> Self {
        arbitrary()
    }
}


} // verus!
