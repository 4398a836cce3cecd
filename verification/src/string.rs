//! A UTF-8 encoded, growable string with a fixed capacity.
use crate::vec::{order_of_items, order_of_slices, slices_equal, Vec};
use core::cmp::Ordering;
use vstd::prelude::*;
use vstd::std_specs::cmp::{PartialEqSpec, PartialOrdSpec};
use vstd::std_specs::iter::IteratorSpec;
use vstd::string::StringSliceAdditionalSpecFns;
use vstd::utf8::{decode_utf8, encode_scalar, encode_utf8, is_char_boundary, valid_utf8};

verus! {

/// `core::str::from_utf8`: succeeds exactly on the byte sequences that are
/// well-formed UTF-8, and then gives the text that the bytes encode.
pub assume_specification[ core::str::from_utf8 ](bytes: &[u8]) -> (r: Result<
    &str,
    core::str::Utf8Error,
>)
    ensures
        r is Ok <==> valid_utf8(bytes@),
        r is Ok ==> r->Ok_0@ == decode_utf8(bytes@),
;

/// `char::len_utf8`: the number of bytes of the character's UTF-8 encoding.
pub assume_specification[ char::len_utf8 ](c: char) -> (n: usize)
    ensures
        n == encode_scalar(c as u32).len(),
;

/// `String::push`: appends one character.
pub assume_specification[ std::string::String::push ](s: &mut std::string::String, c: char)
    ensures
        final(s)@ == old(s)@.push(c),
;

/// `String::pop`: removes the last character and returns it, or returns
/// `None` and changes nothing when the string is empty.
pub assume_specification[ std::string::String::pop ](s: &mut std::string::String) -> (r: Option<
    char,
>)
    ensures
        old(s)@.len() > 0 ==> r == Some(old(s)@.last()) && final(s)@ == old(s)@.drop_last(),
        old(s)@.len() == 0 ==> r == None::<char> && final(s)@ == old(s)@,
;

/// `String::truncate`: keeps the first `new_len` bytes of the encoding; has
/// no effect when the string is no longer than that. It panics when
/// `new_len` does not lie on a character boundary.
pub assume_specification[ std::string::String::truncate ](
    s: &mut std::string::String,
    new_len: usize,
)
    requires
        new_len <= encode_utf8(old(s)@).len() ==> is_char_boundary(
            encode_utf8(old(s)@),
            new_len as int,
        ),
    ensures
        new_len <= encode_utf8(old(s)@).len() ==> encode_utf8(final(s)@) == encode_utf8(
            old(s)@,
        ).take(new_len as int),
        new_len > encode_utf8(old(s)@).len() ==> final(s)@ == old(s)@,
;

/// `String::remove`: removes the character whose encoding starts at byte
/// `index` and returns it. It panics when `index` is not below the length
/// in bytes or does not lie on a character boundary.
pub assume_specification[ std::string::String::remove ](
    s: &mut std::string::String,
    index: usize,
) -> (c: char)
    requires
        index < encode_utf8(old(s)@).len(),
        is_char_boundary(encode_utf8(old(s)@), index as int),
    ensures
        removed_at(encode_utf8(old(s)@), index as int, c, encode_utf8(final(s)@)),
;

/// `String::clear`: removes all characters.
pub assume_specification[ std::string::String::clear ](s: &mut std::string::String)
    ensures
        final(s)@ == Seq::<char>::empty(),
;

/// `String::as_mut_str`: the text, for changes in place. Such changes keep
/// the number of bytes of the encoding.
pub assume_specification[ std::string::String::as_mut_str ](s: &mut std::string::String) -> (r:
    &mut str)
    ensures
        r@ == old(s)@,
        final(s)@ == final(r)@,
        encode_utf8(final(r)@).len() == encode_utf8(r@).len(),
;

/// `after` is `before` without the encoding of `c`, which started at byte
/// `index` of `before`.
pub open spec fn removed_at(before: Seq<u8>, index: int, c: char, after: Seq<u8>) -> bool {
    let width = encode_scalar(c as u32).len();
    &&& 0 <= index
    &&& index + width <= before.len()
    &&& before.subrange(index, index + width) == encode_scalar(c as u32)
    &&& after == before.take(index) + before.skip(index + width)
}

/// The encoding of two texts put together is their encodings put together.
pub proof fn lemma_encode_concat(a: Seq<char>, b: Seq<char>)
    ensures
        encode_utf8(a + b) == encode_utf8(a) + encode_utf8(b),
    decreases a.len(),
{
    if a.len() == 0 {
        assert(a + b =~= b);
        assert(encode_utf8(a) + encode_utf8(b) =~= encode_utf8(b));
    } else {
        lemma_encode_concat(a.drop_first(), b);
        assert((a + b).drop_first() =~= a.drop_first() + b);
        assert((a + b)[0] == a[0]);
        assert(encode_utf8(a + b) =~= encode_utf8(a) + encode_utf8(b));
    }
}

/// The encoding of a text with one more character is the text's encoding
/// followed by the character's.
pub proof fn lemma_encode_push(a: Seq<char>, c: char)
    ensures
        encode_utf8(a.push(c)) == encode_utf8(a) + encode_scalar(c as u32),
{
    lemma_encode_concat(a, seq![c]);
    assert(a.push(c) =~= a + seq![c]);
    assert(seq![c].drop_first() =~= Seq::<char>::empty());
    assert(encode_utf8(seq![c]) =~= encode_scalar(c as u32)) by {
        reveal_with_fuel(encode_utf8, 2);
    }
}

/// The length of the encoding of `s`, in bytes.
pub(crate) fn byte_len(s: &str) -> (n: usize)
    ensures
        n == encode_utf8(s@).len(),
{
    s.as_bytes().len()
}

/// Whether `a` and `b` hold the same text.
pub(crate) fn same_text(a: &str, b: &str) -> (same: bool)
    ensures
        same == (a@ == b@),
{
    let same = slices_equal(a.as_bytes(), b.as_bytes());
    proof {
        vstd::utf8::encode_utf8_decode_utf8(a@);
        vstd::utf8::encode_utf8_decode_utf8(b@);
        if same {
            assert(encode_utf8(a@) =~= encode_utf8(b@));
        }
    }
    same
}

/// The character that stands for the decimal digit `d`.
pub open spec fn digit_char(d: nat) -> char
    recommends
        d < 10,
{
    ((48 + d) as u8) as char
}

/// The decimal digits of `n`, most significant first, without leading
/// zeros.
pub open spec fn decimal_digits(n: nat) -> Seq<char>
    decreases n,
{
    if n < 10 {
        seq![digit_char(n)]
    } else {
        decimal_digits(n / 10).push(digit_char(n % 10))
    }
}

/// The number `n` written in decimal, with a minus sign before it where it
/// is negative.
pub open spec fn decimal_text(n: int) -> Seq<char> {
    if n < 0 {
        seq!['-'] + decimal_digits((-n) as nat)
    } else {
        decimal_digits(n as nat)
    }
}

/// The decimal digits of `n`, least significant first.
fn digits_backwards(n: u64) -> (digits: std::vec::Vec<char>)
    ensures
        digits@.reverse() == decimal_digits(n as nat),
{
    let mut digits: std::vec::Vec<char> = std::vec::Vec::new();
    let mut rest: u64 = n;
    while rest >= 10
        invariant
            decimal_digits(n as nat) == decimal_digits(rest as nat) + digits@.reverse(),
        decreases rest,
    {
        let digit: u8 = 48 + (rest % 10) as u8;
        let ghost before = digits@;
        digits.push(digit as char);
        proof {
            assert(digits@.reverse() =~= seq![digit_char((rest % 10) as nat)] + before.reverse());
            assert(decimal_digits((rest / 10) as nat).push(digit_char((rest % 10) as nat))
                + before.reverse() =~= decimal_digits((rest / 10) as nat) + digits@.reverse());
        }
        rest = rest / 10;
    }
    let digit: u8 = 48 + rest as u8;
    let ghost before = digits@;
    digits.push(digit as char);
    proof {
        assert(digits@.reverse() =~= seq![digit_char(rest as nat)] + before.reverse());
    }
    digits
}

/// The text of the number with the given sign and magnitude, in decimal.
pub(crate) fn decimal_string(negative: bool, magnitude: u64) -> (text: std::string::String)
    requires
        negative ==> magnitude > 0,
    ensures
        text@ == decimal_text(
            if negative {
                -(magnitude as int)
            } else {
                magnitude as int
            },
        ),
{
    let mut text = std::string::String::new();
    if negative {
        text.push('-');
    }
    let ghost sign = text@;
    let mut digits = digits_backwards(magnitude);
    let ghost all = digits@;
    while digits.len() > 0
        invariant
            digits@.len() <= all.len(),
            digits@ == all.take(digits@.len() as int),
            text@ == sign + all.reverse().take(all.len() - digits@.len()),
        decreases digits@.len(),
    {
        let ghost left = digits@.len() as int;
        let c = digits.pop().unwrap();
        text.push(c);
        proof {
            assert(c == all[left - 1]);
            assert(digits@ =~= all.take(left - 1));
            assert(all.reverse()[all.len() - left] == c);
            assert(all.reverse().take(all.len() - left + 1) =~= all.reverse().take(
                all.len() - left,
            ).push(c));
            assert(text@ =~= sign + all.reverse().take(all.len() - left + 1));
        }
    }
    assert(all.reverse().take(all.len() as int) =~= all.reverse());
    assert(sign + all.reverse() =~= text@);
    proof {
        if negative {
            assert(sign =~= seq!['-']);
        } else {
            assert(sign + all.reverse() =~= all.reverse());
        }
    }
    text
}

/// The magnitude of `n`.
pub(crate) fn magnitude_of(n: i64) -> (m: u64)
    ensures
        m == if n < 0 {
            -(n as int)
        } else {
            n as int
        },
{
    if n < 0 {
        (-(n + 1)) as u64 + 1
    } else {
        n as u64
    }
}

/// A string of UTF-8 encoded text whose encoding never takes more than `N`
/// bytes.
///
/// Its view is the sequence of its characters. Every operation that would
/// take its encoding beyond `N` bytes fails and changes nothing.
#[derive(Debug, Hash, Ord)]
pub struct String<const N: usize> {
    text: std::string::String,
}

impl<const N: usize> View for String<N> {
    type V = Seq<char>;

    closed spec fn view(&self) -> Seq<char> {
        self.text@
    }
}

impl<const N: usize> String<N> {
    /// The UTF-8 encoding of the text.
    pub open spec fn bytes(&self) -> Seq<u8> {
        encode_utf8(self@)
    }

    /// The invariant of the type: the encoding fits the capacity.
    pub open spec fn wf(&self) -> bool {
        self.bytes().len() <= N
    }

    /// Constructs a new, empty string with a capacity of `N` bytes.
    pub fn new() -> (s: Self)
        ensures
            s@ == Seq::<char>::empty(),
            s.wf(),
    {
        String { text: std::string::String::new() }
    }

    /// Converts UTF-8 bytes into a string. Fails exactly when the bytes are
    /// not well-formed UTF-8.
    pub fn from_utf8(vec: Vec<u8, N>) -> (r: Result<Self, core::str::Utf8Error>)
        ensures
            r is Ok && vec.wf() ==> r->Ok_0.wf(),
            r is Ok <==> valid_utf8(vec@),
            r is Ok ==> r->Ok_0@ == decode_utf8(vec@) && r->Ok_0.bytes() == vec@,
    {
        match core::str::from_utf8(vec.as_slice()) {
            Ok(text) => {
                proof {
                    vstd::utf8::decode_utf8_encode_utf8(vec@);
                }
                Ok(String { text: text.to_owned() })
            },
            Err(e) => Err(e),
        }
    }

    /// Converts UTF-8 bytes into a string. The caller shows that the bytes
    /// are well-formed UTF-8.
    pub fn from_utf8_unchecked(vec: Vec<u8, N>) -> (s: Self)
        requires
            valid_utf8(vec@),
        ensures
            vec.wf() ==> s.wf(),
            s@ == decode_utf8(vec@),
            s.bytes() == vec@,
    {
        match Self::from_utf8(vec) {
            Ok(s) => s,
            Err(_) => Self::new(),
        }
    }

    /// Converts the string into the bytes of its encoding.
    pub fn into_bytes(self) -> (vec: Vec<u8, N>)
        requires
            self.wf(),
        ensures
            vec@ == self.bytes(),
    {
        let bytes = self.text.as_str().as_bytes_vec();
        let mut vec = Vec::new();
        vec.extend(bytes.into_iter());
        vec
    }

    /// Extracts a string slice containing the entire string.
    pub fn as_str(&self) -> (s: &str)
        ensures
            s@ == self@,
    {
        self.text.as_str()
    }

    /// The text, for changes in place. Such changes keep the length of the
    /// encoding.
    pub fn as_mut_str(&mut self) -> (s: &mut str)
        ensures
            old(self).wf() ==> final(self).wf(),
            s@ == old(self)@,
            final(self)@ == final(s)@,
            final(self).bytes().len() == old(self).bytes().len(),
    {
        self.text.as_mut_str()
    }

    /// The length of the encoding, in bytes.
    pub fn len(&self) -> (n: usize)
        ensures
            n == self.bytes().len(),
    {
        byte_len(self.text.as_str())
    }

    /// Whether the string holds no character.
    pub fn is_empty(&self) -> (b: bool)
        ensures
            b == (self@.len() == 0),
    {
        self.text.as_str().is_empty()
    }

    /// Appends `string`, if its encoding fits; otherwise changes nothing.
    pub fn push_str(&mut self, string: &str) -> (r: Result<(), ()>)
        ensures
            old(self).wf() ==> final(self).wf(),
            r is Ok <==> old(self).bytes().len() + encode_utf8(string@).len() <= N,
            r is Ok ==> final(self)@ == old(self)@ + string@,
            r is Err ==> final(self)@ == old(self)@,
    {
        let len = byte_len(self.text.as_str());
        let more = byte_len(string);
        if more > N || len > N - more {
            Err(())
        } else {
            proof {
                lemma_encode_concat(self@, string@);
            }
            self.text.append(string);
            Ok(())
        }
    }

    /// The number of bytes that the string can hold: always `N`.
    pub fn capacity(&self) -> (n: usize)
        ensures
            n == N,
    {
        N
    }

    /// Appends the character `c`, if its encoding fits; otherwise changes
    /// nothing.
    pub fn push(&mut self, c: char) -> (r: Result<(), ()>)
        ensures
            old(self).wf() ==> final(self).wf(),
            r is Ok <==> old(self).bytes().len() + encode_scalar(c as u32).len() <= N,
            r is Ok ==> final(self)@ == old(self)@.push(c),
            r is Err ==> final(self)@ == old(self)@,
    {
        let len = byte_len(self.text.as_str());
        let more = c.len_utf8();
        if more > N || len > N - more {
            Err(())
        } else {
            proof {
                lemma_encode_push(self@, c);
            }
            self.text.push(c);
            Ok(())
        }
    }

    /// Cuts the encoding to its first `new_len` bytes; does nothing when it
    /// is no longer than that. Where it cuts, `new_len` lies on a character
    /// boundary.
    pub fn truncate(&mut self, new_len: usize)
        requires
            new_len <= old(self).bytes().len() ==> is_char_boundary(
                old(self).bytes(),
                new_len as int,
            ),
        ensures
            old(self).wf() ==> final(self).wf(),
            final(self).bytes() == if new_len <= old(self).bytes().len() {
                old(self).bytes().take(new_len as int)
            } else {
                old(self).bytes()
            },
    {
        self.text.truncate(new_len);
    }

    /// Removes the last character and returns it, or `None` if there is
    /// none.
    pub fn pop(&mut self) -> (r: Option<char>)
        ensures
            old(self).wf() ==> final(self).wf(),
            old(self)@.len() > 0 ==> r == Some(old(self)@.last()) && final(self)@ == old(
                self,
            )@.drop_last(),
            old(self)@.len() == 0 ==> r == None::<char> && final(self)@ == old(self)@,
            final(self).bytes().len() <= old(self).bytes().len(),
    {
        let r = self.text.pop();
        proof {
            if old(self)@.len() > 0 {
                lemma_encode_push(old(self)@.drop_last(), old(self)@.last());
                assert(old(self)@.drop_last().push(old(self)@.last()) =~= old(self)@);
            }
        }
        r
    }

    /// Removes the character whose encoding starts at byte `index`, and
    /// returns it.
    pub fn remove(&mut self, index: usize) -> (c: char)
        requires
            index < old(self).bytes().len(),
            is_char_boundary(old(self).bytes(), index as int),
        ensures
            old(self).wf() ==> final(self).wf(),
            removed_at(old(self).bytes(), index as int, c, final(self).bytes()),
    {
        self.text.remove(index)
    }

    /// Removes all characters.
    pub fn clear(&mut self)
        ensures
            old(self).wf() ==> final(self).wf(),
            final(self)@ == Seq::<char>::empty(),
    {
        self.text.clear();
    }
}

impl<const N: usize> String<N> {
    /// Copies `s` into a new string, if its encoding fits.
    pub fn from_str(s: &str) -> (r: Result<Self, ()>)
        ensures
            r is Ok ==> r->Ok_0.wf(),
            r is Ok <==> encode_utf8(s@).len() <= N,
            r is Ok ==> r->Ok_0@ == s@,
    {
        let mut new = Self::new();
        match new.push_str(s) {
            Ok(()) => {
                assert(new@ =~= s@);
                Ok(new)
            },
            Err(()) => Err(()),
        }
    }

    /// The number with the given sign and magnitude, written in decimal, if
    /// the text fits.
    pub(crate) fn from_decimal(negative: bool, magnitude: u64) -> (r: Result<Self, ()>)
        requires
            negative ==> magnitude > 0,
        ensures
            r is Ok ==> r->Ok_0.wf(),
            r is Ok <==> encode_utf8(
                decimal_text(
                    if negative {
                        -(magnitude as int)
                    } else {
                        magnitude as int
                    },
                ),
            ).len() <= N,
            r is Ok ==> r->Ok_0@ == decimal_text(
                if negative {
                    -(magnitude as int)
                } else {
                    magnitude as int
                },
            ),
    {
        let text = decimal_string(negative, magnitude);
        if byte_len(text.as_str()) <= N {
            Ok(String { text })
        } else {
            Err(())
        }
    }

    /// Collects the characters that `iter` yields, in order. The caller
    /// shows that their encoding fits.
    pub fn from_iter<I>(iter: I) -> (s: Self) where I: Iterator<Item = char>
        requires
            iter.obeys_prophetic_iter_laws(),
            iter.decrease() is Some,
            encode_utf8(iter.remaining()).len() <= N,
        ensures
            s.wf(),
            s@ == iter.remaining(),
    {
        let mut s = Self::new();
        let mut iter = iter;
        let ghost all = iter.remaining();
        loop
            invariant
                iter.obeys_prophetic_iter_laws(),
                iter.decrease() is Some,
                s@ + iter.remaining() == all,
                encode_utf8(all).len() <= N,
            ensures
                s@ == all,
            decreases iter.decrease()->0,
        {
            let ghost before = s@;
            let ghost pending = iter.remaining();
            match iter.next() {
                Some(c) => {
                    proof {
                        lemma_encode_push(before, c);
                        lemma_encode_concat(before.push(c), pending.drop_first());
                        assert(before.push(c) + pending.drop_first() =~= before + pending);
                    }
                    let pushed = s.push(c);
                    assert(pushed is Ok);
                    assert(s@ + iter.remaining() =~= before + pending);
                },
                None => {
                    assert(s@ + iter.remaining() =~= s@);
                    break ;
                },
            }
        }
        s
    }

    /// Appends `s`, if its encoding fits; otherwise changes nothing.
    pub fn write_str(&mut self, s: &str) -> (r: Result<(), core::fmt::Error>)
        ensures
            old(self).wf() ==> final(self).wf(),
            r is Ok <==> old(self).bytes().len() + encode_utf8(s@).len() <= N,
            r is Ok ==> final(self)@ == old(self)@ + s@,
            r is Err ==> final(self)@ == old(self)@,
    {
        match self.push_str(s) {
            Ok(()) => Ok(()),
            Err(()) => Err(core::fmt::Error),
        }
    }

    /// Appends the character `c`, if its encoding fits; otherwise changes
    /// nothing.
    pub fn write_char(&mut self, c: char) -> (r: Result<(), core::fmt::Error>)
        ensures
            old(self).wf() ==> final(self).wf(),
            r is Ok <==> old(self).bytes().len() + encode_scalar(c as u32).len() <= N,
            r is Ok ==> final(self)@ == old(self)@.push(c),
            r is Err ==> final(self)@ == old(self)@,
    {
        match self.push(c) {
            Ok(()) => Ok(()),
            Err(()) => Err(core::fmt::Error),
        }
    }
}

impl<const N: usize> Default for String<N> {
    fn default() -> (s: Self)
        ensures
            s.wf(),
            s@ == Seq::<char>::empty(),
    {
        Self::new()
    }
}

impl<const N: usize> Clone for String<N> {
    fn clone(&self) -> (s: Self)
        ensures
            self.wf() ==> s.wf(),
            s@ == self@,
    {
        String { text: self.text.clone() }
    }
}

impl<const N: usize> core::ops::Deref for String<N> {
    type Target = str;

    fn deref(&self) -> (s: &str)
        ensures
            s@ == self@,
    {
        self.as_str()
    }
}

impl<const N: usize> core::ops::DerefMut for String<N> {
    fn deref_mut(&mut self) -> (s: &mut str)
        ensures
            old(self).wf() ==> final(self).wf(),
            s@ == old(self)@,
            final(self)@ == final(s)@,
    {
        self.as_mut_str()
    }
}

impl<const N1: usize, const N2: usize> PartialEq<String<N2>> for String<N1> {
    fn eq(&self, other: &String<N2>) -> (b: bool) {
        same_text(self.text.as_str(), other.text.as_str())
    }
}

impl<const N1: usize, const N2: usize> vstd::std_specs::cmp::PartialEqSpecImpl<String<N2>> for String<N1> {
    open spec fn obeys_eq_spec() -> bool {
        true
    }

    open spec fn eq_spec(&self, other: &String<N2>) -> bool {
        self@ == other@
    }
}

impl<const N: usize> PartialEq<str> for String<N> {
    fn eq(&self, other: &str) -> (b: bool) {
        same_text(self.text.as_str(), other)
    }
}

impl<const N: usize> vstd::std_specs::cmp::PartialEqSpecImpl<str> for String<N> {
    open spec fn obeys_eq_spec() -> bool {
        true
    }

    open spec fn eq_spec(&self, other: &str) -> bool {
        self@ == other@
    }
}

impl<'a, const N: usize> PartialEq<&'a str> for String<N> {
    fn eq(&self, other: &&'a str) -> (b: bool) {
        same_text(self.text.as_str(), *other)
    }
}

impl<'a, const N: usize> vstd::std_specs::cmp::PartialEqSpecImpl<&'a str> for String<N> {
    open spec fn obeys_eq_spec() -> bool {
        true
    }

    open spec fn eq_spec(&self, other: &&'a str) -> bool {
        self@ == other@
    }
}

impl<const N: usize> PartialEq<String<N>> for str {
    fn eq(&self, other: &String<N>) -> (b: bool) {
        same_text(self, other.text.as_str())
    }
}

impl<const N: usize> vstd::std_specs::cmp::PartialEqSpecImpl<String<N>> for str {
    open spec fn obeys_eq_spec() -> bool {
        true
    }

    open spec fn eq_spec(&self, other: &String<N>) -> bool {
        self@ == other@
    }
}

impl<'a, const N: usize> PartialEq<String<N>> for &'a str {
    fn eq(&self, other: &String<N>) -> (b: bool) {
        same_text(*self, other.text.as_str())
    }
}

impl<'a, const N: usize> vstd::std_specs::cmp::PartialEqSpecImpl<String<N>> for &'a str {
    open spec fn obeys_eq_spec() -> bool {
        true
    }

    open spec fn eq_spec(&self, other: &String<N>) -> bool {
        self@ == other@
    }
}

impl<const N: usize> AsRef<str> for String<N> {
    fn as_ref(&self) -> (s: &str)
        ensures
            s@ == self@,
    {
        self.as_str()
    }
}

impl<const N: usize> core::str::FromStr for String<N> {
    type Err = ();

    fn from_str(s: &str) -> (r: Result<Self, ()>)
        ensures
            r is Ok ==> r->Ok_0.wf(),
            r is Ok <==> encode_utf8(s@).len() <= N,
            r is Ok ==> r->Ok_0@ == s@,
    {
        String::<N>::from_str(s)
    }
}

impl<const N: usize> From<String<N>> for std::string::String {
    fn from(s: String<N>) -> (text: Self)
        ensures
            text@ == s@,
    {
        s.text
    }
}

impl<const N: usize> vstd::std_specs::convert::FromSpecImpl<String<N>> for std::string::String {
    open spec fn obeys_from_spec() -> bool {
        true
    }

    closed spec fn from_spec(s: String<N>) -> Self {
        s.text
    }
}

/// Strings are ordered as the byte sequences of their encodings are.
impl<const N1: usize, const N2: usize> PartialOrd<String<N2>> for String<N1> {
    fn partial_cmp(&self, other: &String<N2>) -> (r: Option<Ordering>) {
        order_of_slices(self.text.as_str().as_bytes(), other.text.as_str().as_bytes())
    }
}

impl<const N1: usize, const N2: usize> vstd::std_specs::cmp::PartialOrdSpecImpl<String<N2>> for String<N1> {
    open spec fn obeys_partial_cmp_spec() -> bool {
        true
    }

    open spec fn partial_cmp_spec(&self, other: &String<N2>) -> Option<Ordering> {
        order_of_items(self.bytes(), other.bytes())
    }
}

/// Takes a buffer of text as a string, or hands the buffer back when its
/// encoding is longer than `N` bytes.
impl<const N: usize> TryFrom<std::string::String> for String<N> {
    type Error = std::string::String;

    fn try_from(text: std::string::String) -> (r: Result<Self, std::string::String>)
        ensures
            r is Ok ==> r->Ok_0.wf(),
            r is Ok <==> encode_utf8(text@).len() <= N,
            r is Ok ==> r->Ok_0@ == text@,
            r is Err ==> r->Err_0 == text,
    {
        if byte_len(text.as_str()) <= N {
            Ok(String { text })
        } else {
            Err(text)
        }
    }
}

impl<const N: usize> vstd::std_specs::convert::TryFromSpecImpl<std::string::String> for String<N> {
    open spec fn obeys_try_from_spec() -> bool {
        true
    }

    closed spec fn try_from_spec(text: std::string::String) -> Result<Self, std::string::String> {
        if encode_utf8(text@).len() <= N {
            Ok(String { text })
        } else {
            Err(text)
        }
    }
}

impl<const N: usize> Eq for String<N> {

}

impl<'a, const N: usize> TryFrom<&'a str> for String<N> {
    type Error = ();

    fn try_from(s: &'a str) -> (r: Result<Self, ()>)
        ensures
            r is Ok ==> r->Ok_0.wf(),
            r is Ok <==> encode_utf8(s@).len() <= N,
            r is Ok ==> r->Ok_0@ == s@,
    {
        Self::from_str(s)
    }
}

/// A string is not given by its text alone, so no function of the text
/// gives the result: the contract of `try_from` itself says what holds.
impl<'a, const N: usize> vstd::std_specs::convert::TryFromSpecImpl<&'a str> for String<N> {
    open spec fn obeys_try_from_spec() -> bool {
        false
    }

    open spec fn try_from_spec(s: &'a str) -> Result<Self, ()> {
        arbitrary()
    }
}

/// Writes the number in decimal, if the text fits.
impl<const N: usize> TryFrom<i8> for String<N> {
    type Error = ();

    fn try_from(n: i8) -> (r: Result<Self, ()>)
        ensures
            r is Ok ==> r->Ok_0.wf(),
            r is Ok <==> encode_utf8(decimal_text(n as int)).len() <= N,
            r is Ok ==> r->Ok_0@ == decimal_text(n as int),
    {
        Self::from_decimal(n < 0, magnitude_of(n as i64))
    }
}

impl<const N: usize> vstd::std_specs::convert::TryFromSpecImpl<i8> for String<N> {
    open spec fn obeys_try_from_spec() -> bool {
        false
    }

    open spec fn try_from_spec(n: i8) -> Result<Self, ()> {
        arbitrary()
    }
}

/// Writes the number in decimal, if the text fits.
impl<const N: usize> TryFrom<i16> for String<N> {
    type Error = ();

    fn try_from(n: i16) -> (r: Result<Self, ()>)
        ensures
            r is Ok ==> r->Ok_0.wf(),
            r is Ok <==> encode_utf8(decimal_text(n as int)).len() <= N,
            r is Ok ==> r->Ok_0@ == decimal_text(n as int),
    {
        Self::from_decimal(n < 0, magnitude_of(n as i64))
    }
}

impl<const N: usize> vstd::std_specs::convert::TryFromSpecImpl<i16> for String<N> {
    open spec fn obeys_try_from_spec() -> bool {
        false
    }

    open spec fn try_from_spec(n: i16) -> Result<Self, ()> {
        arbitrary()
    }
}

/// Writes the number in decimal, if the text fits.
impl<const N: usize> TryFrom<i32> for String<N> {
    type Error = ();

    fn try_from(n: i32) -> (r: Result<Self, ()>)
        ensures
            r is Ok ==> r->Ok_0.wf(),
            r is Ok <==> encode_utf8(decimal_text(n as int)).len() <= N,
            r is Ok ==> r->Ok_0@ == decimal_text(n as int),
    {
        Self::from_decimal(n < 0, magnitude_of(n as i64))
    }
}

impl<const N: usize> vstd::std_specs::convert::TryFromSpecImpl<i32> for String<N> {
    open spec fn obeys_try_from_spec() -> bool {
        false
    }

    open spec fn try_from_spec(n: i32) -> Result<Self, ()> {
        arbitrary()
    }
}

/// Writes the number in decimal, if the text fits.
impl<const N: usize> TryFrom<i64> for String<N> {
    type Error = ();

    fn try_from(n: i64) -> (r: Result<Self, ()>)
        ensures
            r is Ok ==> r->Ok_0.wf(),
            r is Ok <==> encode_utf8(decimal_text(n as int)).len() <= N,
            r is Ok ==> r->Ok_0@ == decimal_text(n as int),
    {
        Self::from_decimal(n < 0, magnitude_of(n))
    }
}

impl<const N: usize> vstd::std_specs::convert::TryFromSpecImpl<i64> for String<N> {
    open spec fn obeys_try_from_spec() -> bool {
        false
    }

    open spec fn try_from_spec(n: i64) -> Result<Self, ()> {
        arbitrary()
    }
}

/// Writes the number in decimal, if the text fits.
impl<const N: usize> TryFrom<u8> for String<N> {
    type Error = ();

    fn try_from(n: u8) -> (r: Result<Self, ()>)
        ensures
            r is Ok ==> r->Ok_0.wf(),
            r is Ok <==> encode_utf8(decimal_text(n as int)).len() <= N,
            r is Ok ==> r->Ok_0@ == decimal_text(n as int),
    {
        Self::from_decimal(false, n as u64)
    }
}

impl<const N: usize> vstd::std_specs::convert::TryFromSpecImpl<u8> for String<N> {
    open spec fn obeys_try_from_spec() -> bool {
        false
    }

    open spec fn try_from_spec(n: u8) -> Result<Self, ()> {
        arbitrary()
    }
}

/// Writes the number in decimal, if the text fits.
impl<const N: usize> TryFrom<u16> for String<N> {
    type Error = ();

    fn try_from(n: u16) -> (r: Result<Self, ()>)
        ensures
            r is Ok ==> r->Ok_0.wf(),
            r is Ok <==> encode_utf8(decimal_text(n as int)).len() <= N,
            r is Ok ==> r->Ok_0@ == decimal_text(n as int),
    {
        Self::from_decimal(false, n as u64)
    }
}

impl<const N: usize> vstd::std_specs::convert::TryFromSpecImpl<u16> for String<N> {
    open spec fn obeys_try_from_spec() -> bool {
        false
    }

    open spec fn try_from_spec(n: u16) -> Result<Self, ()> {
        arbitrary()
    }
}

/// Writes the number in decimal, if the text fits.
impl<const N: usize> TryFrom<u32> for String<N> {
    type Error = ();

    fn try_from(n: u32) -> (r: Result<Self, ()>)
        ensures
            r is Ok ==> r->Ok_0.wf(),
            r is Ok <==> encode_utf8(decimal_text(n as int)).len() <= N,
            r is Ok ==> r->Ok_0@ == decimal_text(n as int),
    {
        Self::from_decimal(false, n as u64)
    }
}

impl<const N: usize> vstd::std_specs::convert::TryFromSpecImpl<u32> for String<N> {
    open spec fn obeys_try_from_spec() -> bool {
        false
    }

    open spec fn try_from_spec(n: u32) -> Result<Self, ()> {
        arbitrary()
    }
}

/// Writes the number in decimal, if the text fits.
impl<const N: usize> TryFrom<u64> for String<N> {
    type Error = ();

    fn try_from(n: u64) -> (r: Result<Self, ()>)
        ensures
            r is Ok ==> r->Ok_0.wf(),
            r is Ok <==> encode_utf8(decimal_text(n as int)).len() <= N,
            r is Ok ==> r->Ok_0@ == decimal_text(n as int),
    {
        Self::from_decimal(false, n)
    }
}

impl<const N: usize> vstd::std_specs::convert::TryFromSpecImpl<u64> for String<N> {
    open spec fn obeys_try_from_spec() -> bool {
        false
    }

    open spec fn try_from_spec(n: u64) -> Result<Self, ()> {
        arbitrary()
    }
}

impl<const N: usize> From<String<N>> for Vec<u8, N> {
    fn from(s: String<N>) -> (vec: Self)
        ensures
            s.wf() ==> vec@ == s.bytes(),
    {
        let bytes = s.text.as_str().as_bytes_vec();
        let mut vec = Vec::new();
        if bytes.len() <= N {
            vec.extend(bytes.into_iter());
        }
        vec
    }
}

impl<const N: usize> vstd::std_specs::convert::FromSpecImpl<String<N>> for Vec<u8, N> {
    open spec fn obeys_from_spec() -> bool {
        false
    }

    open spec fn from_spec(s: String<N>) -> Self {
        arbitrary()
    }
}


} // verus!
