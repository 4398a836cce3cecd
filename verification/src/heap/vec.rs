//! A contiguous growable array on the heap, with a capacity hint.
use crate::error::Error;
use crate::vec::{
    answers_of, array_of, equal_items, extended_by_clones, is_position, kept_items,
    lemma_kept_items_len, matches_at, order_of_items, order_of_slices, padded_with_clones,
    push_outcome, reversed, slices_equal, slices_match,
};
use core::cmp::Ordering;
use vstd::prelude::*;
use vstd::std_specs::cmp::{PartialEqSpec, PartialOrdSpec};
use vstd::std_specs::iter::IteratorSpec;
use vstd::string::StringSliceAdditionalSpecFns;
use vstd::utf8::encode_utf8;

verus! {

/// A growable array on the heap. `N` is the number of items for which room
/// is reserved when the vector is made; it limits nothing afterwards.
///
/// Its view is the sequence of the items it holds, in index order. The
/// operations that can fail for want of room on a vector of fixed capacity
/// have the same signatures here and always succeed.
#[derive(Debug, Hash, Ord)]
pub struct Vec<T, const N: usize> {
    items: std::vec::Vec<T>,
}

impl<T, const N: usize> View for Vec<T, N> {
    type V = Seq<T>;

    closed spec fn view(&self) -> Seq<T> {
        self.items@
    }
}

/// `Vec::capacity`: the number of items that the vector has room for
/// without allocating again. It is never less than the number of items
/// held; beyond that it is up to the allocator.
#[verifier::external_body]
fn allocated<T>(items: &std::vec::Vec<T>) -> (n: usize)
    ensures
        n >= items@.len(),
{
    items.capacity()
}

/// Whether `len` items take up all of the room for `room` items.
pub open spec fn fills(len: nat, room: nat) -> bool {
    len == room
}

/// Whether a buffer that holds `len` items and has room for `room` items is
/// full.
pub fn is_filled(len: usize, room: usize) -> (b: bool)
    ensures
        b == fills(len as nat, room as nat),
{
    len == room
}

impl<T, const N: usize> Vec<T, N> {
    /// Constructs a new, empty vector with room reserved for `N` items.
    pub fn new() -> (v: Self)
        ensures
            v@ == Seq::<T>::empty(),
    {
        let mut items = std::vec::Vec::new();
        items.reserve(N);
        Vec { items }
    }

    /// Constructs a vector that holds a clone of each item of `other`.
    /// Always succeeds.
    pub fn from_slice(other: &[T]) -> (r: Result<Self, Error>) where T: Clone
        ensures
            r is Ok,
            extended_by_clones(Seq::<T>::empty(), other@, r->Ok_0@),
    {
        let mut v = Self::new();
        match v.extend_from_slice(other) {
            Ok(()) => Ok(v),
            Err(e) => Err(e),
        }
    }

    /// Extracts a slice containing the entire vector.
    pub fn as_slice(&self) -> (s: &[T])
        ensures
            s@ == self@,
    {
        self.items.as_slice()
    }

    /// Returns the contents as an array of length `M` if the vector holds
    /// exactly `M` items, and the vector itself otherwise.
    pub fn into_array<const M: usize>(self) -> (r: Result<[T; M], Self>)
        ensures
            self@.len() == M ==> r is Ok && r->Ok_0@ == self@,
            self@.len() != M ==> r is Err && r->Err_0 == self,
    {
        match array_of::<T, M>(self.items) {
            Ok(array) => Ok(array),
            Err(items) => Err(Vec { items }),
        }
    }

    /// Extracts a mutable slice containing the entire vector. Writing
    /// through it changes items in place and never the length.
    pub fn as_mut_slice(&mut self) -> (s: &mut [T])
        ensures
            s@ == old(self)@,
            final(self)@ == final(s)@,
    {
        self.items.as_mut_slice()
    }

    /// The number of items that the vector has room for at present. It is
    /// never less than the number of items held.
    pub fn capacity(&self) -> (n: usize)
        ensures
            n >= self@.len(),
    {
        allocated(&self.items)
    }

    /// The number of items held.
    pub fn len(&self) -> (n: usize)
        ensures
            n == self@.len(),
    {
        self.items.len()
    }

    /// Removes all items.
    pub fn clear(&mut self)
        ensures
            final(self)@ == Seq::<T>::empty(),
    {
        self.items.clear();
    }

    /// Appends the items that `iter` yields, in order.
    pub fn extend<I>(&mut self, iter: I) where I: Iterator<Item = T>
        requires
            iter.obeys_prophetic_iter_laws(),
            iter.decrease() is Some,
        ensures
            final(self)@ == old(self)@ + iter.remaining(),
    {
        let mut iter = iter;
        let ghost all = iter.remaining();
        loop
            invariant
                iter.obeys_prophetic_iter_laws(),
                iter.decrease() is Some,
                self@ + iter.remaining() == old(self)@ + all,
            ensures
                self@ == old(self)@ + all,
            decreases iter.decrease()->0,
        {
            let ghost before = self@;
            let ghost pending = iter.remaining();
            match iter.next() {
                Some(item) => {
                    self.items.push(item);
                    assert(self@ + iter.remaining() =~= before + pending);
                },
                None => {
                    assert(self@ + iter.remaining() =~= self@);
                    break ;
                },
            }
        }
    }

    /// Collects the items that `iter` yields, in order.
    pub fn from_iter<I>(iter: I) -> (v: Self) where I: Iterator<Item = T>
        requires
            iter.obeys_prophetic_iter_laws(),
            iter.decrease() is Some,
        ensures
            v@ == iter.remaining(),
    {
        let mut v = Self::new();
        v.extend(iter);
        v
    }

    /// Clones and appends all items of `other`, in order. Always succeeds.
    pub fn extend_from_slice(&mut self, other: &[T]) -> (r: Result<(), Error>) where T: Clone
        ensures
            r is Ok,
            extended_by_clones(old(self)@, other@, final(self)@),
    {
        self.items.extend_from_slice(other);
        Ok(())
    }

    /// Removes the last item and returns it, or `None` if there is none.
    pub fn pop(&mut self) -> (r: Option<T>)
        ensures
            old(self)@.len() > 0 ==> r == Some(old(self)@.last()) && final(self)@ == old(
                self,
            )@.drop_last(),
            old(self)@.len() == 0 ==> r == None::<T> && final(self)@ == old(self)@,
    {
        self.items.pop()
    }

    /// Appends `item`. Always succeeds.
    pub fn push(&mut self, item: T) -> (r: Result<(), T>)
        ensures
            final(self)@ == push_outcome(old(self)@, None, item).0,
            r is Ok <==> push_outcome(old(self)@, None, item).1 is None,
            r is Err ==> Some(r->Err_0) == push_outcome(old(self)@, None, item).1,
    {
        self.items.push(item);
        Ok(())
    }

    /// Removes the last item and returns it. The caller shows that there is
    /// one.
    pub fn pop_unchecked(&mut self) -> (item: T)
        requires
            old(self)@.len() > 0,
        ensures
            item == old(self)@.last(),
            final(self)@ == old(self)@.drop_last(),
    {
        self.items.pop().unwrap()
    }

    /// Appends `item`.
    pub fn push_unchecked(&mut self, item: T)
        ensures
            final(self)@ == old(self)@.push(item),
    {
        self.items.push(item);
    }

    /// Shortens the vector to its first `len` items; does nothing when it
    /// holds no more than `len`.
    pub fn truncate(&mut self, len: usize)
        ensures
            final(self)@ == if len <= old(self)@.len() {
                old(self)@.take(len as int)
            } else {
                old(self)@
            },
    {
        self.items.truncate(len);
    }

    /// Resizes the vector in place to `new_len` items: cuts it, or fills it
    /// with clones of `value`. Always succeeds.
    pub fn resize(&mut self, new_len: usize, value: T) -> (r: Result<(), Error>) where T: Clone
        ensures
            r is Ok,
            new_len <= old(self)@.len() ==> final(self)@ == old(self)@.take(new_len as int),
            new_len > old(self)@.len() ==> padded_with_clones(
                old(self)@,
                new_len as int,
                value,
                final(self)@,
            ),
    {
        let ghost before = self.items@;
        self.items.resize(new_len, value);
        proof {
            if new_len > before.len() {
                assert forall|i: int| 0 <= i < before.len() implies #[trigger] self.items@[i]
                    == before[i] by {
                    assert(self.items@.subrange(0, before.len() as int)[i] == before[i]);
                }
            }
        }
        Ok(())
    }

    /// As [`Vec::resize`], filling with the default value of `T`.
    pub fn resize_default(&mut self, new_len: usize) -> (r: Result<(), Error>) where
        T: Clone + Default,

        ensures
            r is Ok,
            new_len <= old(self)@.len() ==> final(self)@ == old(self)@.take(new_len as int),
            new_len > old(self)@.len() ==> exists|value: T|
                call_ensures(T::default, (), value) && #[trigger] padded_with_clones(
                    old(self)@,
                    new_len as int,
                    value,
                    final(self)@,
                ),
    {
        self.resize(new_len, T::default())
    }

    /// Removes the item at `index` and returns it; the last item takes its
    /// place.
    pub fn swap_remove(&mut self, index: usize) -> (item: T)
        requires
            index < old(self)@.len(),
        ensures
            item == old(self)@[index as int],
            final(self)@ == old(self)@.update(index as int, old(self)@.last()).drop_last(),
    {
        self.items.swap_remove(index)
    }

    /// As [`Vec::swap_remove`].
    pub fn swap_remove_unchecked(&mut self, index: usize) -> (item: T)
        requires
            index < old(self)@.len(),
        ensures
            item == old(self)@[index as int],
            final(self)@ == old(self)@.update(index as int, old(self)@.last()).drop_last(),
    {
        self.swap_remove(index)
    }

    /// Whether the vector holds as many items as it has room for at
    /// present: the answer of [`is_filled`] for the number of items held and
    /// the room that the allocator has given, which is never less than that
    /// number. How much room that is, is up to the allocator; the next push
    /// succeeds either way.
    pub fn is_full(&self) -> (b: bool)
        ensures
            exists|room: usize|
                room >= self@.len() && b == #[trigger] fills(self@.len(), room as nat),
    {
        let room = allocated(&self.items);
        let b = is_filled(self.items.len(), room);
        assert(room >= self@.len() && b == fills(self@.len(), room as nat));
        b
    }

    /// Whether the vector holds no item.
    pub fn is_empty(&self) -> (b: bool)
        ensures
            b == (self@.len() == 0),
    {
        self.items.len() == 0
    }

    /// Inserts `element` at position `index`, shifting the items after it to
    /// the right. Always succeeds.
    pub fn insert(&mut self, index: usize, element: T) -> (r: Result<(), T>)
        requires
            index <= old(self)@.len(),
        ensures
            r is Ok,
            final(self)@ == old(self)@.insert(index as int, element),
    {
        self.items.insert(index, element);
        Ok(())
    }

    /// Removes and returns the item at position `index`, shifting the items
    /// after it to the left.
    pub fn remove(&mut self, index: usize) -> (item: T)
        requires
            index < old(self)@.len(),
        ensures
            item == old(self)@[index as int],
            final(self)@ == old(self)@.remove(index as int),
    {
        self.items.remove(index)
    }

    /// Whether `needle` is a prefix of the vector, item by item under `==`.
    pub fn starts_with(&self, needle: &[T]) -> (b: bool) where T: PartialEq
        ensures
            b ==> needle@.len() <= self@.len(),
            T::obeys_eq_spec() ==> b == matches_at(self@, 0, needle@),
    {
        let n = needle.len();
        self.items.len() >= n && slices_match(self.items.as_slice(), 0, needle)
    }

    /// Whether `needle` is a suffix of the vector, item by item under `==`.
    /// An empty `needle` always is.
    pub fn ends_with(&self, needle: &[T]) -> (b: bool) where T: PartialEq
        ensures
            b ==> needle@.len() <= self@.len(),
            T::obeys_eq_spec() ==> b == matches_at(self@, self@.len() - needle@.len(), needle@),
    {
        let v = self.items.len();
        let n = needle.len();
        v >= n && slices_match(self.items.as_slice(), v - n, needle)
    }

    /// Retains only the items for which `f` answers `true`, in their order.
    pub fn retain<F>(&mut self, f: F) where F: FnMut(&T) -> bool
        requires
            forall|i: int| 0 <= i < old(self)@.len() ==> call_requires(f, (&old(self)@[i],)),
        ensures
            final(self)@.len() <= old(self)@.len(),
            exists|keep: Seq<bool>|
                #[trigger] answers_of(f, old(self)@, keep) && final(self)@ == kept_items(
                    old(self)@,
                    keep,
                ),
    {
        let ghost asked = f;
        let mut f = f;
        let ghost all = self@;
        let mut taken: std::vec::Vec<T> = std::vec::Vec::new();
        std::mem::swap(&mut taken, &mut self.items);
        let mut rest = reversed(taken);
        let ghost mut keep: Seq<bool> = Seq::empty();
        while rest.len() > 0
            invariant
                f == asked,
                rest@.len() + keep.len() == all.len(),
                forall|k: int| 0 <= k < rest@.len() ==> rest@[k] == all[all.len() - 1 - k],
                forall|i: int| 0 <= i < all.len() ==> call_requires(f, (&all[i],)),
                forall|i: int| 0 <= i < keep.len() ==> call_ensures(f, (&all[i],), #[trigger] keep[i]),
                self@ == kept_items(all.take(keep.len() as int), keep),
            decreases rest@.len(),
        {
            let ghost done = keep.len() as int;
            let item = rest.pop().unwrap();
            let wanted = f(&item);
            proof {
                assert(all.take(done + 1).drop_last() =~= all.take(done));
                assert(keep.push(wanted).drop_last() =~= keep);
                keep = keep.push(wanted);
            }
            if wanted {
                self.items.push(item);
            }
        }
        proof {
            assert(all.take(all.len() as int) =~= all);
            lemma_kept_items_len(all, keep);
            assert(keep.len() == all.len() && self@ == kept_items(all, keep));
            assert(answers_of(f, all, keep));
        }
    }

    /// Hands each item to `f` by mutable reference, in order, and retains
    /// the items, as `f` left them, for which it answers `true`.
    ///
    /// In the contract `changed` holds what `f` left of each item and `keep`
    /// its answers.
    pub fn retain_mut<F>(&mut self, f: F) where F: FnMut(&mut T) -> bool
        requires
            forall|slot: &mut T| call_requires(f, (slot,)),
        ensures
            final(self)@.len() <= old(self)@.len(),
            exists|changed: Seq<T>, keep: Seq<bool>|
                {
                    &&& keep.len() == old(self)@.len()
                    &&& changed.len() == old(self)@.len()
                    &&& forall|i: int|
                        #[trigger] is_position(i, keep.len()) ==> exists|slot: &mut T|
                            {
                                &&& *slot == old(self)@[i]
                                &&& *final(slot) == changed[i]
                                &&& #[trigger] call_ensures(f, (slot,), keep[i])
                            }
                    &&& final(self)@ == #[trigger] kept_items(changed, keep)
                },
    {
        let ghost asked = f;
        let mut f = f;
        let ghost all = self@;
        let mut taken: std::vec::Vec<T> = std::vec::Vec::new();
        std::mem::swap(&mut taken, &mut self.items);
        let mut rest = reversed(taken);
        let ghost mut keep: Seq<bool> = Seq::empty();
        let ghost mut changed: Seq<T> = Seq::empty();
        while rest.len() > 0
            invariant
                f == asked,
                rest@.len() + keep.len() == all.len(),
                changed.len() == keep.len(),
                forall|k: int| 0 <= k < rest@.len() ==> rest@[k] == all[all.len() - 1 - k],
                forall|slot: &mut T| call_requires(f, (slot,)),
                forall|i: int|
                    #[trigger] is_position(i, keep.len()) ==> exists|slot: &mut T|
                        {
                            &&& *slot == all[i]
                            &&& *final(slot) == changed[i]
                            &&& #[trigger] call_ensures(f, (slot,), keep[i])
                        },
                self@ == kept_items(changed, keep),
            decreases rest@.len(),
        {
            let ghost done = keep.len();
            let mut item = rest.pop().unwrap();
            let ghost before = item;
            let wanted = f(&mut item);
            let ghost left = item;
            if wanted {
                self.items.push(item);
            }
            proof {
                assert(exists|slot: &mut T|
                    {
                        &&& *slot == before
                        &&& *final(slot) == left
                        &&& #[trigger] call_ensures(f, (slot,), wanted)
                    });
                let keep_before = keep;
                let changed_before = changed;
                assert(changed.push(left).drop_last() =~= changed);
                assert(keep.push(wanted).drop_last() =~= keep);
                keep = keep.push(wanted);
                changed = changed.push(left);
                assert forall|i: int| #[trigger] is_position(i, keep.len()) implies exists|
                    slot: &mut T,
                |
                    {
                        &&& *slot == all[i]
                        &&& *final(slot) == changed[i]
                        &&& #[trigger] call_ensures(f, (slot,), keep[i])
                    } by {
                    if i < done {
                        assert(is_position(i, keep_before.len()));
                        assert(changed[i] == changed_before[i]);
                        assert(keep[i] == keep_before[i]);
                    } else {
                        assert(before == all[i]);
                        assert(changed[i] == left);
                        assert(keep[i] == wanted);
                    }
                }
            }
        }
        proof {
            lemma_kept_items_len(changed, keep);
            assert(self@ == kept_items(changed, keep));
        }
    }

    /// The buffer that holds the items.
    pub fn inner(&self) -> (items: &std::vec::Vec<T>)
        ensures
            items@ == self@,
    {
        &self.items
    }

    /// The buffer that holds the items, for changes in place.
    pub fn inner_mut(&mut self) -> (items: &mut std::vec::Vec<T>)
        ensures
            items@ == old(self)@,
            final(self)@ == final(items)@,
    {
        &mut self.items
    }

    /// Consumes the vector and returns the buffer that holds the items.
    pub fn into_inner(self) -> (items: std::vec::Vec<T>)
        ensures
            items@ == self@,
    {
        self.items
    }

    /// Turns the vector into an iterator that hands its items out by value,
    /// first to last.
    pub fn into_iter(self) -> (iter: IntoIter<T, N>)
        ensures
            iter@ == self@,
    {
        let iter = IntoIter { rest: reversed(self.items) };
        assert(iter@ =~= self@);
        iter
    }
}

impl<const N: usize> Vec<u8, N> {
    /// Appends the bytes of `s`, its UTF-8 encoding. Always succeeds.
    pub fn write_str(&mut self, s: &str) -> (r: Result<(), core::fmt::Error>)
        ensures
            r is Ok,
            final(self)@ == old(self)@ + encode_utf8(s@),
    {
        let ghost before = self@;
        match self.extend_from_slice(s.as_bytes()) {
            Ok(()) => {
                assert(self@ =~= before + s.spec_bytes());
                Ok(())
            },
            Err(_) => Err(core::fmt::Error),
        }
    }
}

/// An iterator that moves the items out of a [`Vec`].
///
/// Its view is the sequence of the items still to come, next first.
#[derive(Debug)]
pub struct IntoIter<T, const N: usize> {
    /// The items still to come, last first.
    rest: std::vec::Vec<T>,
}

impl<T, const N: usize> View for IntoIter<T, N> {
    type V = Seq<T>;

    closed spec fn view(&self) -> Seq<T> {
        self.rest@.reverse()
    }
}

impl<T, const N: usize> IntoIter<T, N> {
    /// Hands out the next item, or `None` when none is left.
    pub fn next(&mut self) -> (r: Option<T>)
        ensures
            old(self)@.len() > 0 ==> r == Some(old(self)@.first()) && final(self)@ == old(
                self,
            )@.drop_first(),
            old(self)@.len() == 0 ==> r == None::<T> && final(self)@ == old(self)@,
    {
        let r = self.rest.pop();
        proof {
            if old(self)@.len() > 0 {
                assert(self@ =~= old(self)@.drop_first());
            } else {
                assert(self@ =~= old(self)@);
            }
        }
        r
    }
}

impl<T, const N: usize> Default for Vec<T, N> {
    fn default() -> (v: Self)
        ensures
            v@ == Seq::<T>::empty(),
    {
        Self::new()
    }
}

impl<T: Clone, const N: usize> Clone for Vec<T, N> {
    fn clone(&self) -> (v: Self)
        ensures
            extended_by_clones(Seq::<T>::empty(), self@, v@),
    {
        Vec { items: self.items.clone() }
    }
}

impl<T: Clone, const N: usize> Clone for IntoIter<T, N> {
    fn clone(&self) -> (iter: Self)
        ensures
            extended_by_clones(Seq::<T>::empty(), self@, iter@),
    {
        IntoIter { rest: self.rest.clone() }
    }
}

impl<T, const N: usize> core::ops::Deref for Vec<T, N> {
    type Target = [T];

    fn deref(&self) -> (s: &[T])
        ensures
            s@ == self@,
    {
        self.as_slice()
    }
}

impl<T, const N: usize> core::ops::DerefMut for Vec<T, N> {
    fn deref_mut(&mut self) -> (s: &mut [T])
        ensures
            s@ == old(self)@,
            final(self)@ == final(s)@,
    {
        self.as_mut_slice()
    }
}

impl<A: PartialEq<B>, B, const N1: usize, const N2: usize> PartialEq<Vec<B, N2>> for Vec<A, N1> {
    fn eq(&self, other: &Vec<B, N2>) -> (b: bool) {
        self.items == other.items
    }
}

impl<A: PartialEq<B>, B, const N1: usize, const N2: usize> vstd::std_specs::cmp::PartialEqSpecImpl<Vec<B, N2>> for Vec<A, N1> {
    open spec fn obeys_eq_spec() -> bool {
        A::obeys_eq_spec()
    }

    open spec fn eq_spec(&self, other: &Vec<B, N2>) -> bool {
        equal_items(self@, other@)
    }
}

impl<A: PartialEq<B>, B, const N: usize> PartialEq<[B]> for Vec<A, N> {
    fn eq(&self, other: &[B]) -> (b: bool) {
        slices_equal(self.items.as_slice(), other)
    }
}

impl<A: PartialEq<B>, B, const N: usize> vstd::std_specs::cmp::PartialEqSpecImpl<[B]> for Vec<A, N> {
    open spec fn obeys_eq_spec() -> bool {
        A::obeys_eq_spec()
    }

    open spec fn eq_spec(&self, other: &[B]) -> bool {
        equal_items(self@, other@)
    }
}

impl<'a, A: PartialEq<B>, B, const N: usize> PartialEq<&'a [B]> for Vec<A, N> {
    fn eq(&self, other: &&'a [B]) -> (b: bool) {
        slices_equal(self.items.as_slice(), *other)
    }
}

impl<'a, A: PartialEq<B>, B, const N: usize> vstd::std_specs::cmp::PartialEqSpecImpl<&'a [B]> for Vec<A, N> {
    open spec fn obeys_eq_spec() -> bool {
        A::obeys_eq_spec()
    }

    open spec fn eq_spec(&self, other: &&'a [B]) -> bool {
        equal_items(self@, other@)
    }
}

impl<A: PartialEq<B>, B, const N: usize, const M: usize> PartialEq<[B; M]> for Vec<A, N> {
    fn eq(&self, other: &[B; M]) -> (b: bool) {
        slices_equal(self.items.as_slice(), other.as_slice())
    }
}

impl<A: PartialEq<B>, B, const N: usize, const M: usize> vstd::std_specs::cmp::PartialEqSpecImpl<[B; M]> for Vec<A, N> {
    open spec fn obeys_eq_spec() -> bool {
        A::obeys_eq_spec()
    }

    open spec fn eq_spec(&self, other: &[B; M]) -> bool {
        equal_items(self@, other@)
    }
}

impl<'a, T: Clone, const N: usize> TryFrom<&'a [T]> for Vec<T, N> {
    type Error = Error;

    fn try_from(slice: &'a [T]) -> (r: Result<Self, Error>)
        ensures
            r is Ok,
            extended_by_clones(Seq::<T>::empty(), slice@, r->Ok_0@),
    {
        Vec::from_slice(slice)
    }
}

/// What a clone holds is up to the item type, so no function of the slice
/// gives the result: the contract of `try_from` itself says what holds.
impl<'a, T: Clone, const N: usize> vstd::std_specs::convert::TryFromSpecImpl<&'a [T]> for Vec<T, N> {
    open spec fn obeys_try_from_spec() -> bool {
        false
    }

    open spec fn try_from_spec(slice: &'a [T]) -> Result<Self, Error> {
        arbitrary()
    }
}

impl<T, const N: usize> From<Vec<T, N>> for std::vec::Vec<T> {
    fn from(vec: Vec<T, N>) -> (items: Self)
        ensures
            items@ == vec@,
    {
        vec.items
    }
}

impl<T, const N: usize> vstd::std_specs::convert::FromSpecImpl<Vec<T, N>> for std::vec::Vec<T> {
    open spec fn obeys_from_spec() -> bool {
        true
    }

    closed spec fn from_spec(vec: Vec<T, N>) -> Self {
        vec.items
    }
}

impl<T, const N: usize> AsRef<[T]> for Vec<T, N> {
    fn as_ref(&self) -> (s: &[T])
        ensures
            s@ == self@,
    {
        self.as_slice()
    }
}

impl<T, const N: usize> AsMut<[T]> for Vec<T, N> {
    fn as_mut(&mut self) -> (s: &mut [T])
        ensures
            s@ == old(self)@,
            final(self)@ == final(s)@,
    {
        self.as_mut_slice()
    }
}

impl<A, B: PartialEq<A>, const N: usize> PartialEq<Vec<A, N>> for [B] {
    fn eq(&self, other: &Vec<A, N>) -> (b: bool) {
        slices_equal(self, other.items.as_slice())
    }
}

impl<A, B: PartialEq<A>, const N: usize> vstd::std_specs::cmp::PartialEqSpecImpl<Vec<A, N>> for [B] {
    open spec fn obeys_eq_spec() -> bool {
        B::obeys_eq_spec()
    }

    open spec fn eq_spec(&self, other: &Vec<A, N>) -> bool {
        equal_items(self@, other@)
    }
}

impl<A, B: PartialEq<A>, const N: usize, const M: usize> PartialEq<Vec<A, N>> for [B; M] {
    fn eq(&self, other: &Vec<A, N>) -> (b: bool) {
        slices_equal(self.as_slice(), other.items.as_slice())
    }
}

impl<A, B: PartialEq<A>, const N: usize, const M: usize> vstd::std_specs::cmp::PartialEqSpecImpl<Vec<A, N>> for [B; M] {
    open spec fn obeys_eq_spec() -> bool {
        B::obeys_eq_spec()
    }

    open spec fn eq_spec(&self, other: &Vec<A, N>) -> bool {
        equal_items(self@, other@)
    }
}

impl<T: PartialOrd, const N1: usize, const N2: usize> PartialOrd<Vec<T, N2>> for Vec<T, N1> {
    fn partial_cmp(&self, other: &Vec<T, N2>) -> (r: Option<Ordering>) {
        order_of_slices(self.items.as_slice(), other.items.as_slice())
    }
}

impl<T: PartialOrd, const N1: usize, const N2: usize> vstd::std_specs::cmp::PartialOrdSpecImpl<Vec<T, N2>> for Vec<T, N1> {
    open spec fn obeys_partial_cmp_spec() -> bool {
        T::obeys_partial_cmp_spec()
    }

    open spec fn partial_cmp_spec(&self, other: &Vec<T, N2>) -> Option<Ordering> {
        order_of_items(self@, other@)
    }
}

impl<T, const N: usize> From<std::vec::Vec<T>> for Vec<T, N> {
    fn from(items: std::vec::Vec<T>) -> (vec: Self)
        ensures
            vec@ == items@,
    {
        Vec { items }
    }
}

impl<T, const N: usize> vstd::std_specs::convert::FromSpecImpl<std::vec::Vec<T>> for Vec<T, N> {
    open spec fn obeys_from_spec() -> bool {
        true
    }

    closed spec fn from_spec(items: std::vec::Vec<T>) -> Self {
        Vec { items }
    }
}

impl<T: Eq, const N: usize> Eq for Vec<T, N> {

}

} // verus!
