//! What the containers promise across calls.
//!
//! The contract of each operation says what one call does. The statements
//! here follow from those contracts and speak of many calls: how far a
//! vector of fixed capacity can be filled, that a vector on the heap can
//! always be filled further, that what is built from a slice reads back as
//! the slice, and that a string comes back from its bytes.
use crate::vec::{after_pushes, extended_by_clones, push_outcome};
use vstd::prelude::*;
use vstd::utf8::{decode_utf8, encode_utf8, valid_utf8};

verus! {

/// Up to the capacity every push succeeds: after pushing no more than
/// `capacity` items onto an empty vector, each push found room and the
/// vector holds exactly the pushed items.
pub proof fn lemma_pushes_within_capacity<T>(capacity: nat, pushed: Seq<T>)
    requires
        pushed.len() <= capacity,
    ensures
        after_pushes(Seq::<T>::empty(), Some(capacity), pushed) == pushed,
        forall|k: int|
            0 <= k < pushed.len() ==> (#[trigger] push_outcome(
                after_pushes(Seq::<T>::empty(), Some(capacity), pushed.take(k)),
                Some(capacity),
                pushed[k],
            )).1 is None,
    decreases pushed.len(),
{
    if pushed.len() > 0 {
        let front = pushed.drop_last();
        lemma_pushes_within_capacity(capacity, front);
        assert(front.push(pushed.last()) =~= pushed);
        assert forall|k: int| 0 <= k < pushed.len() implies (#[trigger] push_outcome(
            after_pushes(Seq::<T>::empty(), Some(capacity), pushed.take(k)),
            Some(capacity),
            pushed[k],
        )).1 is None by {
            if k < front.len() {
                assert(front.take(k) =~= pushed.take(k));
                assert(front[k] == pushed[k]);
            } else {
                assert(pushed.take(k) =~= front);
            }
        }
    } else {
        assert(pushed =~= Seq::<T>::empty());
    }
}

/// At the capacity the next push fails: it hands back exactly the item it
/// was given, and the vector keeps its items and its length.
pub proof fn lemma_push_beyond_capacity<T>(capacity: nat, pushed: Seq<T>, extra: T)
    requires
        pushed.len() == capacity,
    ensures
        push_outcome(
            after_pushes(Seq::<T>::empty(), Some(capacity), pushed),
            Some(capacity),
            extra,
        ) == (pushed, Some(extra)),
        after_pushes(Seq::<T>::empty(), Some(capacity), pushed.push(extra)).len() == capacity,
{
    lemma_pushes_within_capacity(capacity, pushed);
    assert(pushed.push(extra).drop_last() =~= pushed);
}

/// Without a limit every push succeeds: the vector then holds what it held
/// followed by the pushed items, so its length grows by their number.
pub proof fn lemma_pushes_without_limit<T>(items: Seq<T>, pushed: Seq<T>)
    ensures
        after_pushes(items, None, pushed) == items + pushed,
        after_pushes(items, None, pushed).len() == items.len() + pushed.len(),
        forall|k: int|
            0 <= k < pushed.len() ==> (#[trigger] push_outcome(
                after_pushes(items, None, pushed.take(k)),
                None,
                pushed[k],
            )).1 is None,
    decreases pushed.len(),
{
    if pushed.len() > 0 {
        lemma_pushes_without_limit(items, pushed.drop_last());
        assert((items + pushed.drop_last()).push(pushed.last()) =~= items + pushed);
    } else {
        assert(items + pushed =~= items);
    }
}

/// Reading back what was built from a slice gives the slice again, for
/// items whose clones equal what they were cloned from: `built` stands for the view of
/// the vector that `from_slice` made of `slice`.
pub proof fn lemma_from_slice_round_trip<T: Clone>(slice: Seq<T>, built: Seq<T>)
    requires
        extended_by_clones(Seq::<T>::empty(), slice, built),
        forall|a: T, b: T| cloned::<T>(a, b) ==> a == b,
    ensures
        built == slice,
{
    assert(built =~= slice);
}

/// A string comes back from its bytes: the bytes that `into_bytes` gives
/// for a text are well-formed UTF-8, so that `from_utf8` accepts them, and
/// they decode to the text again.
pub proof fn lemma_bytes_round_trip(text: Seq<char>)
    ensures
        valid_utf8(encode_utf8(text)),
        decode_utf8(encode_utf8(text)) == text,
{
    vstd::utf8::encode_utf8_valid_utf8(text);
    vstd::utf8::encode_utf8_decode_utf8(text);
}

} // verus!
