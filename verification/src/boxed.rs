//! Owning handles to values that a pool hands out.
use vstd::prelude::*;

pub mod init;
pub mod pool;
pub mod protocol;

pub use pool::{Block, Pool};

verus! {

/// A pool that hands out boxed values of one data type.
///
/// A pool owns storage for values of type `Data`. `allocate` moves a value
/// into the pool's storage and returns the handle that owns it, or returns
/// the value when the pool has no storage left for it.
pub trait BoxPool: Sized {
    /// The data type managed by the pool.
    type Data;

    /// The pool's own form of a boxed value.
    type BoxedValue;

    /// The invariant of the pool's own state. A pool without state of its
    /// own has none to keep.
    open spec fn wf(&self) -> bool {
        true
    }

    /// The value that `boxed` holds.
    spec fn held(boxed: &Self::BoxedValue) -> Self::Data;

    /// Read access to the value that `boxed` holds.
    fn get(boxed: &Self::BoxedValue) -> (value: &Self::Data)
        ensures
            *value == Self::held(boxed),
    ;

    /// Write access to the value that `boxed` holds.
    fn get_mut(boxed: &mut Self::BoxedValue) -> (value: &mut Self::Data)
        ensures
            *value == Self::held(old(boxed)),
            Self::held(final(boxed)) == *final(value),
    ;

    /// Allocates a new boxed value from the pool. On failure the value
    /// comes back unchanged.
    fn allocate(&mut self, value: Self::Data) -> (r: Result<Box<Self>, Self::Data>)
        requires
            old(self).wf(),
        ensures
            final(self).wf(),
            r is Ok ==> Self::held(&r->Ok_0.0) == value,
            r is Err ==> r->Err_0 == value,
    ;
}

/// A boxed value managed by a [`BoxPool`]: the exclusive owner of one value
/// in the pool's storage.
///
/// Its view is the value it holds.
#[verifier::reject_recursive_types(P)]
#[derive(Debug, PartialEq, Eq)]
pub struct Box<P: BoxPool>(pub P::BoxedValue);

impl<P: BoxPool> View for Box<P> {
    type V = P::Data;

    open spec fn view(&self) -> P::Data {
        P::held(&self.0)
    }
}

impl<P: BoxPool> Box<P> {
    /// Wraps the pool's own form of a boxed value.
    pub fn new(value: P::BoxedValue) -> (b: Self)
        ensures
            b.0 == value,
    {
        Box(value)
    }
}

impl<P: BoxPool> core::ops::Deref for Box<P> {
    type Target = P::Data;

    fn deref(&self) -> (value: &P::Data)
        ensures
            *value == self@,
    {
        P::get(&self.0)
    }
}

impl<P: BoxPool> core::ops::DerefMut for Box<P> {
    fn deref_mut(&mut self) -> (value: &mut P::Data)
        ensures
            *value == old(self)@,
            final(self)@ == *final(value),
    {
        P::get_mut(&mut self.0)
    }
}

} // verus!
