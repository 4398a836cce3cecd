//! A pool that takes its storage from the heap.
use crate::boxed::{Box, BoxPool};
use vstd::prelude::*;

verus! {

/// A pool for values of type `T` that allocates a block on the heap for
/// each value. `N` is the number of blocks that a pool of fixed capacity
/// would have; here it limits nothing, and allocation always succeeds.
#[derive(Debug, PartialEq, Eq)]
pub struct Pool<T, const N: usize> {
    marker: core::marker::PhantomData<T>,
}

impl<T, const N: usize> Pool<T, N> {
    /// A new pool.
    pub fn new() -> (pool: Self) {
        Pool { marker: core::marker::PhantomData }
    }

    /// Ends the loan of `boxed` and returns the value it held.
    pub fn release(&mut self, boxed: Box<Self>) -> (value: T)
        ensures
            value == boxed@,
    {
        *boxed.0
    }
}

impl<T, const N: usize> BoxPool for Pool<T, N> {
    type Data = T;

    type BoxedValue = std::boxed::Box<T>;

    open spec fn held(boxed: &std::boxed::Box<T>) -> T {
        **boxed
    }

    fn get(boxed: &std::boxed::Box<T>) -> (value: &T) {
        &**boxed
    }

    fn get_mut(boxed: &mut std::boxed::Box<T>) -> (value: &mut T) {
        &mut **boxed
    }

    /// Moves `value` into a new block on the heap. Always succeeds.
    fn allocate(&mut self, value: T) -> (r: Result<Box<Self>, T>)
        ensures
            r is Ok,
    {
        Ok(Box(std::boxed::Box::new(value)))
    }
}

} // verus!
