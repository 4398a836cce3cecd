//! The containers on the heap.
//!
//! The types here have the names and the signatures of the ones at the crate
//! root. The capacity in their type is the room reserved at the start and
//! limits nothing: what can fail there for want of room always succeeds
//! here.
pub mod boxed;
pub mod string;
pub mod vec;

pub use string::String;
pub use vec::Vec;
