//! Growable arrays, strings and object pools with a declared capacity.
//!
//! Every container comes in two forms with one fallible interface:
//!
//! * the items at the crate root ([`Vec`], [`String`], [`boxed::Pool`])
//!   treat the capacity as a hard ceiling: an operation that would exceed it
//!   fails and hands its argument back;
//! * the items under [`heap`] treat the capacity as a reservation hint only:
//!   the same operations always succeed.
pub mod boxed;
pub mod error;
pub mod heap;
pub mod laws;
pub mod string;
pub mod vec;

pub use error::Error;
pub use string::String;
pub use vec::Vec;
