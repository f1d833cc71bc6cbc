//! Containers that assign identifiers to the elements they own.

use vstd::prelude::*;

use crate::error::Error;

pub mod laws;
pub mod reusable_index_vec;

pub use reusable_index_vec::{ReusableIndexIterator, ReusableIndexNode, ReusableIndexVec};

verus! {

/// Counts how many times a position has been occupied, wrapping on overflow.
pub type CycleStamp = u32;

/// A position in the underlying storage.
pub type Index = usize;

/// The result of a fallible list operation.
pub type ListResult<T> = Result<T, Error>;

/// The identifier of an element: the position it occupies and the cycle of
/// reuse of that position during which it was added.
#[derive(Debug, Clone, Copy, PartialEq, Eq, Hash, Structural)]
pub struct ID(pub CycleStamp, pub Index);

} // verus!
