//! What most callers need, in one place.

use vstd::prelude::*;

pub use crate::errors::KalkotoError;
pub use crate::KalkotoResult;

verus! {

/// A wrapper that makes a type of another crate one of the caller's own, so that the
/// caller may implement traits for it.
pub struct Wrapper<T>(pub T);

} // verus!
