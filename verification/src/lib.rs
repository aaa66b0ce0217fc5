//! Microsimulation of public policies on households.
//!
//! Households with typed characteristics are validated, a policy made of ordered
//! components is evaluated for each of them, and the results of a variant policy are
//! compared with those of a baseline. Rules, and every computation on real numbers,
//! are supplied by the caller.

use vstd::prelude::*;

pub mod adapters;
pub mod dictionnaire;
pub mod entities;
pub mod errors;
pub mod prelude;
pub mod reel;
pub mod texte;

pub use crate::errors::KalkotoError;

verus! {

/// What every fallible operation of the library returns.
pub type KalkotoResult<T> = core::result::Result<T, crate::errors::KalkotoError>;

} // verus!
