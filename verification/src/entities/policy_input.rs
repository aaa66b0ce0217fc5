//! A policy that an adapter has built and checked.

use crate::entities::policy::Policy;
use vstd::prelude::*;

verus! {

/// A policy ready to be attached to a simulation.
#[derive(Debug, Clone, PartialEq)]
pub struct PolicyInput {
    pub valid_policy: Policy,
}

} // verus!
