//! The error type of the whole library.

use crate::adapters::input_adapters::MenageListAdapterError;
use crate::adapters::input_adapters::PolicyAdapterError;
use crate::adapters::output_adapters::OutputAdapterError;
use crate::entities::simulator::SimulationError;
use vstd::prelude::*;

verus! {

/// Every failure of the library, by the stage at which it arose.
#[derive(Debug, PartialEq)]
pub enum KalkotoError {
    /// The list of households could not be built.
    ListMenageError(MenageListAdapterError),
    /// The policy could not be built.
    PolicyError(PolicyAdapterError),
    /// The simulation could not be set up or run.
    SimError(SimulationError),
    /// The results could not be exported.
    ExportError(OutputAdapterError),
}

impl From<MenageListAdapterError> for KalkotoError {
    fn from(e: MenageListAdapterError) -> (r: KalkotoError) {
        KalkotoError::ListMenageError(e)
    }
}

impl vstd::std_specs::convert::FromSpecImpl<MenageListAdapterError> for KalkotoError {
    open spec fn obeys_from_spec() -> bool {
        true
    }

    open spec fn from_spec(e: MenageListAdapterError) -> KalkotoError {
        KalkotoError::ListMenageError(e)
    }
}

impl From<PolicyAdapterError> for KalkotoError {
    fn from(e: PolicyAdapterError) -> (r: KalkotoError) {
        KalkotoError::PolicyError(e)
    }
}

impl vstd::std_specs::convert::FromSpecImpl<PolicyAdapterError> for KalkotoError {
    open spec fn obeys_from_spec() -> bool {
        true
    }

    open spec fn from_spec(e: PolicyAdapterError) -> KalkotoError {
        KalkotoError::PolicyError(e)
    }
}

impl From<SimulationError> for KalkotoError {
    fn from(e: SimulationError) -> (r: KalkotoError) {
        KalkotoError::SimError(e)
    }
}

impl vstd::std_specs::convert::FromSpecImpl<SimulationError> for KalkotoError {
    open spec fn obeys_from_spec() -> bool {
        true
    }

    open spec fn from_spec(e: SimulationError) -> KalkotoError {
        KalkotoError::SimError(e)
    }
}

impl From<OutputAdapterError> for KalkotoError {
    fn from(e: OutputAdapterError) -> (r: KalkotoError) {
        KalkotoError::ExportError(e)
    }
}

impl vstd::std_specs::convert::FromSpecImpl<OutputAdapterError> for KalkotoError {
    open spec fn obeys_from_spec() -> bool {
        true
    }

    open spec fn from_spec(e: OutputAdapterError) -> KalkotoError {
        KalkotoError::ExportError(e)
    }
}

} // verus!
