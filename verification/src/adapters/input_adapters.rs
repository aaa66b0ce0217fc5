//! Sources of households and of policies, and what they report when they fail.

use crate::adapters::input_adapters::arrow_input_adapter::ArrowInputAdapter;
use crate::adapters::input_adapters::csv_input_adapter::CsvInputAdapter;
use crate::entities::menage_input::EmptyList;
use crate::entities::menage_input::MenageInput;
use crate::entities::menage_input::MenageInputBuilder;
use crate::entities::policy_input::PolicyInput;
use crate::KalkotoResult;
use vstd::prelude::*;

pub mod arrow_input_adapter;
pub mod csv_input_adapter;
pub mod toml_input_adapter;

verus! {

/// Why a list of households could not be obtained or accepted.
#[derive(Debug, PartialEq)]
pub enum MenageListAdapterError {
    /// The input could not be read; the text is the reader's own account.
    IO(String),
    /// The input is not of the expected file format.
    FileFormat(String),
    /// The households are not acceptable. `fault_index` is the index of the household
    /// at fault, or -1 when no single household is.
    Validation { fault_index: i32, cause: String, conseil: String },
    /// The columnar reader failed; the text is its own account.
    Arrow(String),
    /// A step was taken before the households were in place.
    Uninitialized,
}

/// Why a policy could not be obtained or accepted.
#[derive(Debug, PartialEq)]
pub enum PolicyAdapterError {
    /// The input could not be opened or read.
    IO(String),
    /// The input is not of the expected file format.
    FileFormat(String),
    /// The input is not valid UTF-8.
    UTF8(String),
    /// The configuration could not be written out.
    Deserialize(String),
    /// The configuration could not be parsed or interpreted.
    Interpret(String),
    /// Fields are missing or invalid.
    Generic(String),
    /// A step was taken before the policy was in place.
    Trait,
}

impl From<String> for PolicyAdapterError {
    fn from(value: String) -> (r: PolicyAdapterError) {
        PolicyAdapterError::Generic(value)
    }
}

impl vstd::std_specs::convert::FromSpecImpl<String> for PolicyAdapterError {
    open spec fn obeys_from_spec() -> bool {
        true
    }

    open spec fn from_spec(value: String) -> PolicyAdapterError {
        PolicyAdapterError::Generic(value)
    }
}

/// A source of households. Whatever it yields has passed validation.
pub trait MenageListCreator: Sized {
    fn create_valid_menage_input(self, empty_menage_input: MenageInputBuilder<EmptyList>) -> (r:
        KalkotoResult<MenageInput>)
        ensures
            r matches Ok(input) ==> input.est_valide(),
    ;
}

/// A source of policies. Whatever it yields is fit for simulation.
pub trait PolicyCreator: Sized {
    fn create_valid_policy_input(self) -> (r: KalkotoResult<PolicyInput>)
        ensures
            r matches Ok(input) ==> input.valid_policy.est_valide(),
    ;
}

/// The sources of households that the library knows: delimited text and columnar
/// files.
#[derive(Debug)]
pub enum MenageAdapter {
    CSV(CsvInputAdapter),
    Arrow(ArrowInputAdapter),
}

impl MenageListCreator for MenageAdapter {
    /// Hands over to the adapter held.
    fn create_valid_menage_input(self, empty_menage_input: MenageInputBuilder<EmptyList>) -> (r:
        KalkotoResult<MenageInput>)
        ensures
            match self {
                MenageAdapter::CSV(adapter) => call_ensures(
                    CsvInputAdapter::create_valid_menage_input,
                    (adapter, empty_menage_input),
                    r,
                ),
                MenageAdapter::Arrow(adapter) => call_ensures(
                    ArrowInputAdapter::create_valid_menage_input,
                    (adapter, empty_menage_input),
                    r,
                ),
            },
    {
        match self {
            MenageAdapter::CSV(csv_input_adapter) => csv_input_adapter.create_valid_menage_input(
                empty_menage_input,
            ),
            MenageAdapter::Arrow(arrow_input_adapter) => {
                arrow_input_adapter.create_valid_menage_input(empty_menage_input)
            },
        }
    }
}

} // verus!
