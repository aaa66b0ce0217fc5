//! Destinations of results, and what they report when they fail.

use crate::adapters::output_adapters::arrow_output_adapter::ArrowOutputAdapter;
use crate::adapters::output_adapters::csv_output_adapter::CSVOutputAdapter;
use crate::adapters::input_adapters::arrow_input_adapter::cause_extension;
use crate::adapters::input_adapters::MenageListAdapterError;
use crate::entities::simulator::SimulatorBuilder;
use crate::entities::simulator::ValidBaselineInput;
use crate::entities::simulator::ValidMenageInput;
use crate::entities::simulator::ValidVarianteInput;
use crate::errors::KalkotoError;
use crate::texte::egal_str;
use crate::KalkotoResult;
use vstd::prelude::*;

pub mod arrow_output_adapter;
pub mod csv_output_adapter;

verus! {

/// Why results could not be exported.
#[derive(Debug, PartialEq)]
pub enum OutputAdapterError {
    /// The destination could not be opened or written.
    IO(String),
    /// The delimited-text writer failed; the text is its own account.
    CSV(String),
    /// The columnar writer failed; the text is its own account.
    Arrow(String),
    /// The results do not lend themselves to export.
    Custom(String),
}

/// The destinations that the library knows: delimited text and columnar files.
#[derive(Debug)]
pub enum OutputAdapter {
    CSV(CSVOutputAdapter),
    Arrow(ArrowOutputAdapter),
}

impl OutputAdapter {
    /// The destination that goes with a kind of input file, `arrow` or `csv`, with
    /// the prefix of its output files, if any. Any other kind is refused.
    pub fn from_type(type_fichier_menages: &str, prefix: &Option<String>) -> (r: KalkotoResult<
        OutputAdapter,
    >)
        ensures
            match r {
                Ok(OutputAdapter::Arrow(adapter)) => type_fichier_menages@ == "arrow"@
                    && adapter.prefixe() == prefixe_vu(*prefix),
                Ok(OutputAdapter::CSV(adapter)) => type_fichier_menages@ == "csv"@
                    && type_fichier_menages@ != "arrow"@ && adapter.prefixe() == prefixe_vu(
                    *prefix,
                ),
                Err(e) => {
                    &&& type_fichier_menages@ != "arrow"@
                    &&& type_fichier_menages@ != "csv"@
                    &&& e matches KalkotoError::ListMenageError(
                        MenageListAdapterError::FileFormat(cause),
                    )
                    &&& cause@ == cause_extension()
                },
            },
    {
        if egal_str(type_fichier_menages, "arrow") {
            let mut output_adapter = ArrowOutputAdapter::new();
            if let Some(prefix) = prefix {
                output_adapter = output_adapter.add_output_prefix(prefix.clone());
            }
            Ok(OutputAdapter::Arrow(output_adapter))
        } else if egal_str(type_fichier_menages, "csv") {
            let mut output_adapter = CSVOutputAdapter::new();
            if let Some(prefix) = prefix {
                output_adapter = output_adapter.add_output_prefix(prefix.clone());
            }
            Ok(OutputAdapter::CSV(output_adapter))
        } else {
            Err(
                KalkotoError::ListMenageError(
                    MenageListAdapterError::FileFormat(
                        "Le fichier indiqué n'est pas un Arrow dataframe".to_string(),
                    ),
                ),
            )
        }
    }
}

/// The view of a prefix that may be absent.
pub open spec fn prefixe_vu(prefix: Option<String>) -> Option<Seq<char>> {
    match prefix {
        Some(p) => Some(p@),
        None => None,
    }
}

/// A destination of results.
pub trait OutputWriter {
    /// Exports the baseline results of a session.
    fn export_baseline_results<E>(
        &self,
        simulated: &SimulatorBuilder<ValidMenageInput, ValidBaselineInput, E>,
    ) -> KalkotoResult<()>;

    /// Exports the variant results of a session, and their difference to the baseline.
    fn export_variante_results(
        &self,
        simulated: &SimulatorBuilder<ValidMenageInput, ValidBaselineInput, ValidVarianteInput>,
    ) -> KalkotoResult<()>;
}

} // verus!
