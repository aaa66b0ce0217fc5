use kalkoto_lib::adapters::input_adapters::MenageListAdapterError;
use kalkoto_lib::adapters::input_adapters::PolicyAdapterError;
use kalkoto_lib::adapters::output_adapters::OutputAdapterError;
use kalkoto_lib::entities::menage::Menage;
use kalkoto_lib::entities::simulator::SimulationError;
use kalkoto_lib::KalkotoError;

#[test]
fn errors_convert_into_the_library_error() {
    assert_eq!(
        KalkotoError::from(MenageListAdapterError::Uninitialized),
        KalkotoError::ListMenageError(MenageListAdapterError::Uninitialized)
    );
    assert_eq!(
        KalkotoError::from(PolicyAdapterError::Trait),
        KalkotoError::PolicyError(PolicyAdapterError::Trait)
    );
    assert_eq!(
        KalkotoError::from(SimulationError::ResultsError("r".to_string())),
        KalkotoError::SimError(SimulationError::ResultsError("r".to_string()))
    );
    assert_eq!(
        KalkotoError::from(OutputAdapterError::Custom("c".to_string())),
        KalkotoError::ExportError(OutputAdapterError::Custom("c".to_string()))
    );
    assert_eq!(
        PolicyAdapterError::from("champ".to_string()),
        PolicyAdapterError::Generic("champ".to_string())
    );
}

#[test]
fn default_household_has_index_zero_and_nothing_else() {
    let menage = Menage::default();
    assert_eq!(menage.index, 0);
    assert!(menage.caracteristiques.is_empty());
    assert_eq!(menage, Menage::new(0));
}
