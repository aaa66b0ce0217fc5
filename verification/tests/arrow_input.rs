use kalkoto_lib::adapters::colonnes::Colonne;
use kalkoto_lib::adapters::input_adapters::arrow_input_adapter::extract_values_from_arrow;
use kalkoto_lib::adapters::input_adapters::arrow_input_adapter::menages_des_colonnes;
use kalkoto_lib::adapters::input_adapters::arrow_input_adapter::ArrowInputAdapter;
use kalkoto_lib::adapters::input_adapters::MenageAdapter;
use kalkoto_lib::adapters::input_adapters::MenageListAdapterError;
use kalkoto_lib::adapters::input_adapters::MenageListCreator;
use kalkoto_lib::entities::menage::Caracteristique;
use kalkoto_lib::entities::menage_input::EmptyList;
use kalkoto_lib::entities::menage_input::MenageInputBuilder;
use kalkoto_lib::reel::Reel;
use kalkoto_lib::KalkotoError;

fn reel(x: f64) -> Reel {
    Reel::from_bits(x.to_bits())
}

fn valeur_manquante(index: i32) -> KalkotoError {
    KalkotoError::ListMenageError(MenageListAdapterError::Validation {
        fault_index: index,
        cause: "Valeur manquante (NA) !".to_string(),
        conseil: "Vérifier la construction du dataframe R".to_string(),
    })
}

#[test]
fn columns_give_characteristics_of_their_type() {
    assert_eq!(
        extract_values_from_arrow(&Colonne::Int32(vec![Some(1), Some(-2)]), 2),
        Ok(vec![Caracteristique::Entier(1), Caracteristique::Entier(-2)])
    );
    assert_eq!(
        extract_values_from_arrow(&Colonne::Float64(vec![Some(reel(1.5))]), 1),
        Ok(vec![Caracteristique::Numeric(reel(1.5))])
    );
    assert_eq!(
        extract_values_from_arrow(&Colonne::Utf8(vec![Some("A".to_string())]), 1),
        Ok(vec![Caracteristique::Textuel("A".to_string())])
    );
    assert_eq!(
        extract_values_from_arrow(&Colonne::Int32(vec![Some(1), Some(2)]), 1),
        Ok(vec![Caracteristique::Entier(1)])
    );
}

#[test]
fn missing_cell_is_reported_with_its_rank() {
    assert_eq!(
        extract_values_from_arrow(&Colonne::Int32(vec![Some(1), None, None]), 3),
        Err(valeur_manquante(1))
    );
    assert_eq!(
        extract_values_from_arrow(&Colonne::Float64(vec![None]), 1),
        Err(valeur_manquante(0))
    );
    assert_eq!(
        extract_values_from_arrow(&Colonne::Utf8(vec![Some("a".to_string()), None]), 2),
        Err(valeur_manquante(1))
    );
}

#[test]
fn other_column_types_are_refused() {
    assert_eq!(
        extract_values_from_arrow(&Colonne::Autre, 0),
        Err(KalkotoError::ListMenageError(MenageListAdapterError::Arrow(
            "Le type de la colonne n'est pas supporté".to_string()
        )))
    );
}

fn colonnes() -> Vec<(String, Colonne)> {
    vec![
        ("Age".to_string(), Colonne::Int32(vec![Some(30), Some(40)])),
        (
            "Revenu".to_string(),
            Colonne::Float64(vec![Some(reel(1.5)), Some(reel(2.5))]),
        ),
        (
            "Zone".to_string(),
            Colonne::Utf8(vec![Some("A".to_string()), Some("B".to_string())]),
        ),
    ]
}

#[test]
fn arrow_adapter_builds_one_household_per_row() {
    let adapter = ArrowInputAdapter::new().populate(&colonnes(), 2).unwrap();
    let input = MenageAdapter::Arrow(adapter)
        .create_valid_menage_input(MenageInputBuilder::<EmptyList>::new())
        .unwrap();
    assert_eq!(input.liste_menage_valide.len(), 2);
    assert_eq!(input.liste_menage_valide[0].index, 1);
    assert_eq!(input.liste_menage_valide[1].index, 2);
    assert_eq!(
        input.liste_menage_valide[1].caracteristiques.get("Age"),
        Some(&Caracteristique::Entier(40))
    );
    assert_eq!(
        input.liste_menage_valide[0].caracteristiques.get("Zone"),
        Some(&Caracteristique::Textuel("A".to_string()))
    );
    assert_eq!(input.set_caracteristiques_valide.len(), 3);
    assert_eq!(input.set_caracteristiques_valide.nom(0), "Age");
}

#[test]
fn arrow_adapter_refuses_short_columns_and_missing_cells() {
    assert_eq!(
        ArrowInputAdapter::new().populate(&colonnes(), 3).err(),
        Some(KalkotoError::ListMenageError(MenageListAdapterError::Arrow(
            "Une colonne est plus courte que le dataframe".to_string()
        )))
    );
    let mut avec_trou = colonnes();
    avec_trou[1].1 = Colonne::Float64(vec![Some(reel(1.5)), None]);
    assert_eq!(
        ArrowInputAdapter::new().populate(&avec_trou, 2).err(),
        Some(valeur_manquante(1))
    );
}

#[test]
fn arrow_adapter_without_table_is_uninitialized() {
    let r = ArrowInputAdapter::new().create_valid_menage_input(MenageInputBuilder::<EmptyList>::new());
    assert_eq!(
        r,
        Err(KalkotoError::ListMenageError(
            MenageListAdapterError::Uninitialized
        ))
    );
}

#[test]
fn arrow_adapter_without_rows_fails_validation_as_empty() {
    let adapter = ArrowInputAdapter::new().populate(&colonnes(), 0).unwrap();
    let r = adapter.create_valid_menage_input(MenageInputBuilder::<EmptyList>::new());
    match r {
        Err(KalkotoError::ListMenageError(MenageListAdapterError::Validation {
            fault_index,
            ..
        })) => assert_eq!(fault_index, -1),
        _ => panic!("no row, no household"),
    }
}

#[test]
fn households_of_columns_report_the_first_missing_value() {
    let colonnes = vec![
        (
            "Age".to_string(),
            vec![Caracteristique::Entier(1), Caracteristique::Entier(2)],
        ),
        ("Zone".to_string(), vec![Caracteristique::Entier(1)]),
    ];
    assert_eq!(
        menages_des_colonnes(&colonnes, 2),
        Err(KalkotoError::ListMenageError(
            MenageListAdapterError::Validation {
                fault_index: 1,
                cause: "Problème à la lecture de la composante Zone".to_string(),
                conseil: String::new(),
            }
        ))
    );
    let menages = menages_des_colonnes(&colonnes, 1).unwrap();
    assert_eq!(menages.len(), 1);
    assert_eq!(menages[0].index, 1);
    assert_eq!(menages[0].caracteristiques.len(), 2);
}

#[test]
fn dataframe_file_must_end_in_arrow() {
    assert_eq!(ArrowInputAdapter::verifier_extension(Some("arrow")), Ok(()));
    let refus = Err(KalkotoError::ListMenageError(
        MenageListAdapterError::FileFormat(
            "Le fichier indiqué n'est pas un Arrow dataframe".to_string(),
        ),
    ));
    assert_eq!(ArrowInputAdapter::verifier_extension(Some("csv")), refus);
    assert_eq!(ArrowInputAdapter::verifier_extension(None), refus);
}
