use kalkoto_lib::adapters::colonnes::Champ;
use kalkoto_lib::adapters::colonnes::Colonne;
use kalkoto_lib::adapters::colonnes::Lot;
use kalkoto_lib::adapters::colonnes::TypeColonne;
use kalkoto_lib::adapters::output_adapters::arrow_output_adapter::create_field_from_caracteristique;
use kalkoto_lib::adapters::output_adapters::arrow_output_adapter::create_final_record_batch;
use kalkoto_lib::adapters::output_adapters::arrow_output_adapter::create_record_batch_from_list_dict_results;
use kalkoto_lib::adapters::output_adapters::arrow_output_adapter::create_record_batch_from_menage_list;
use kalkoto_lib::adapters::output_adapters::arrow_output_adapter::create_vec_values;
use kalkoto_lib::adapters::output_adapters::arrow_output_adapter::extract_schema_from_menage;
use kalkoto_lib::adapters::output_adapters::arrow_output_adapter::extract_schema_from_results_dict;
use kalkoto_lib::adapters::output_adapters::arrow_output_adapter::extract_values_from_list_results_dict;
use kalkoto_lib::adapters::output_adapters::arrow_output_adapter::extract_values_from_menage_list;
use kalkoto_lib::adapters::output_adapters::arrow_output_adapter::validate_menage_list;
use kalkoto_lib::adapters::output_adapters::arrow_output_adapter::ArrowOutputAdapter;
use kalkoto_lib::adapters::output_adapters::OutputAdapterError;
use kalkoto_lib::dictionnaire::Dictionnaire;
use kalkoto_lib::entities::menage::Caracteristique;
use kalkoto_lib::entities::menage::Menage;
use kalkoto_lib::entities::menage_input::EmptyList;
use kalkoto_lib::entities::menage_input::MenageInputBuilder;
use kalkoto_lib::entities::policy::Composante;
use kalkoto_lib::entities::policy::Function;
use kalkoto_lib::entities::policy::Parameters;
use kalkoto_lib::entities::policy::Policy;
use kalkoto_lib::entities::policy_input::PolicyInput;
use kalkoto_lib::entities::simulator::EmptyBaselineInput;
use kalkoto_lib::entities::simulator::EmptyMenageInput;
use kalkoto_lib::entities::simulator::EmptyVarianteInput;
use kalkoto_lib::entities::simulator::SimulatorBuilder;
use kalkoto_lib::reel::Reel;
use kalkoto_lib::KalkotoError;
use kalkoto_lib::KalkotoResult;

fn reel(x: f64) -> Reel {
    Reel::from_bits(x.to_bits())
}

fn champ(nom: &str, type_colonne: TypeColonne) -> Champ {
    Champ {
        nom: nom.to_string(),
        type_colonne,
        nullable: true,
    }
}

fn erreur(cause: &str) -> KalkotoError {
    KalkotoError::ExportError(OutputAdapterError::Custom(cause.to_string()))
}

fn menage_age_revenu(index: i32, age: i32, revenu: f64) -> Menage {
    let mut menage = Menage::new(index);
    menage
        .caracteristiques
        .insert(String::from("Age"), Caracteristique::Entier(age));
    menage
        .caracteristiques
        .insert(String::from("Revenu"), Caracteristique::Numeric(reel(revenu)));
    menage
}

#[test]
fn test_menage_list_valid_for_valide_liste() -> KalkotoResult<()> {
    let first_menage = menage_age_revenu(1, 30, 500.65f64);
    let second_menage = menage_age_revenu(2, 30, 400.45f64);

    let valid_vec_menage = vec![first_menage, second_menage];

    let wanted = true;
    let result = validate_menage_list(&valid_vec_menage)?;
    assert_eq!(wanted, result);

    Ok(())
}

#[test]
fn test_menage_list_valid_for_unvalide_liste() -> KalkotoResult<()> {
    let first_menage = menage_age_revenu(1, 30, 500.65f64);

    let mut faulty_menage = Menage::new(2);
    faulty_menage
        .caracteristiques
        .insert(String::from("Age"), Caracteristique::Entier(30));

    faulty_menage
        .caracteristiques
        .insert(String::from("Salaire"), Caracteristique::Numeric(reel(400.45f64)));

    let valid_vec_menage = vec![first_menage, faulty_menage];

    let wanted = true;
    let result = validate_menage_list(&valid_vec_menage).is_err();
    assert_eq!(wanted, result);

    Ok(())
}

#[test]
fn test_create_schema_invalid_for_invalid_liste() -> KalkotoResult<()> {
    let first_menage = menage_age_revenu(1, 30, 500.65f64);

    let mut second_menage = Menage::new(2);
    second_menage
        .caracteristiques
        .insert(String::from("Age"), Caracteristique::Entier(30));

    second_menage.caracteristiques.insert(
        String::from("Logement"),
        Caracteristique::Numeric(reel(400.45f64)),
    );

    let valid_vec_menage = vec![first_menage, second_menage];

    let record_batch_result = create_record_batch_from_menage_list(&valid_vec_menage);

    let wanted = true;
    let result = record_batch_result.is_err();
    assert_eq!(wanted, result);
    Ok(())
}

#[test]
fn test_extract_schema_valid_dict_results() -> KalkotoResult<()> {
    let mut valid_dict = Dictionnaire::new();
    valid_dict.insert(String::from("salaire_net"), reel(123f64));
    valid_dict.insert(String::from("rsa"), reel(0.005f64));

    let field_0 = champ("salaire_net", TypeColonne::Float64);
    let field_1 = champ("rsa", TypeColonne::Float64);

    let wanted = vec![field_1, field_0];
    let result = extract_schema_from_results_dict(&valid_dict)?;

    assert_eq!(wanted, result);
    Ok(())
}

#[test]
fn test_extract_values_valid_list_dict_results() -> KalkotoResult<()> {
    let mut valid_dict_0 = Dictionnaire::new();
    valid_dict_0.insert(String::from("salaire_net"), reel(123f64));
    valid_dict_0.insert(String::from("rsa"), reel(0.005f64));

    let mut valid_dict_1 = Dictionnaire::new();
    valid_dict_1.insert(String::from("salaire_net"), reel(234f64));
    valid_dict_1.insert(String::from("rsa"), reel(0.006f64));

    let valid_list_dict_results = vec![valid_dict_0, valid_dict_1];

    let array_salaire_net = vec![Some(reel(123f64)), Some(reel(234f64))];
    let array_rsa = vec![Some(reel(0.005f64)), Some(reel(0.006f64))];

    let wanted = vec![array_rsa, array_salaire_net];
    let result = extract_values_from_list_results_dict(&valid_list_dict_results)?;
    assert_eq!(wanted, result);
    Ok(())
}

#[test]
fn test_extract_values_valid_list_dict_results_with_options() -> KalkotoResult<()> {
    let mut valid_dict_0 = Dictionnaire::new();
    valid_dict_0.insert(String::from("salaire_net"), Some(reel(123f64)));
    valid_dict_0.insert(String::from("rsa"), None);

    let mut valid_dict_1 = Dictionnaire::new();
    valid_dict_1.insert(String::from("salaire_net"), Some(reel(234f64)));
    valid_dict_1.insert(String::from("rsa"), Some(reel(0.006f64)));

    let valid_list_dict_results = vec![valid_dict_0, valid_dict_1];

    let array_salaire_net = vec![Some(reel(123f64)), Some(reel(234f64))];
    let array_rsa = vec![None, Some(reel(0.006f64))];

    let wanted = vec![array_rsa, array_salaire_net];
    let result = extract_values_from_list_results_dict(&valid_list_dict_results)?;

    assert_eq!(wanted, result);
    Ok(())
}

#[test]
fn results_column_stops_at_first_row_that_lacks_it() {
    let mut premier = Dictionnaire::new();
    premier.insert("rsa".to_string(), reel(1.0));
    let sans: Dictionnaire<Reel> = Dictionnaire::new();
    let mut troisieme = Dictionnaire::new();
    troisieme.insert("rsa".to_string(), reel(3.0));
    let colonnes =
        extract_values_from_list_results_dict(&[premier, sans, troisieme]).unwrap();
    assert_eq!(
        colonnes,
        vec![vec![Some(reel(1.0)), Some(reel(0.0)), Some(reel(0.0))]]
    );

    let mut premier = Dictionnaire::new();
    premier.insert("rsa".to_string(), Some(reel(1.0)));
    let sans: Dictionnaire<Option<Reel>> = Dictionnaire::new();
    let mut troisieme = Dictionnaire::new();
    troisieme.insert("rsa".to_string(), Some(reel(3.0)));
    let colonnes =
        extract_values_from_list_results_dict(&[premier, sans, troisieme]).unwrap();
    assert_eq!(colonnes, vec![vec![Some(reel(1.0)), None, None]]);
}

#[test]
fn results_of_nothing_are_refused() {
    let vide: Vec<Dictionnaire<Reel>> = Vec::new();
    assert_eq!(
        extract_values_from_list_results_dict(&vide),
        Err(erreur("Dictionnaire de résultats vide"))
    );
    assert_eq!(
        create_record_batch_from_list_dict_results(&vide),
        Err(erreur("Aucun ménage dans la liste"))
    );
}

#[test]
fn field_follows_the_kind_of_the_characteristic() {
    assert_eq!(
        create_field_from_caracteristique("Age", &Caracteristique::Entier(3)),
        champ("Age", TypeColonne::Int32)
    );
    assert_eq!(
        create_field_from_caracteristique("Revenu", &Caracteristique::Numeric(reel(3.5))),
        champ("Revenu", TypeColonne::Float64)
    );
    assert_eq!(
        create_field_from_caracteristique("Zone", &Caracteristique::Textuel("A".to_string())),
        champ("Zone", TypeColonne::Utf8)
    );
}

#[test]
fn create_vec_values_needs_the_name_everywhere() {
    let liste = vec![menage_age_revenu(1, 30, 1.0), menage_age_revenu(2, 40, 2.0)];
    assert_eq!(
        create_vec_values("Age", &liste),
        Ok(vec![Caracteristique::Entier(30), Caracteristique::Entier(40)])
    );
    assert_eq!(
        create_vec_values("Zone", &liste),
        Err(erreur("La caractéristique n'est pas présente"))
    );
    assert_eq!(create_vec_values("Zone", &[]), Ok(Vec::new()));
}

#[test]
fn validate_menage_list_reports_incompatible_neighbours() {
    let liste = vec![menage_age_revenu(1, 30, 1.0), Menage::new(2)];
    assert_eq!(
        validate_menage_list(&liste),
        Err(erreur("Ménages aux caractéristiques incompatibles"))
    );
    assert_eq!(validate_menage_list(&[]), Ok(true));
}

#[test]
fn schema_of_household_is_sorted_by_name() {
    let mut menage = Menage::new(1);
    menage
        .caracteristiques
        .insert("Zone".to_string(), Caracteristique::Textuel("A".to_string()));
    menage
        .caracteristiques
        .insert("Age".to_string(), Caracteristique::Entier(30));
    menage
        .caracteristiques
        .insert("Revenu".to_string(), Caracteristique::Numeric(reel(2.0)));
    assert_eq!(
        extract_schema_from_menage(&menage),
        Ok(vec![
            champ("Age", TypeColonne::Int32),
            champ("Revenu", TypeColonne::Float64),
            champ("Zone", TypeColonne::Utf8),
        ])
    );
}

#[test]
fn households_give_typed_columns_sorted_by_name() {
    let mut premier = menage_age_revenu(1, 30, 1.5);
    premier
        .caracteristiques
        .insert("Zone".to_string(), Caracteristique::Textuel("A".to_string()));
    let mut second = Menage::new(2);
    second
        .caracteristiques
        .insert("Zone".to_string(), Caracteristique::Textuel("B".to_string()));
    second
        .caracteristiques
        .insert("Revenu".to_string(), Caracteristique::Numeric(reel(2.5)));
    second
        .caracteristiques
        .insert("Age".to_string(), Caracteristique::Entier(40));
    let liste = vec![premier, second];

    let colonnes = extract_values_from_menage_list(&liste[0], &liste).unwrap();
    let attendues = vec![
        Colonne::Int32(vec![Some(30), Some(40)]),
        Colonne::Float64(vec![Some(reel(1.5)), Some(reel(2.5))]),
        Colonne::Utf8(vec![Some("A".to_string()), Some("B".to_string())]),
    ];
    assert_eq!(colonnes, attendues);

    let lot = create_record_batch_from_menage_list(&liste).unwrap();
    assert_eq!(lot.num_rows(), 2);
    assert_eq!(lot.colonnes, attendues);
    assert_eq!(
        lot.champs,
        vec![
            champ("Age", TypeColonne::Int32),
            champ("Revenu", TypeColonne::Float64),
            champ("Zone", TypeColonne::Utf8),
        ]
    );
}

#[test]
fn households_of_nothing_are_refused() {
    assert_eq!(
        create_record_batch_from_menage_list(&[]),
        Err(erreur("Aucun ménage dans le fichier d'input"))
    );
    let modele = menage_age_revenu(1, 30, 1.0);
    assert_eq!(
        extract_values_from_menage_list(&modele, &[]),
        Err(erreur("Première colonne vide !"))
    );
    assert_eq!(
        extract_values_from_menage_list(&Menage::new(1), &[]),
        Ok(Vec::new())
    );
}

#[test]
fn final_table_puts_households_before_results() {
    let liste = vec![menage_age_revenu(1, 30, 1.5), menage_age_revenu(2, 40, 2.5)];
    let menages = create_record_batch_from_menage_list(&liste).unwrap();
    let mut r0 = Dictionnaire::new();
    r0.insert("rsa".to_string(), reel(10.0));
    let mut r1 = Dictionnaire::new();
    r1.insert("rsa".to_string(), reel(20.0));
    let resultats = create_record_batch_from_list_dict_results(&[r0, r1]).unwrap();

    let lot = create_final_record_batch(&menages, &resultats).unwrap();
    assert_eq!(
        lot,
        Lot {
            champs: vec![
                champ("Age", TypeColonne::Int32),
                champ("Revenu", TypeColonne::Float64),
                champ("rsa", TypeColonne::Float64),
            ],
            colonnes: vec![
                Colonne::Int32(vec![Some(30), Some(40)]),
                Colonne::Float64(vec![Some(reel(1.5)), Some(reel(2.5))]),
                Colonne::Float64(vec![Some(reel(10.0)), Some(reel(20.0))]),
            ],
            nb_lignes: 2,
        }
    );
}

#[test]
fn final_table_needs_as_many_rows_on_both_sides() {
    let liste = vec![menage_age_revenu(1, 30, 1.5), menage_age_revenu(2, 40, 2.5)];
    let menages = create_record_batch_from_menage_list(&liste).unwrap();
    let mut r0 = Dictionnaire::new();
    r0.insert("rsa".to_string(), reel(10.0));
    let resultats = create_record_batch_from_list_dict_results(&[r0]).unwrap();
    assert_eq!(
        create_final_record_batch(&menages, &resultats),
        Err(erreur(
            "Le fichier ménages et la simulation n'ont pas la même longueur"
        ))
    );
}

#[test]
fn arrow_paths_carry_the_prefix() {
    let mut sans = ArrowOutputAdapter::new();
    assert_eq!(sans.chemin_baseline(), "baseline-results.arrow");
    assert_eq!(sans.chemin_variante(), "variante-results.arrow");
    assert_eq!(sans.chemin_diff(), "diff-results.arrow");
    let avec = sans.add_output_prefix("essai".to_string());
    assert_eq!(avec.chemin_baseline(), "essai-baseline-results.arrow");
    assert_eq!(avec.chemin_variante(), "essai-variante-results.arrow");
    assert_eq!(avec.chemin_diff(), "essai-diff-results.arrow");
    assert_eq!(sans.chemin_baseline(), "baseline-results.arrow");
}

fn session_baseline(
    resultats: Option<Vec<Dictionnaire<Reel>>>,
) -> SimulatorBuilder<
    kalkoto_lib::entities::simulator::ValidMenageInput,
    kalkoto_lib::entities::simulator::ValidBaselineInput,
    EmptyVarianteInput,
> {
    let input = MenageInputBuilder::<EmptyList>::new()
        .from_unvalidated_liste_menage(&[menage_age_revenu(1, 30, 1.5)])
        .validate_liste_menage()
        .unwrap()
        .build_valide_menage_input()
        .unwrap();
    let composante = Composante {
        name: "rsa".to_string(),
        intitule_long: "rsa".to_string(),
        parameters: Parameters {
            names: Vec::new(),
            intitules_long: Vec::new(),
            values: Vec::new(),
        },
        logical_order: 1,
        caracteristiques_dependencies: Vec::new(),
        function: Function::new(String::new()),
    };
    let policy = PolicyInput {
        valid_policy: Policy::from_composantes("p".to_string(), "t".to_string(), vec![composante]),
    };
    let mut session =
        SimulatorBuilder::<EmptyMenageInput, EmptyBaselineInput, EmptyVarianteInput>::new()
            .attacher_menages(Ok(input))
            .unwrap()
            .attacher_baseline(Ok(policy))
            .unwrap();
    session.results_baseline = resultats;
    session
}

#[test]
fn lots_of_a_session_without_results_are_refused() {
    let session = session_baseline(None);
    assert_eq!(
        ArrowOutputAdapter::new().lots_baseline(&session),
        Err(erreur("La simulation n'a pas encore été réalisée !"))
    );
}

#[test]
fn lots_of_a_session_are_households_and_results() {
    let mut r0 = Dictionnaire::new();
    r0.insert("rsa".to_string(), reel(10.0));
    let session = session_baseline(Some(vec![r0]));
    let (menages, resultats) = ArrowOutputAdapter::new().lots_baseline(&session).unwrap();
    assert_eq!(menages.num_rows(), 1);
    assert_eq!(menages.champs.len(), 2);
    assert_eq!(
        resultats,
        Lot {
            champs: vec![champ("rsa", TypeColonne::Float64)],
            colonnes: vec![Colonne::Float64(vec![Some(reel(10.0))])],
            nb_lignes: 1,
        }
    );
}

#[test]
fn destination_follows_the_kind_of_input() {
    let prefix = Some("essai".to_string());
    match kalkoto_lib::adapters::output_adapters::OutputAdapter::from_type("arrow", &prefix) {
        Ok(kalkoto_lib::adapters::output_adapters::OutputAdapter::Arrow(adapter)) => {
            assert_eq!(adapter.chemin_baseline(), "essai-baseline-results.arrow")
        }
        _ => panic!("arrow goes to a columnar destination"),
    }
    match kalkoto_lib::adapters::output_adapters::OutputAdapter::from_type("csv", &None) {
        Ok(kalkoto_lib::adapters::output_adapters::OutputAdapter::CSV(adapter)) => {
            assert_eq!(adapter.chemin_baseline(), "baseline-results.csv")
        }
        _ => panic!("csv goes to a delimited-text destination"),
    }
    match kalkoto_lib::adapters::output_adapters::OutputAdapter::from_type("parquet", &prefix) {
        Err(e) => assert_eq!(
            e,
            KalkotoError::ListMenageError(
                kalkoto_lib::adapters::input_adapters::MenageListAdapterError::FileFormat(
                    "Le fichier indiqué n'est pas un Arrow dataframe".to_string()
                )
            )
        ),
        Ok(_) => panic!("no destination goes with parquet"),
    }
}
