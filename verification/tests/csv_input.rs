use kalkoto_lib::adapters::input_adapters::csv_input_adapter::menages_des_enregistrements;
use kalkoto_lib::adapters::input_adapters::csv_input_adapter::CsvInputAdapter;
use kalkoto_lib::adapters::input_adapters::MenageAdapter;
use kalkoto_lib::adapters::input_adapters::MenageListAdapterError;
use kalkoto_lib::adapters::input_adapters::MenageListCreator;
use kalkoto_lib::dictionnaire::Dictionnaire;
use kalkoto_lib::dictionnaire::EnsembleNoms;
use kalkoto_lib::entities::menage::Caracteristique;
use kalkoto_lib::entities::menage::Menage;
use kalkoto_lib::entities::menage_input::EmptyList;
use kalkoto_lib::entities::menage_input::MenageInputBuilder;
use kalkoto_lib::reel::Reel;
use kalkoto_lib::KalkotoError;
use kalkoto_lib::KalkotoResult;

fn lire_reel(texte: &str) -> Option<Reel> {
    texte.parse::<f64>().ok().map(|x| Reel::from_bits(x.to_bits()))
}

fn validation(index: i32, cause: &str) -> KalkotoError {
    KalkotoError::ListMenageError(MenageListAdapterError::Validation {
        fault_index: index,
        cause: cause.to_string(),
        conseil: "Vérifier le fichier CSV".to_string(),
    })
}

#[test]
fn csv_input_adapter_ok_csv_bytes_populate() -> KalkotoResult<()> {
    let valid_csv_bytes: &[u8] = "Age;Revenu;TypeLogement\n35;500.5;Locataire".as_bytes();

    let mut wanted_hashset = EnsembleNoms::new();
    wanted_hashset.insert("Age".to_string());
    wanted_hashset.insert("Revenu".to_string());
    wanted_hashset.insert("TypeLogement".to_string());

    let mut wanted_hashmap: Dictionnaire<Caracteristique> = Dictionnaire::new();
    wanted_hashmap.insert("Age".to_string(), Caracteristique::Entier(35));
    wanted_hashmap.insert(
        "Revenu".to_string(),
        Caracteristique::Numeric(Reel::from_bits(500.5f64.to_bits())),
    );
    wanted_hashmap.insert(
        "TypeLogement".to_string(),
        Caracteristique::Textuel("Locataire".to_string()),
    );

    let wanted_vec_menage = vec![Menage {
        index: 1,
        caracteristiques: wanted_hashmap,
    }];

    let (result_hashset, result_vec_menage) =
        CsvInputAdapter::new().populate_from_buf(valid_csv_bytes, &lire_reel)?;

    let wanted = true;
    let result = (wanted_hashset == result_hashset) && (wanted_vec_menage == result_vec_menage);

    assert_eq!(wanted, result);

    Ok(())
}

#[test]
fn csv_input_adapter_err_nosemicolon_headers_csv_bytes() -> KalkotoResult<()> {
    let unvalid_csv_bytes: &[u8] = "\
        Age;Revenu,TypeLogement
        35;500.5;Locataire
        "
    .as_bytes();

    let result = CsvInputAdapter::new()
        .populate_from_buf(unvalid_csv_bytes, &lire_reel)
        .is_err();

    let wanted = true;

    assert_eq!(wanted, result);

    Ok(())
}

#[test]
fn csv_input_adapter_err_unequal_length_headerscsv_bytes() -> KalkotoResult<()> {
    let unvalid_csv_bytes: &[u8] = "\
        Age;Revenu
        35;500.5;Locataire
        "
    .as_bytes();

    let result = CsvInputAdapter::new()
        .populate_from_buf(unvalid_csv_bytes, &lire_reel)
        .is_err();

    let wanted = true;

    assert_eq!(wanted, result);

    Ok(())
}

#[test]
fn csv_row_failure_carries_its_rank_among_households() {
    let octets = "Age;Revenu\n35;500.5\n36;1\n37;2;3\n38;4".as_bytes();
    assert_eq!(
        CsvInputAdapter::new().populate_from_buf(octets, &lire_reel),
        Err(validation(
            2,
            "Les caractéristiques de ces ménages semblent invalides"
        ))
    );
}

#[test]
fn csv_header_failure_has_index_minus_one() {
    let octets: &[u8] = &[0xff, 0xfe, b';', b'a', b'\n', b'1', b';', b'2'];
    assert_eq!(
        CsvInputAdapter::new().populate_from_buf(octets, &lire_reel),
        Err(validation(-1, "Problème à la lecture du header du CSV"))
    );
    assert_eq!(
        menages_des_enregistrements(&vec![None, Some(vec!["1".to_string()])], &lire_reel),
        Err(validation(-1, "Problème à la lecture du header du CSV"))
    );
}

#[test]
fn csv_of_nothing_gives_no_name_and_no_household() {
    let (set, menages) = CsvInputAdapter::new()
        .populate_from_buf("".as_bytes(), &lire_reel)
        .unwrap();
    assert!(set.is_empty());
    assert!(menages.is_empty());
}

#[test]
fn csv_households_are_numbered_from_one_and_typed_field_by_field() {
    let octets = "Age;Revenu;Zone\n35;500.5;A\n-4;7;12x\n+8;1e3;".as_bytes();
    let (set, menages) = CsvInputAdapter::new()
        .populate_from_buf(octets, &lire_reel)
        .unwrap();
    assert_eq!(set.len(), 3);
    assert_eq!(menages.len(), 3);
    assert_eq!(menages[0].index, 1);
    assert_eq!(menages[1].index, 2);
    assert_eq!(menages[2].index, 3);
    assert_eq!(
        menages[1].caracteristiques.get("Age"),
        Some(&Caracteristique::Entier(-4))
    );
    assert_eq!(
        menages[1].caracteristiques.get("Revenu"),
        Some(&Caracteristique::Entier(7))
    );
    assert_eq!(
        menages[1].caracteristiques.get("Zone"),
        Some(&Caracteristique::Textuel("12x".to_string()))
    );
    assert_eq!(
        menages[2].caracteristiques.get("Age"),
        Some(&Caracteristique::Entier(8))
    );
    assert_eq!(
        menages[2].caracteristiques.get("Revenu"),
        Some(&Caracteristique::Numeric(Reel::from_bits(1000.0f64.to_bits())))
    );
    assert_eq!(
        menages[2].caracteristiques.get("Zone"),
        Some(&Caracteristique::Textuel(String::new()))
    );
}

#[test]
fn csv_repeated_name_keeps_its_last_field() {
    let octets = "Age;Age\n35;36".as_bytes();
    let (set, menages) = CsvInputAdapter::new()
        .populate_from_buf(octets, &lire_reel)
        .unwrap();
    assert_eq!(set.len(), 1);
    assert_eq!(menages[0].caracteristiques.len(), 1);
    assert_eq!(
        menages[0].caracteristiques.get("Age"),
        Some(&Caracteristique::Entier(36))
    );
}

#[test]
fn from_lectures_prefers_integer_then_real_then_text() {
    let x = Reel::from_bits(2.5f64.to_bits());
    assert_eq!(
        Caracteristique::from_lectures("35", Some(Reel::from_bits(35.0f64.to_bits()))),
        Caracteristique::Entier(35)
    );
    assert_eq!(
        Caracteristique::from_lectures("2.5", Some(x)),
        Caracteristique::Numeric(x)
    );
    assert_eq!(
        Caracteristique::from_lectures("Locataire", None),
        Caracteristique::Textuel("Locataire".to_string())
    );
}

#[test]
fn csv_adapter_validates_what_it_read() {
    let octets = "Age;Revenu\n35;500.5\n36;1.5".as_bytes();
    let adapter = CsvInputAdapter::new()
        .populate_from_contents(octets, &lire_reel)
        .unwrap();
    let input = MenageAdapter::CSV(adapter)
        .create_valid_menage_input(MenageInputBuilder::<EmptyList>::new())
        .unwrap();
    assert_eq!(input.liste_menage_valide.len(), 2);
    assert!(input.set_caracteristiques_valide.contains("Revenu"));

    let octets = "Age;Revenu\n35;500.5\n36;untexte".as_bytes();
    let adapter = CsvInputAdapter::new()
        .populate_from_contents(octets, &lire_reel)
        .unwrap();
    let r = adapter.create_valid_menage_input(MenageInputBuilder::<EmptyList>::new());
    match r {
        Err(KalkotoError::ListMenageError(MenageListAdapterError::Validation {
            fault_index,
            ..
        })) => assert_eq!(fault_index, 1),
        _ => panic!("the second household disagrees with the first"),
    }
}

#[test]
fn csv_adapter_without_reading_is_refused() {
    let r = CsvInputAdapter::new().create_valid_menage_input(MenageInputBuilder::<EmptyList>::new());
    assert_eq!(
        r,
        Err(KalkotoError::ListMenageError(
            MenageListAdapterError::Validation {
                fault_index: -1,
                cause:
                    "Impossible de construire une liste valide de ménages à partir de fichier CSV"
                        .to_string(),
                conseil: "Reprendre l'ordre des étapes de construction d'un input ménages"
                    .to_string(),
            }
        ))
    );
}

#[test]
fn csv_input_adapter_ok_csv_file_populate() -> KalkotoResult<()> {
    let valid_csv_bytes: &[u8] = "Age;Revenu;TypeLogement\n35;500.5;Locataire".as_bytes();

    let mut wanted_hashmap: Dictionnaire<Caracteristique> = Dictionnaire::new();
    wanted_hashmap.insert("Age".to_string(), Caracteristique::Entier(35));
    wanted_hashmap.insert(
        "Revenu".to_string(),
        Caracteristique::Numeric(Reel::from_bits(500.5f64.to_bits())),
    );
    wanted_hashmap.insert(
        "TypeLogement".to_string(),
        Caracteristique::Textuel("Locataire".to_string()),
    );

    let wanted_vec_menage = vec![Menage {
        index: 1,
        caracteristiques: wanted_hashmap,
    }];

    let adapter = CsvInputAdapter::new().populate_from_contents(valid_csv_bytes, &lire_reel)?;
    let input = adapter.create_valid_menage_input(MenageInputBuilder::<EmptyList>::new())?;

    let wanted = true;

    let result = input.set_caracteristiques_valide.len() == 3
        && input.set_caracteristiques_valide.contains("Age")
        && input.set_caracteristiques_valide.contains("Revenu")
        && input.set_caracteristiques_valide.contains("TypeLogement")
        && (wanted_vec_menage == input.liste_menage_valide);
    assert_eq!(wanted, result);

    Ok(())
}

#[test]
fn csv_input_adapter_err_csv_file_invalid_row() -> KalkotoResult<()> {
    let unvalid_csv_content: &str = "\
        Age;Revenu;TypeLogement
        35,500.5;Locataire
        ";

    let result = CsvInputAdapter::new()
        .populate_from_contents(unvalid_csv_content.as_bytes(), &lire_reel)
        .is_err();

    let wanted = true;

    assert_eq!(wanted, result);

    Ok(())
}

#[test]
fn households_file_must_end_in_csv() {
    assert_eq!(CsvInputAdapter::verifier_extension(Some("csv")), Ok(()));
    let refus = Err(KalkotoError::ListMenageError(
        MenageListAdapterError::FileFormat("Le fichier indiqué n'est pas un CSV".to_string()),
    ));
    assert_eq!(CsvInputAdapter::verifier_extension(Some("arrow")), refus);
    assert_eq!(CsvInputAdapter::verifier_extension(Some("")), refus);
    assert_eq!(CsvInputAdapter::verifier_extension(None), refus);
}
