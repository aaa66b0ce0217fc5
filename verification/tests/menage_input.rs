use kalkoto_lib::adapters::input_adapters::MenageListAdapterError;
use kalkoto_lib::dictionnaire::EnsembleNoms;
use kalkoto_lib::entities::menage::Caracteristique;
use kalkoto_lib::entities::menage::Menage;
use kalkoto_lib::entities::menage_input::EmptyList;
use kalkoto_lib::entities::menage_input::MenageInput;
use kalkoto_lib::entities::menage_input::MenageInputBuilder;
use kalkoto_lib::reel::Reel;
use kalkoto_lib::KalkotoError;
use kalkoto_lib::KalkotoResult;

fn reel(x: f64) -> Reel {
    Reel::from_bits(x.to_bits())
}

fn menage_age_revenu(index: i32, age: Caracteristique, revenu: f64) -> Menage {
    let mut menage = Menage::new(index);
    menage.caracteristiques.insert(String::from("Age"), age);
    menage
        .caracteristiques
        .insert(String::from("Revenu"), Caracteristique::Numeric(reel(revenu)));
    menage
}

#[test]
fn ok_valid_input() -> KalkotoResult<()> {
    let first_menage = menage_age_revenu(1, Caracteristique::Entier(30), 100.0f64);
    let second_menage = menage_age_revenu(2, Caracteristique::Entier(35), 200.0f64);
    let third_menage = menage_age_revenu(3, Caracteristique::Entier(40), 300.0f64);

    let valide_menage_list = vec![first_menage, second_menage, third_menage];

    let mut valide_caracteristiques = EnsembleNoms::new();
    valide_caracteristiques.insert("Age".to_string());
    valide_caracteristiques.insert("Revenu".to_string());
    valide_caracteristiques.insert("Age".to_string());

    let wanted = MenageInput {
        set_caracteristiques_valide: valide_caracteristiques,
        liste_menage_valide: valide_menage_list.clone(),
    };

    let result = MenageInputBuilder::<EmptyList>::new()
        .from_unvalidated_liste_menage(&valide_menage_list)
        .validate_liste_menage()?
        .build_valide_menage_input()?;

    assert_eq!(wanted, result);

    Ok(())
}

#[test]
fn err_invalid_input() {
    let first_menage = menage_age_revenu(1, Caracteristique::Entier(30), 100.0f64);
    let second_menage = menage_age_revenu(2, Caracteristique::Entier(35), 200.0f64);
    let third_menage = menage_age_revenu(3, Caracteristique::Textuel("40".to_string()), 300.0f64);

    let invalid_menage_list = vec![first_menage, second_menage, third_menage];

    let wanted = true;
    let result = MenageInputBuilder::<EmptyList>::new()
        .from_unvalidated_liste_menage(&invalid_menage_list)
        .validate_liste_menage()
        .is_err();
    assert_eq!(wanted, result);
}

#[test]
fn err_empty_list() {
    let wanted = true;
    let result = MenageInputBuilder::<EmptyList>::new()
        .from_unvalidated_liste_menage(&[])
        .validate_liste_menage()
        .is_err();
    assert_eq!(wanted, result);
}

#[test]
fn empty_list_is_reported_with_index_minus_one() {
    let result = MenageInputBuilder::<EmptyList>::new()
        .from_unvalidated_liste_menage(&[])
        .has_valid_liste_menage();
    assert_eq!(
        result,
        Err(KalkotoError::ListMenageError(
            MenageListAdapterError::Validation {
                fault_index: -1,
                cause: "La liste de ménages à valider est vide.".to_string(),
                conseil: "Vérifier le fichier d'input".to_string(),
            }
        ))
    );
}

#[test]
fn mismatch_reports_first_household_of_first_broken_pair() {
    let first_menage = menage_age_revenu(1, Caracteristique::Entier(30), 100.0f64);
    let second_menage = menage_age_revenu(2, Caracteristique::Entier(35), 200.0f64);
    let third_menage = menage_age_revenu(3, Caracteristique::Textuel("40".to_string()), 300.0f64);
    let fourth_menage = Menage::new(4);

    let liste = vec![first_menage, second_menage, third_menage, fourth_menage];
    let result = MenageInputBuilder::<EmptyList>::new()
        .from_unvalidated_liste_menage(&liste)
        .has_valid_liste_menage();
    assert_eq!(
        result,
        Err(KalkotoError::ListMenageError(
            MenageListAdapterError::Validation {
                fault_index: 2,
                cause: "Les types ou les noms des caractéristiques de ces deux ménages ne correspondent pas. Problème à la caractéristique Age".to_string(),
                conseil: "Vérifier le fichier d'input".to_string(),
            }
        ))
    );
}

#[test]
fn scenario_two_integer_ages_validate_with_set_age() {
    let mut first = Menage::new(1);
    first
        .caracteristiques
        .insert("Age".to_string(), Caracteristique::Entier(25));
    let mut second = Menage::new(2);
    second
        .caracteristiques
        .insert("Age".to_string(), Caracteristique::Entier(35));

    let input = MenageInputBuilder::<EmptyList>::new()
        .from_unvalidated_liste_menage(&[first, second])
        .validate_liste_menage()
        .unwrap()
        .build_valide_menage_input()
        .unwrap();

    assert_eq!(input.set_caracteristiques_valide.len(), 1);
    assert!(input.set_caracteristiques_valide.contains("Age"));
    assert_eq!(input.liste_menage_valide.len(), 2);
}

#[test]
fn scenario_integer_then_real_age_fails_with_fault_index_one() {
    let mut first = Menage::new(1);
    first
        .caracteristiques
        .insert("Age".to_string(), Caracteristique::Entier(25));
    let mut second = Menage::new(2);
    second
        .caracteristiques
        .insert("Age".to_string(), Caracteristique::Numeric(reel(35.0)));

    let result = MenageInputBuilder::<EmptyList>::new()
        .from_unvalidated_liste_menage(&[first, second])
        .validate_liste_menage();

    match result {
        Err(KalkotoError::ListMenageError(MenageListAdapterError::Validation {
            fault_index,
            cause,
            ..
        })) => {
            assert_eq!(fault_index, 1);
            assert!(cause.ends_with("caractéristique Age"));
        }
        _ => panic!("validation should fail on the kind of Age"),
    }
}

#[test]
fn single_household_validates() {
    let only = menage_age_revenu(1, Caracteristique::Entier(30), 100.0f64);
    let result = MenageInputBuilder::<EmptyList>::new()
        .from_unvalidated_liste_menage(&[only])
        .has_valid_liste_menage();
    assert_eq!(result, Ok(true));
}

#[test]
fn later_households_may_hold_more_names() {
    let mut first = Menage::new(1);
    first
        .caracteristiques
        .insert("Age".to_string(), Caracteristique::Entier(25));
    let second = menage_age_revenu(2, Caracteristique::Entier(35), 10.0);

    let input = MenageInputBuilder::<EmptyList>::new()
        .from_unvalidated_liste_menage(&[first.clone(), second.clone()])
        .validate_liste_menage()
        .unwrap()
        .build_valide_menage_input()
        .unwrap();

    assert_eq!(input.set_caracteristiques_valide.len(), 1);
    assert!(first.compare_type_carac(&second).0);
    assert!(!second.compare_type_carac(&first).0);
}

#[test]
fn validated_households_are_compatible_in_order() {
    let liste = vec![
        menage_age_revenu(1, Caracteristique::Entier(30), 100.0f64),
        menage_age_revenu(2, Caracteristique::Entier(35), 200.0f64),
        menage_age_revenu(3, Caracteristique::Entier(40), 300.0f64),
    ];
    let input = MenageInputBuilder::<EmptyList>::new()
        .from_unvalidated_liste_menage(&liste)
        .validate_liste_menage()
        .unwrap()
        .build_valide_menage_input()
        .unwrap();
    let menages = &input.liste_menage_valide;
    for i in 0..menages.len() {
        for j in i..menages.len() {
            assert_eq!(
                menages[i].compare_type_carac(&menages[j]),
                (true, -1, String::new())
            );
        }
    }
}

#[test]
fn get_valid_input_menages_hands_out_both_parts() {
    let liste = vec![menage_age_revenu(1, Caracteristique::Entier(30), 100.0f64)];
    let input = MenageInputBuilder::<EmptyList>::new()
        .from_unvalidated_liste_menage(&liste)
        .validate_liste_menage()
        .unwrap()
        .build_valide_menage_input()
        .unwrap();
    let (set, menages) = input.get_valid_input_menages();
    assert_eq!(set.nom(0), "Age");
    assert_eq!(set.nom(1), "Revenu");
    assert_eq!(menages, liste);
}

#[test]
fn valider_does_all_steps_in_one_go() {
    let liste = vec![
        menage_age_revenu(1, Caracteristique::Entier(30), 100.0f64),
        menage_age_revenu(2, Caracteristique::Entier(35), 200.0f64),
    ];
    let input = MenageInputBuilder::<EmptyList>::new().valider(&liste).unwrap();
    assert_eq!(input.liste_menage_valide, liste);
    assert_eq!(input.set_caracteristiques_valide.len(), 2);
    assert!(MenageInputBuilder::<EmptyList>::new().valider(&[]).is_err());
}
