use kalkoto_lib::entities::menage::Caracteristique;
use kalkoto_lib::entities::menage::Menage;
use kalkoto_lib::reel::Reel;

fn reel(x: f64) -> Reel {
    Reel::from_bits(x.to_bits())
}

#[test]
fn ok_compar_carac() {
    let wanted = (true, -1, String::from(""));

    let mut first_menage = Menage::new(1);
    first_menage
        .caracteristiques
        .insert(String::from("Age"), Caracteristique::Entier(30));

    first_menage
        .caracteristiques
        .insert(String::from("Revenu"), Caracteristique::Numeric(reel(500.65f64)));

    let mut second_menage = Menage::new(2);
    second_menage
        .caracteristiques
        .insert(String::from("Age"), Caracteristique::Entier(30));

    second_menage
        .caracteristiques
        .insert(String::from("Revenu"), Caracteristique::Numeric(reel(400.45f64)));

    let result = first_menage.compare_type_carac(&second_menage);
    assert_eq!(wanted, result);
}

#[test]
fn unmatched_types_compar_carac() {
    let wanted = (false, 1, String::from("Revenu"));

    let mut first_menage = Menage::new(1);
    first_menage
        .caracteristiques
        .insert(String::from("Age"), Caracteristique::Entier(30));

    first_menage
        .caracteristiques
        .insert(String::from("Revenu"), Caracteristique::Numeric(reel(500.65f64)));

    let mut second_menage = Menage::new(2);
    second_menage
        .caracteristiques
        .insert(String::from("Age"), Caracteristique::Entier(30));

    second_menage
        .caracteristiques
        .insert(String::from("Revenu"), Caracteristique::Entier(400));

    let result = first_menage.compare_type_carac(&second_menage);
    assert_eq!(wanted, result);
}

#[test]
fn unmatched_nom_compar_carac() {
    let wanted = (false, 1, String::from("TypeLogement"));

    let mut first_menage = Menage::new(1);
    first_menage
        .caracteristiques
        .insert(String::from("Age"), Caracteristique::Entier(30));

    first_menage.caracteristiques.insert(
        String::from("TypeLogement"),
        Caracteristique::Textuel("Locataire".to_owned()),
    );

    let mut second_menage = Menage::new(2);
    second_menage
        .caracteristiques
        .insert(String::from("Age"), Caracteristique::Entier(30));

    second_menage.caracteristiques.insert(
        String::from("TypeLogenment"),
        Caracteristique::Textuel("Locataire".to_owned()),
    );

    let result = first_menage.compare_type_carac(&second_menage);
    assert_eq!(wanted, result);
}

#[test]
fn compar_carac_ignores_names_only_the_other_has() {
    let mut first_menage = Menage::new(7);
    first_menage
        .caracteristiques
        .insert(String::from("Age"), Caracteristique::Entier(30));

    let mut second_menage = Menage::new(8);
    second_menage
        .caracteristiques
        .insert(String::from("Age"), Caracteristique::Entier(41));
    second_menage
        .caracteristiques
        .insert(String::from("Revenu"), Caracteristique::Numeric(reel(1.5)));

    assert_eq!(
        (true, -1, String::new()),
        first_menage.compare_type_carac(&second_menage)
    );
    assert_eq!(
        (false, 8, String::from("Revenu")),
        second_menage.compare_type_carac(&first_menage)
    );
}

#[test]
fn compar_carac_reports_the_first_name_in_insertion_order() {
    let mut first_menage = Menage::new(3);
    first_menage
        .caracteristiques
        .insert(String::from("Zone"), Caracteristique::Entier(1));
    first_menage
        .caracteristiques
        .insert(String::from("Age"), Caracteristique::Entier(2));

    let second_menage = Menage::new(4);

    assert_eq!(
        (false, 3, String::from("Zone")),
        first_menage.compare_type_carac(&second_menage)
    );
}

#[test]
fn compar_carac_of_empty_household_is_compatible() {
    let first_menage = Menage::new(1);
    let mut second_menage = Menage::new(2);
    second_menage
        .caracteristiques
        .insert(String::from("Age"), Caracteristique::Entier(2));
    assert_eq!(
        (true, -1, String::new()),
        first_menage.compare_type_carac(&second_menage)
    );
}

#[test]
fn same_type_is_by_kind_only() {
    assert!(Caracteristique::Entier(1).a_meme_type(&Caracteristique::Entier(-9)));
    assert!(Caracteristique::Numeric(reel(1.0)).a_meme_type(&Caracteristique::Numeric(reel(2.0))));
    assert!(Caracteristique::Textuel("a".to_string())
        .a_meme_type(&Caracteristique::Textuel("b".to_string())));
    assert!(!Caracteristique::Entier(1).a_meme_type(&Caracteristique::Numeric(reel(1.0))));
    assert!(!Caracteristique::Textuel("1".to_string()).a_meme_type(&Caracteristique::Entier(1)));
}

#[test]
fn clone_keeps_index_and_characteristics() {
    let mut menage = Menage::new(5);
    menage
        .caracteristiques
        .insert(String::from("Age"), Caracteristique::Entier(30));
    menage.caracteristiques.insert(
        String::from("Logement"),
        Caracteristique::Textuel("Locataire".to_owned()),
    );
    let copie = menage.clone();
    assert_eq!(menage, copie);
    assert_eq!(copie.index, 5);
    assert_eq!(
        copie.caracteristiques.get("Logement"),
        Some(&Caracteristique::Textuel("Locataire".to_owned()))
    );
}

fn formater(x: Reel) -> String {
    format!("{}", f64::from_bits(x.to_bits()))
}

#[test]
fn characteristic_is_written_by_kind() {
    assert_eq!(Caracteristique::Entier(-35).texte(&formater), "-35");
    assert_eq!(Caracteristique::Numeric(reel(500.5)).texte(&formater), "500.5");
    assert_eq!(
        Caracteristique::Textuel("Locataire".to_string()).texte(&formater),
        "Locataire"
    );
}

#[test]
fn household_is_written_line_by_line() {
    let mut menage = Menage::new(3);
    menage
        .caracteristiques
        .insert("Age".to_string(), Caracteristique::Entier(35));
    menage
        .caracteristiques
        .insert("Revenu".to_string(), Caracteristique::Numeric(reel(500.5)));
    assert_eq!(
        menage.texte(&formater),
        "Le ménage 3 a les caractéristiques :\nAge -> 35\nRevenu -> 500.5\n"
    );
    assert_eq!(
        Menage::new(-1).texte(&formater),
        "Le ménage -1 a les caractéristiques :\n"
    );
}

#[test]
fn households_compare_equal_whatever_the_order_of_their_characteristics() {
    let mut a = Menage::new(1);
    a.caracteristiques
        .insert("Age".to_string(), Caracteristique::Entier(30));
    a.caracteristiques
        .insert("Revenu".to_string(), Caracteristique::Numeric(reel(1.5)));
    let mut b = Menage::new(1);
    b.caracteristiques
        .insert("Revenu".to_string(), Caracteristique::Numeric(reel(1.5)));
    b.caracteristiques
        .insert("Age".to_string(), Caracteristique::Entier(30));
    assert_eq!(a, b);
    let mut c = Menage::new(2);
    c.caracteristiques
        .insert("Revenu".to_string(), Caracteristique::Numeric(reel(1.5)));
    c.caracteristiques
        .insert("Age".to_string(), Caracteristique::Entier(30));
    assert_ne!(a, c);
}
