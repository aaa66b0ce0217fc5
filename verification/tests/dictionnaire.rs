use kalkoto_lib::dictionnaire::Dictionnaire;
use kalkoto_lib::dictionnaire::EnsembleNoms;
use kalkoto_lib::texte::accoler;
use kalkoto_lib::texte::egal_str;

#[test]
fn dictionnaire_insert_then_get() {
    let mut d: Dictionnaire<i32> = Dictionnaire::new();
    assert!(d.is_empty());
    d.insert("a".to_string(), 1);
    d.insert("b".to_string(), 2);
    assert_eq!(d.len(), 2);
    assert_eq!(d.get("a"), Some(&1));
    assert_eq!(d.get("b"), Some(&2));
    assert_eq!(d.get("c"), None);
    assert!(d.contains_key("a"));
    assert!(!d.contains_key("c"));
}

#[test]
fn dictionnaire_last_insert_wins_and_keeps_place() {
    let mut d: Dictionnaire<i32> = Dictionnaire::new();
    d.insert("a".to_string(), 1);
    d.insert("b".to_string(), 2);
    d.insert("a".to_string(), 3);
    assert_eq!(d.len(), 2);
    assert_eq!(d.get("a"), Some(&3));
    assert_eq!(d.cle(0), "a");
    assert_eq!(*d.valeur(0), 3);
    assert_eq!(d.cle(1), "b");
    assert_eq!(d.position("b"), Some(1));
    assert_eq!(d.position("z"), None);
}

#[test]
fn dictionnaire_clone_is_equal() {
    let mut d: Dictionnaire<String> = Dictionnaire::new();
    d.insert("a".to_string(), "x".to_string());
    d.insert("b".to_string(), "y".to_string());
    let c = d.clone();
    assert_eq!(c, d);
    assert_eq!(c.cle(1), "b");
}

#[test]
fn ensemble_insert_reports_novelty() {
    let mut e = EnsembleNoms::new();
    assert!(e.is_empty());
    assert!(e.insert("Age".to_string()));
    assert!(e.insert("Revenu".to_string()));
    assert!(!e.insert("Age".to_string()));
    assert_eq!(e.len(), 2);
    assert!(e.contains("Age"));
    assert!(!e.contains("age"));
    assert_eq!(e.nom(0), "Age");
    assert_eq!(e.nom(1), "Revenu");
    assert_eq!(e.clone(), e);
}

#[test]
fn egal_str_compares_characters() {
    assert!(egal_str("", ""));
    assert!(egal_str("ménage", "ménage"));
    assert!(!egal_str("ménage", "menage"));
    assert!(!egal_str("a", "ab"));
    assert!(!egal_str("ab", "ac"));
}

#[test]
fn concat_appends() {
    assert_eq!(accoler("abc", "dé"), "abcdé");
    assert_eq!(accoler("", ""), "");
}

#[test]
fn tables_compare_equal_whatever_the_order() {
    let mut a: Dictionnaire<i32> = Dictionnaire::new();
    a.insert("x".to_string(), 1);
    a.insert("y".to_string(), 2);
    let mut b: Dictionnaire<i32> = Dictionnaire::new();
    b.insert("y".to_string(), 2);
    b.insert("x".to_string(), 1);
    assert_eq!(a, b);
    assert_eq!(b, a);

    let mut c: Dictionnaire<i32> = Dictionnaire::new();
    c.insert("y".to_string(), 2);
    c.insert("x".to_string(), 3);
    assert_ne!(a, c);

    let mut d: Dictionnaire<i32> = Dictionnaire::new();
    d.insert("x".to_string(), 1);
    assert_ne!(a, d);
    assert_ne!(d, a);

    let mut e: Dictionnaire<i32> = Dictionnaire::new();
    e.insert("x".to_string(), 1);
    e.insert("z".to_string(), 2);
    assert_ne!(a, e);
    assert_eq!(Dictionnaire::<i32>::new(), Dictionnaire::<i32>::new());
}

#[test]
fn sets_compare_equal_whatever_the_order() {
    let mut a = EnsembleNoms::new();
    a.insert("Age".to_string());
    a.insert("Revenu".to_string());
    let mut b = EnsembleNoms::new();
    b.insert("Revenu".to_string());
    b.insert("Age".to_string());
    b.insert("Age".to_string());
    assert_eq!(a, b);
    assert_eq!(b, a);

    let mut c = EnsembleNoms::new();
    c.insert("Age".to_string());
    assert_ne!(a, c);
    assert_ne!(c, a);

    let mut d = EnsembleNoms::new();
    d.insert("Age".to_string());
    d.insert("Zone".to_string());
    assert_ne!(a, d);
}
