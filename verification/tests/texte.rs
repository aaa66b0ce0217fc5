use kalkoto_lib::texte::lire_entier;
use kalkoto_lib::texte::precede_str;
use kalkoto_lib::texte::texte_decimal;
use kalkoto_lib::texte::texte_entier;
use kalkoto_lib::texte::trier_noms;

#[test]
fn lire_entier_reads_what_std_reads() {
    let cas = [
        "0", "7", "35", "-35", "+35", "007", "-0", "2147483647", "2147483648", "-2147483648",
        "-2147483649", "99999999999999999999", "", "-", "+", "+-5", "3.5", " 35", "35 ", "3a",
        "a3", "１２", "1_000", "0x10", "500.5", "Locataire", "--1", "1e3",
    ];
    for texte in cas {
        assert_eq!(lire_entier(texte), texte.parse::<i32>().ok(), "on {:?}", texte);
    }
}

#[test]
fn lire_entier_exact_values() {
    assert_eq!(lire_entier("35"), Some(35));
    assert_eq!(lire_entier("-2147483648"), Some(i32::MIN));
    assert_eq!(lire_entier("2147483647"), Some(i32::MAX));
    assert_eq!(lire_entier("2147483648"), None);
    assert_eq!(lire_entier("500.5"), None);
}

#[test]
fn texte_entier_writes_what_std_writes() {
    for i in [0, 1, 9, 10, 11, 99, 100, 12345, -1, -10, -12345, i32::MAX, i32::MIN] {
        assert_eq!(texte_entier(i), i.to_string());
    }
    for n in [0u64, 5, 10, 1234567890123, u64::MAX] {
        assert_eq!(texte_decimal(n), n.to_string());
    }
}

#[test]
fn precede_str_is_the_order_of_strings() {
    let mots = ["", "a", "ab", "b", "Age", "age", "Revenu", "rsa", "é", "z", "Zone"];
    for a in mots {
        for b in mots {
            assert_eq!(precede_str(a, b), a <= b, "on {:?} and {:?}", a, b);
        }
    }
}

#[test]
fn trier_noms_sorts_and_keeps_duplicates() {
    let noms = vec![
        "salaire_net".to_string(),
        "rsa".to_string(),
        "Age".to_string(),
        "rsa".to_string(),
        "".to_string(),
    ];
    let mut attendu = noms.clone();
    attendu.sort_unstable();
    assert_eq!(trier_noms(noms), attendu);
    assert_eq!(trier_noms(Vec::new()), Vec::<String>::new());
}
