use kalkoto_lib::adapters::output_adapters::csv_output_adapter::construire_table;
use kalkoto_lib::adapters::output_adapters::csv_output_adapter::encoder_table;
use kalkoto_lib::adapters::output_adapters::csv_output_adapter::textes_caracteristiques;
use kalkoto_lib::adapters::output_adapters::csv_output_adapter::textes_ecarts;
use kalkoto_lib::adapters::output_adapters::csv_output_adapter::textes_resultats;
use kalkoto_lib::adapters::output_adapters::csv_output_adapter::CSVOutputAdapter;
use kalkoto_lib::dictionnaire::Dictionnaire;
use kalkoto_lib::dictionnaire::EnsembleNoms;
use kalkoto_lib::entities::menage::Caracteristique;
use kalkoto_lib::entities::menage::Menage;
use kalkoto_lib::entities::menage_input::EmptyList;
use kalkoto_lib::entities::menage_input::MenageInputBuilder;
use kalkoto_lib::entities::policy::Composante;
use kalkoto_lib::entities::policy::Function;
use kalkoto_lib::entities::policy::Parameters;
use kalkoto_lib::entities::policy::Policy;
use kalkoto_lib::entities::policy_input::PolicyInput;
use kalkoto_lib::entities::simulator::EmptyBaselineInput;
use kalkoto_lib::entities::simulator::EmptyMenageInput;
use kalkoto_lib::entities::simulator::EmptyVarianteInput;
use kalkoto_lib::entities::simulator::SimulationError;
use kalkoto_lib::entities::simulator::SimulatorBuilder;
use kalkoto_lib::reel::Reel;
use kalkoto_lib::KalkotoError;

fn reel(x: f64) -> Reel {
    Reel::from_bits(x.to_bits())
}

fn formater(x: Reel) -> String {
    format!("{}", f64::from_bits(x.to_bits()))
}

fn soustraire(a: Reel, b: Reel) -> Reel {
    reel(f64::from_bits(a.to_bits()) - f64::from_bits(b.to_bits()))
}

fn textes(entrees: &[(&str, &str)]) -> Dictionnaire<String> {
    let mut t = Dictionnaire::new();
    for (nom, texte) in entrees {
        t.insert(nom.to_string(), texte.to_string());
    }
    t
}

fn ligne(champs: &[&str]) -> Vec<String> {
    champs.iter().map(|c| c.to_string()).collect()
}

fn composante(name: &str, ordre: i32) -> Composante {
    Composante {
        name: name.to_string(),
        intitule_long: name.to_string(),
        parameters: Parameters {
            names: Vec::new(),
            intitules_long: Vec::new(),
            values: Vec::new(),
        },
        logical_order: ordre,
        caracteristiques_dependencies: Vec::new(),
        function: Function::new(String::new()),
    }
}

fn ensemble(noms: &[&str]) -> EnsembleNoms {
    let mut e = EnsembleNoms::new();
    for nom in noms {
        e.insert(nom.to_string());
    }
    e
}

#[test]
fn table_has_index_then_names_in_ascending_order() {
    let composantes = vec![composante("rsa", 1), composante("apl", 2)];
    let set = ensemble(&["Revenu", "Age"]);
    let caracs = vec![
        textes(&[("Age", "30"), ("Revenu", "500.5")]),
        textes(&[("Age", "40"), ("Revenu", "10")]),
    ];
    let resultats = vec![
        textes(&[("rsa", "1"), ("apl", "2")]),
        textes(&[("rsa", "3"), ("apl", "4")]),
    ];
    let table = construire_table(&composantes, &set, &caracs, &resultats).unwrap();
    assert_eq!(
        table,
        vec![
            ligne(&["Index", "Age", "Revenu", "apl", "rsa"]),
            ligne(&["1", "30", "500.5", "2", "1"]),
            ligne(&["2", "40", "10", "4", "3"]),
        ]
    );
}

#[test]
fn table_shows_the_result_where_names_collide() {
    let composantes = vec![composante("Age", 1)];
    let set = ensemble(&["Age"]);
    let caracs = vec![textes(&[("Age", "30")])];
    let resultats = vec![textes(&[("Age", "99")])];
    let table = construire_table(&composantes, &set, &caracs, &resultats).unwrap();
    assert_eq!(
        table,
        vec![ligne(&["Index", "Age", "Age"]), ligne(&["1", "99", "99"])]
    );
}

#[test]
fn table_names_the_first_column_with_nothing_to_show() {
    let composantes = vec![composante("rsa", 1), composante("apl", 2)];
    let set = ensemble(&["Age"]);
    let caracs = vec![textes(&[("Age", "30")]), textes(&[])];
    let resultats = vec![textes(&[("rsa", "1"), ("apl", "2")]), textes(&[("apl", "2")])];
    assert_eq!(
        construire_table(&composantes, &set, &caracs, &resultats),
        Err(KalkotoError::SimError(SimulationError::ResultsError(
            "Problème de cohérence des composantes lors de l'export. Erreur à la composante : Age"
                .to_string()
        )))
    );
}

#[test]
fn table_pairs_households_and_results_as_far_as_both_go() {
    let composantes = vec![composante("rsa", 1)];
    let set = ensemble(&[]);
    let caracs = vec![textes(&[]), textes(&[]), textes(&[])];
    let resultats = vec![textes(&[("rsa", "1")])];
    let table = construire_table(&composantes, &set, &caracs, &resultats).unwrap();
    assert_eq!(table, vec![ligne(&["Index", "rsa"]), ligne(&["1", "1"])]);
    let table = construire_table(&composantes, &set, &Vec::new(), &resultats).unwrap();
    assert_eq!(table, vec![ligne(&["Index", "rsa"])]);
}

#[test]
fn encoder_table_writes_semicolon_separated_lines() {
    let table = vec![
        ligne(&["Index", "Age", "rsa"]),
        ligne(&["1", "10", "20"]),
        ligne(&["2", "a;b", "dit \"oui\""]),
    ];
    let octets = encoder_table(&table).unwrap();
    assert_eq!(
        String::from_utf8(octets).unwrap(),
        "Index;Age;rsa\n1;10;20\n2;\"a;b\";\"dit \"\"oui\"\"\"\n"
    );
    assert_eq!(encoder_table(&Vec::new()), Ok(Vec::new()));
}

#[test]
fn values_are_written_as_text() {
    let mut r = Dictionnaire::new();
    r.insert("rsa".to_string(), reel(20.0));
    r.insert("apl".to_string(), reel(0.5));
    assert_eq!(
        textes_resultats(&vec![r], &formater),
        vec![textes(&[("rsa", "20"), ("apl", "0.5")])]
    );

    let mut d = Dictionnaire::new();
    d.insert("rsa".to_string(), Some(reel(-1.25)));
    d.insert("apl".to_string(), None);
    assert_eq!(
        textes_ecarts(&vec![d], &formater),
        vec![textes(&[("rsa", "-1.25"), ("apl", "")])]
    );

    let mut m = Menage::new(1);
    m.caracteristiques
        .insert("Age".to_string(), Caracteristique::Entier(-35));
    m.caracteristiques
        .insert("Revenu".to_string(), Caracteristique::Numeric(reel(500.5)));
    m.caracteristiques.insert(
        "Logement".to_string(),
        Caracteristique::Textuel("Locataire".to_string()),
    );
    assert_eq!(
        textes_caracteristiques(&[m], &formater),
        vec![textes(&[
            ("Age", "-35"),
            ("Revenu", "500.5"),
            ("Logement", "Locataire")
        ])]
    );
}

#[test]
fn csv_paths_carry_the_prefix() {
    let mut sans = CSVOutputAdapter::new();
    assert_eq!(sans.chemin_baseline(), "baseline-results.csv");
    assert_eq!(sans.chemin_variante(), "variante-results.csv");
    assert_eq!(sans.chemin_diff(), "diff-results.csv");
    let avec = sans.add_output_prefix("essai".to_string());
    assert_eq!(avec.chemin_baseline(), "essai-baseline-results.csv");
    assert_eq!(avec.chemin_variante(), "essai-variante-results.csv");
    assert_eq!(avec.chemin_diff(), "essai-diff-results.csv");
    assert_eq!(sans.chemin_baseline(), "baseline-results.csv");
}

fn menage(index: i32, age: i32) -> Menage {
    let mut m = Menage::new(index);
    m.caracteristiques
        .insert("Age".to_string(), Caracteristique::Entier(age));
    m
}

fn executeur(
    _c: &Composante,
    _v: &Dictionnaire<Reel>,
    _p: &Dictionnaire<Reel>,
    caracs: &Dictionnaire<Caracteristique>,
) -> Result<Reel, String> {
    match caracs.get("Age") {
        Some(Caracteristique::Entier(i)) => Ok(reel(2.0 * *i as f64)),
        _ => Err("Age".to_string()),
    }
}

fn executeur_variante(
    c: &Composante,
    _v: &Dictionnaire<Reel>,
    _p: &Dictionnaire<Reel>,
    caracs: &Dictionnaire<Caracteristique>,
) -> Result<Reel, String> {
    match (c.name.as_str(), caracs.get("Age")) {
        ("rsa", Some(Caracteristique::Entier(i))) => Ok(reel(3.0 * *i as f64)),
        ("apl", _) => Ok(reel(1.5)),
        _ => Err("Age".to_string()),
    }
}

#[test]
fn tables_of_a_session() {
    let input = MenageInputBuilder::<EmptyList>::new()
        .from_unvalidated_liste_menage(&[menage(1, 10), menage(2, 20)])
        .validate_liste_menage()
        .unwrap()
        .build_valide_menage_input()
        .unwrap();
    let baseline = PolicyInput {
        valid_policy: Policy::from_composantes(
            "b".to_string(),
            "t".to_string(),
            vec![composante("rsa", 1)],
        ),
    };
    let variante = PolicyInput {
        valid_policy: Policy::from_composantes(
            "v".to_string(),
            "t".to_string(),
            vec![composante("rsa", 1), composante("apl", 2)],
        ),
    };
    let adapter = CSVOutputAdapter::new();
    let mut session =
        SimulatorBuilder::<EmptyMenageInput, EmptyBaselineInput, EmptyVarianteInput>::new()
            .attacher_menages(Ok(input))
            .unwrap()
            .attacher_baseline(Ok(baseline))
            .unwrap();
    assert_eq!(
        adapter.table_baseline(&session, &formater),
        Err(KalkotoError::SimError(SimulationError::ResultsError(
            "Pas possible d'exporter : les résultats n'ont pas encore été calculés".to_string()
        )))
    );
    session.simulate_baseline_policy(&executeur).unwrap();
    assert_eq!(
        adapter.table_baseline(&session, &formater),
        Ok(vec![
            ligne(&["Index", "Age", "rsa"]),
            ligne(&["1", "10", "20"]),
            ligne(&["2", "20", "40"]),
        ])
    );

    assert_eq!(
        String::from_utf8(adapter.octets_baseline(&session, &formater).unwrap()).unwrap(),
        "Index;Age;rsa\n1;10;20\n2;20;40\n"
    );

    let mut session = session.attacher_variante(Ok(variante)).unwrap();
    assert!(adapter.octets_variante(&session, &formater).is_err());
    assert!(adapter.table_variante(&session, &formater).is_err());
    assert!(adapter.table_diff(&session, &formater).is_err());
    session
        .simulate_variante_policy(&executeur_variante, &soustraire)
        .unwrap();
    assert_eq!(
        adapter.table_variante(&session, &formater),
        Ok(vec![
            ligne(&["Index", "Age", "apl", "rsa"]),
            ligne(&["1", "10", "1.5", "30"]),
            ligne(&["2", "20", "1.5", "60"]),
        ])
    );
    assert_eq!(
        adapter.table_diff(&session, &formater),
        Ok(vec![
            ligne(&["Index", "Age", "apl", "rsa"]),
            ligne(&["1", "10", "", "10"]),
            ligne(&["2", "20", "", "20"]),
        ])
    );
    assert_eq!(
        String::from_utf8(adapter.octets_variante(&session, &formater).unwrap()).unwrap(),
        "Index;Age;apl;rsa\n1;10;1.5;30\n2;20;1.5;60\n"
    );
    assert_eq!(
        String::from_utf8(adapter.octets_diff(&session, &formater).unwrap()).unwrap(),
        "Index;Age;apl;rsa\n1;10;;10\n2;20;;20\n"
    );
}
