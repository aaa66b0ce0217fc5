use kalkoto_lib::adapters::input_adapters::toml_input_adapter::TomlInputAdapter;
use kalkoto_lib::adapters::input_adapters::PolicyAdapterError;
use kalkoto_lib::adapters::input_adapters::PolicyCreator;
use kalkoto_lib::entities::policy::Composante;
use kalkoto_lib::entities::policy::Function;
use kalkoto_lib::entities::policy::Parameters;
use kalkoto_lib::reel::Reel;
use kalkoto_lib::KalkotoError;
use kalkoto_lib::KalkotoResult;

fn composante(name: &str, ordre: i32, source: &str) -> Composante {
    Composante {
        name: name.to_string(),
        intitule_long: name.to_string(),
        parameters: Parameters {
            names: vec!["tau_1".to_string(), "tau_2".to_string()],
            intitules_long: vec!["Taux GIR 1".to_string(), "Taux GIR 2".to_string()],
            values: vec![
                Reel::from_bits(0.15f64.to_bits()),
                Reel::from_bits(0.3f64.to_bits()),
            ],
        },
        logical_order: ordre,
        caracteristiques_dependencies: vec!["Age".to_string(), "GIR".to_string()],
        function: Function::new(source.to_string()),
    }
}

fn clefs(noms: &[&str]) -> Vec<String> {
    noms.iter().map(|n| n.to_string()).collect()
}

#[test]
fn err_toml_not_valid_file_path() -> KalkotoResult<()> {
    let result = TomlInputAdapter::new().create_valid_policy_input().is_err();

    let wanted = true;

    assert_eq!(wanted, result);

    Ok(())
}

#[test]
fn empty_adapter_fails_with_trait() {
    assert_eq!(
        TomlInputAdapter::new().create_valid_policy_input(),
        Err(KalkotoError::PolicyError(PolicyAdapterError::Trait))
    );
}

#[test]
fn keys_must_be_the_three_expected() {
    assert_eq!(
        TomlInputAdapter::verifier_clefs(&clefs(&["name", "intitule_long", "composante"])),
        Ok(())
    );
    assert_eq!(
        TomlInputAdapter::verifier_clefs(&clefs(&["composante", "name", "intitule_long"])),
        Ok(())
    );
    let refus = Err(KalkotoError::PolicyError(PolicyAdapterError::Generic(
        "Le fichier d'input ne contient pas les clefs nécessaires".to_string(),
    )));
    assert_eq!(
        TomlInputAdapter::verifier_clefs(&clefs(&["intitule_long", "composante"])),
        refus
    );
    assert_eq!(
        TomlInputAdapter::verifier_clefs(&clefs(&["name", "intitule_long", "komposante"])),
        refus
    );
    assert_eq!(
        TomlInputAdapter::verifier_clefs(&clefs(&[
            "name",
            "intitule_long",
            "composante",
            "komposante"
        ])),
        refus
    );
    assert_eq!(TomlInputAdapter::verifier_clefs(&clefs(&[])), refus);
}

#[test]
fn adapter_builds_a_sorted_policy_with_its_rules() {
    let adapter = TomlInputAdapter::new().populate(
        "APA domicile".to_string(),
        "Aide personnalisée à domicile".to_string(),
        vec![
            composante("plan_cons", 2, "def plan_cons(): pass"),
            composante("plan_notif", 1, "def plan_notif(): pass"),
        ],
    );
    let input = adapter.create_valid_policy_input().unwrap();
    let policy = input.valid_policy;
    assert_eq!(policy.name, "APA domicile");
    assert_eq!(policy.intitule_long, "Aide personnalisée à domicile");
    assert_eq!(policy.composantes_ordonnees[0].name, "plan_notif");
    assert_eq!(policy.composantes_ordonnees[1].name, "plan_cons");
    assert_eq!(
        policy.python_functions,
        Some("def plan_notif(): pass\ndef plan_cons(): pass".to_string())
    );
    assert_eq!(policy.parameters_values.len(), 2);
    assert_eq!(policy.caracteristiques_menages.len(), 2);
}

#[test]
fn adapter_without_components_is_refused() {
    let adapter = TomlInputAdapter::new().populate("n".to_string(), "t".to_string(), Vec::new());
    assert_eq!(
        adapter.create_valid_policy_input(),
        Err(KalkotoError::PolicyError(PolicyAdapterError::Generic(
            "Le fichier input policy n'est pas lu !".to_string()
        )))
    );
}

fn clefs_du_fichier(contenu: &str) -> Vec<String> {
    let table: toml::Table = contenu.parse().unwrap();
    table.keys().cloned().collect()
}

const COMPOSANTE_PLAN_NOTIF: &str = r#"
name = "plan_notif"
intitule_long = "Plan notifié"
parameters.names = ["tau_1","tau_2"]
parameters.intitules_long = ["Taux GIR 1","Taux GIR 2"]
parameters.values = [0.15,0.3]
caracteristiques_dependencies = ["Age","GIR"]
logical_order = 1
function = """
def plan_notif(Variables, ParamsDict, MenageCarac):
    if MenageCarac["Age"] > 60 iand MenageCarac["GIR"] == 1:
        output = Variables["x"] + ParamsDict["tau_1"] * Variables["y"] + Variables["z"]
    else if MenageCarac["Age"] > 60 iand MenageCarac["GIR"] == 2:
        output = Variables["x"] + ParamsDict["tau_1"] * Variables["y"] + Variables["z"]
    else:
        output = 0.0
    return output
"""
"#;

const COMPOSANTE_PLAN_CONS: &str = r#"
name = "plan_cons"
intitule_long = "Plan effectivement consommé"
parameters.names = ["taux_ss_conso"]
parameters.intitules_long = ["Taux de sous-consommation du plan notifié"]
parameters.values = [0.8]
caracteristiques_dependencies = []
logical_order = 2
function = """
def plan_cons(Variables, ParamsDict, MenageCarac):
    output = Variables["plan_notif"]*ParamsDict["taux_ss_conso"]
    return output
"""
"#;

#[test]
fn unvalid_toml_file_missing_name_populate() -> KalkotoResult<()> {
    let unvalid_toml = format!(
        "\nintitule_long = \"Aide personnalisée à domicile\"\n\n[[composante]]{}",
        COMPOSANTE_PLAN_NOTIF
    );

    let wanted = true;

    let result = TomlInputAdapter::verifier_clefs(&clefs_du_fichier(&unvalid_toml)).is_err();
    assert_eq!(wanted, result);

    Ok(())
}

#[test]
fn unvalid_toml_file_missing_composante_populate() -> KalkotoResult<()> {
    let unvalid_toml = format!(
        "\nname = \"APA domicile\"\n\nintitule_long = \"Aide personnalisée à domicile\"\n\n[[komposante]]{}",
        COMPOSANTE_PLAN_NOTIF
    );

    let wanted = true;

    let result = TomlInputAdapter::verifier_clefs(&clefs_du_fichier(&unvalid_toml)).is_err();

    assert_eq!(wanted, result);

    Ok(())
}

#[test]
fn unvalid_toml_file_typo_composante_populate() -> KalkotoResult<()> {
    let unvalid_toml = format!(
        "\nname = \"APA domicile\"\n\nintitule_long = \"Aide personnalisée à domicile\"\n\n[[composante]]{}\n[[komposante]]{}",
        COMPOSANTE_PLAN_NOTIF, COMPOSANTE_PLAN_CONS
    );

    let wanted = true;

    let result = TomlInputAdapter::verifier_clefs(&clefs_du_fichier(&unvalid_toml)).is_err();

    assert_eq!(wanted, result);

    Ok(())
}

#[test]
fn valid_toml_file_has_the_expected_keys() {
    let valid_toml = format!(
        "\nname = \"APA domicile\"\n\nintitule_long = \"Aide personnalisée à domicile\"\n\n[[composante]]{}\n[[composante]]{}",
        COMPOSANTE_PLAN_NOTIF, COMPOSANTE_PLAN_CONS
    );
    assert_eq!(
        TomlInputAdapter::verifier_clefs(&clefs_du_fichier(&valid_toml)),
        Ok(())
    );
}

#[test]
fn policy_file_must_end_in_toml() {
    assert_eq!(TomlInputAdapter::verifier_extension(Some("toml")), Ok(()));
    let refus = Err(KalkotoError::PolicyError(PolicyAdapterError::FileFormat(
        "Le fichier indiqué n'est pas un TOML".to_string(),
    )));
    assert_eq!(TomlInputAdapter::verifier_extension(Some("tom")), refus);
    assert_eq!(TomlInputAdapter::verifier_extension(Some("TOML")), refus);
    assert_eq!(TomlInputAdapter::verifier_extension(None), refus);
}

fn lecture(
    noms: &[&str],
    name: Option<Result<String, String>>,
    intitule_long: Option<Result<String, String>>,
    composantes: Option<Result<Vec<Composante>, String>>,
) -> kalkoto_lib::adapters::input_adapters::toml_input_adapter::LecturePolicy {
    kalkoto_lib::adapters::input_adapters::toml_input_adapter::LecturePolicy {
        clefs: clefs(noms),
        name,
        intitule_long,
        composantes,
    }
}

#[test]
fn reading_is_checked_keys_first_then_entries_in_order() {
    let toutes = ["name", "intitule_long", "composante"];
    let bon = || Some(Ok("x".to_string()));

    let r = TomlInputAdapter::new().populate_from_lecture(lecture(
        &toutes,
        bon(),
        bon(),
        Some(Ok(vec![composante("a", 1, "")])),
    ));
    assert_eq!(
        r,
        Ok(("x".to_string(), "x".to_string(), vec![composante("a", 1, "")]))
    );

    let r = TomlInputAdapter::new().populate_from_lecture(lecture(
        &["name", "intitule_long"],
        None,
        None,
        None,
    ));
    assert_eq!(
        r,
        Err(KalkotoError::PolicyError(PolicyAdapterError::Generic(
            "Le fichier d'input ne contient pas les clefs nécessaires".to_string()
        )))
    );

    let r = TomlInputAdapter::new().populate_from_lecture(lecture(
        &toutes,
        Some(Err("pas un texte".to_string())),
        None,
        None,
    ));
    assert_eq!(
        r,
        Err(KalkotoError::PolicyError(PolicyAdapterError::Interpret(
            "pas un texte".to_string()
        )))
    );

    let r = TomlInputAdapter::new().populate_from_lecture(lecture(&toutes, bon(), None, None));
    assert_eq!(
        r,
        Err(KalkotoError::PolicyError(PolicyAdapterError::Generic(
            "Le champ intitule_long est manquant !".to_string()
        )))
    );

    let r = TomlInputAdapter::new().populate_from_lecture(lecture(
        &toutes,
        bon(),
        bon(),
        Some(Err("champ parameters manquant".to_string())),
    ));
    assert_eq!(
        r,
        Err(KalkotoError::PolicyError(PolicyAdapterError::Interpret(
            "champ parameters manquant".to_string()
        )))
    );
}
