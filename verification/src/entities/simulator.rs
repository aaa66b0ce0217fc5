//! The simulation session: households, then a baseline policy, then its results, then
//! a variant policy, then its results and their difference to the baseline.
//!
//! The stage of a session is written in its type, so that a step taken out of order
//! does not compile.

use crate::adapters::input_adapters::MenageListCreator;
use crate::adapters::input_adapters::PolicyCreator;
use crate::adapters::output_adapters::OutputWriter;
use crate::dictionnaire::Dictionnaire;
use crate::dictionnaire::EnsembleNoms;
use crate::entities::menage::Caracteristique;
use crate::entities::menage_input::EmptyList;
use crate::entities::menage_input::MenageInput;
use crate::entities::menage_input::MenageInputBuilder;
use crate::entities::policy::est_echec_simulation;
use crate::entities::policy::est_simulation;
use crate::entities::policy::executeur_total;
use crate::entities::policy::tables_wf;
use crate::entities::policy::Composante;
use crate::entities::policy_input::PolicyInput;
use crate::errors::KalkotoError;
use crate::reel::Reel;
use crate::KalkotoResult;
use vstd::prelude::*;

verus! {

/// Why a simulation could not be set up or run.
#[derive(Debug, PartialEq)]
pub enum SimulationError {
    /// The policy depends on characteristics that the households lack; `manquantes`
    /// holds exactly those.
    MenagesPolicyMismatchError { message: String, manquantes: EnsembleNoms },
    /// The rule of the component `composante` failed on the household of index
    /// `menage`; `source` is the executor's own account.
    PythonError { source: String, err_msg: String, composante: String, menage: i32 },
    /// Results are missing or do not fit together.
    ResultsError(String),
}

/// No households yet.
#[derive(Default)]
pub struct EmptyMenageInput;

/// Validated households.
pub struct ValidMenageInput(pub MenageInput);

/// No baseline policy yet.
#[derive(Default)]
pub struct EmptyBaselineInput;

/// A baseline policy that the households satisfy.
pub struct ValidBaselineInput(pub PolicyInput);

/// No variant policy yet.
#[derive(Default)]
pub struct EmptyVarianteInput;

/// A variant policy that the households satisfy.
pub struct ValidVarianteInput(pub PolicyInput);

/// A simulation session. `M`, `B` and `V` say whether the households, the baseline
/// policy and the variant policy are in place.
pub struct SimulatorBuilder<M, B, V> {
    pub menage_input: M,
    pub policy_baseline: B,
    pub policy_variante: V,
    pub results_baseline: Option<Vec<Dictionnaire<Reel>>>,
    pub results_variante: Option<Vec<Dictionnaire<Reel>>>,
    pub results_diff: Option<Vec<Dictionnaire<Option<Reel>>>>,
}

/// The names that `requises` holds and `presentes` lacks.
pub open spec fn noms_manquants(requises: Set<Seq<char>>, presentes: Set<Seq<char>>) -> Set<
    Seq<char>,
> {
    requises.difference(presentes)
}

/// What is reported of a baseline policy that asks for more than the households have.
pub open spec fn message_baseline() -> Seq<char> {
    "Les caractéristiques dont dépend la politique baseline sont plus larges que celles présentes dans le fichier ménages"@
}

/// What is reported of a variant policy that asks for more than the households have.
pub open spec fn message_variante() -> Seq<char> {
    "Les caractéristiques dont dépend la politique variante sont plus larges que celles présentes dans le fichier ménages"@
}

/// What is reported when a difference is asked for before the baseline was simulated.
pub open spec fn message_baseline_absente() -> Seq<char> {
    "Baseline pas encore calculée !"@
}

/// Whether `e` reports, under `message`, that exactly the names of `manquantes` are
/// missing from the households.
pub open spec fn est_erreur_schema(e: KalkotoError, message: Seq<char>, manquantes: Set<Seq<char>>) -> bool {
    &&& e matches KalkotoError::SimError(
        SimulationError::MenagesPolicyMismatchError { message: m, manquantes: noms },
    )
    &&& m@ == message
    &&& noms.wf()
    &&& noms@ == manquantes
}

/// Whether `e` reports that the baseline was not simulated.
pub open spec fn est_erreur_baseline_absente(e: KalkotoError) -> bool {
    e matches KalkotoError::SimError(SimulationError::ResultsError(cause)) && cause@
        == message_baseline_absente()
}

/// The names of `requises` that `presentes` lacks, in the order of `requises`.
pub fn caracteristiques_manquantes(requises: &EnsembleNoms, presentes: &EnsembleNoms) -> (r:
    EnsembleNoms)
    requires
        requises.wf(),
    ensures
        r.wf(),
        r@ == noms_manquants(requises@, presentes@),
        r.noms() == requises.noms().filter(|nom: Seq<char>| !presentes@.contains(nom)),
{
    let ghost absent = |nom: Seq<char>| !presentes@.contains(nom);
    let mut manquantes = EnsembleNoms::new();
    let n = requises.len();
    let mut i: usize = 0;
    proof {
        assert(requises.noms().subrange(0, 0) =~= Seq::<Seq<char>>::empty());
        reveal_with_fuel(Seq::filter, 1);
    }
    while i < n
        invariant
            i <= n,
            n == requises.noms().len(),
            requises.wf(),
            manquantes.wf(),
            absent == |nom: Seq<char>| !presentes@.contains(nom),
            manquantes.noms() == requises.noms().subrange(0, i as int).filter(absent),
        decreases n - i,
    {
        let nom = requises.nom(i);
        let ghost vus = requises.noms().subrange(0, i as int);
        let ghost vus_suite = requises.noms().subrange(0, i + 1);
        proof {
            requises.lemma_vue();
            reveal_with_fuel(Seq::filter, 2);
            assert(vus_suite.drop_last() =~= vus);
            assert(vus_suite.last() == nom@);
        }
        if !presentes.contains(nom.as_str()) {
            proof {
                if manquantes@.contains(nom@) {
                    let p = manquantes.noms().index_of(nom@);
                    assert(manquantes.noms()[p] == nom@);
                    vus.lemma_filter_contains_rev(absent, nom@);
                    let q = vus.index_of(nom@);
                    assert(vus[q] == nom@);
                    assert(requises.noms()[q] == requises.noms()[i as int]);
                }
            }
            manquantes.insert(nom.clone());
        }
        i += 1;
    }
    proof {
        let tous = requises.noms();
        assert(tous.subrange(0, n as int) =~= tous);
        assert forall|nom: Seq<char>|
            manquantes@.contains(nom) <==> noms_manquants(requises@, presentes@).contains(nom) by {
            if manquantes@.contains(nom) {
                tous.lemma_filter_contains_rev(absent, nom);
            }
            if requises@.contains(nom) && !presentes@.contains(nom) {
                let q = tous.index_of(nom);
                assert(tous[q] == nom);
                tous.lemma_filter_contains(absent, q);
            }
        }
        assert(manquantes@ =~= noms_manquants(requises@, presentes@));
    }
    manquantes
}

/// Whether the subtraction accepts every pair of values.
pub open spec fn soustraction_totale<S: Fn(Reel, Reel) -> Reel>(soustraire: &S) -> bool {
    forall|a: Reel, b: Reel| call_requires(soustraire, (a, b))
}

/// Whether `ecart` can be what the subtraction returns for `variante` minus
/// `baseline`.
pub open spec fn ecart_possible<S: Fn(Reel, Reel) -> Reel>(
    soustraire: &S,
    variante: Reel,
    baseline: Reel,
    ecart: Reel,
) -> bool {
    call_ensures(soustraire, (variante, baseline), ecart)
}

/// Whether `ecarts` is the difference of the results of one household: it binds the
/// names of `variante`, in the same order; a name that `baseline` binds too goes to
/// the variant value minus the baseline value, any other name to nothing. Names that
/// only `baseline` binds are left out.
pub open spec fn est_ecart_menage<S: Fn(Reel, Reel) -> Reel>(
    soustraire: &S,
    baseline: &Dictionnaire<Reel>,
    variante: &Dictionnaire<Reel>,
    ecarts: &Dictionnaire<Option<Reel>>,
) -> bool {
    &&& ecarts.wf()
    &&& ecarts.cles() == variante.cles()
    &&& forall|nom: Seq<char>| #[trigger]
        variante@.contains_key(nom) ==> ecarts@.contains_key(nom) && if baseline@.contains_key(
            nom,
        ) {
            ecarts@[nom] matches Some(ecart) && ecart_possible(
                soustraire,
                variante@[nom],
                baseline@[nom],
                ecart,
            )
        } else {
            ecarts@[nom] is None
        }
}

/// Whether `ecarts` is the difference of two lists of results, household by
/// household, as far as both lists go.
pub open spec fn est_ecarts<S: Fn(Reel, Reel) -> Reel>(
    soustraire: &S,
    baseline: Seq<Dictionnaire<Reel>>,
    variante: Seq<Dictionnaire<Reel>>,
    ecarts: Seq<Dictionnaire<Option<Reel>>>,
) -> bool {
    &&& ecarts.len() == if baseline.len() <= variante.len() {
        baseline.len()
    } else {
        variante.len()
    }
    &&& forall|i: int|
        0 <= i < ecarts.len() ==> est_ecart_menage(
            soustraire,
            &baseline[i],
            &variante[i],
            #[trigger] &ecarts[i],
        )
}

/// The difference of the results of one household.
pub fn calculer_ecart_menage<S: Fn(Reel, Reel) -> Reel>(
    baseline: &Dictionnaire<Reel>,
    variante: &Dictionnaire<Reel>,
    soustraire: &S,
) -> (r: Dictionnaire<Option<Reel>>)
    requires
        soustraction_totale(soustraire),
        baseline.wf(),
        variante.wf(),
    ensures
        est_ecart_menage(soustraire, baseline, variante, &r),
{
    let mut ecarts: Dictionnaire<Option<Reel>> = Dictionnaire::new();
    let n = variante.len();
    let mut i: usize = 0;
    proof {
        assert(variante.cles().subrange(0, 0) =~= Seq::<Seq<char>>::empty());
    }
    while i < n
        invariant
            i <= n,
            n == variante.cles().len(),
            soustraction_totale(soustraire),
            baseline.wf(),
            variante.wf(),
            ecarts.wf(),
            ecarts.cles() == variante.cles().subrange(0, i as int),
            forall|j: int|
                0 <= j < i ==> {
                    let nom = #[trigger] variante.cles()[j];
                    ecarts@.contains_key(nom) && if baseline@.contains_key(nom) {
                        ecarts@[nom] matches Some(ecart) && ecart_possible(
                            soustraire,
                            variante@[nom],
                            baseline@[nom],
                            ecart,
                        )
                    } else {
                        ecarts@[nom] is None
                    }
                },
        decreases n - i,
    {
        let nom = variante.cle(i);
        let valeur = *variante.valeur(i);
        proof {
            variante.lemma_vue();
            ecarts.lemma_vue();
            if ecarts.cles().contains(nom@) {
                let p = ecarts.cles().index_of(nom@);
                assert(ecarts.cles()[p] == nom@);
                assert(variante.cles()[p] == variante.cles()[i as int]);
            }
        }
        let ecart = match baseline.get(nom.as_str()) {
            Some(reference) => Some(soustraire(valeur, *reference)),
            None => None,
        };
        let ghost avant = ecarts;
        ecarts.insert(nom.clone(), ecart);
        proof {
            assert(ecarts.cles() =~= variante.cles().subrange(0, i + 1));
            assert forall|j: int| 0 <= j < i + 1 implies {
                let nom = #[trigger] variante.cles()[j];
                ecarts@.contains_key(nom) && if baseline@.contains_key(nom) {
                    ecarts@[nom] matches Some(ecart) && ecart_possible(
                        soustraire,
                        variante@[nom],
                        baseline@[nom],
                        ecart,
                    )
                } else {
                    ecarts@[nom] is None
                }
            } by {
                if j < i {
                    assert(variante.cles()[j] != variante.cles()[i as int]);
                }
            }
        }
        i += 1;
    }
    proof {
        assert(variante.cles().subrange(0, n as int) =~= variante.cles());
        variante.lemma_vue();
        assert forall|nom: Seq<char>| #[trigger] variante@.contains_key(nom) implies ecarts@.contains_key(
            nom,
        ) && if baseline@.contains_key(nom) {
            ecarts@[nom] matches Some(ecart) && ecart_possible(
                soustraire,
                variante@[nom],
                baseline@[nom],
                ecart,
            )
        } else {
            ecarts@[nom] is None
        } by {
            let p = variante.cles().index_of(nom);
            assert(variante.cles()[p] == nom);
        }
    }
    ecarts
}

/// The difference of two lists of results, household by household, as far as both
/// lists go.
pub fn calculer_ecarts<S: Fn(Reel, Reel) -> Reel>(
    baseline: &Vec<Dictionnaire<Reel>>,
    variante: &Vec<Dictionnaire<Reel>>,
    soustraire: &S,
) -> (r: Vec<Dictionnaire<Option<Reel>>>)
    requires
        soustraction_totale(soustraire),
        tables_wf(baseline@),
        tables_wf(variante@),
    ensures
        est_ecarts(soustraire, baseline@, variante@, r@),
        tables_wf(r@),
{
    let n = if baseline.len() <= variante.len() {
        baseline.len()
    } else {
        variante.len()
    };
    let mut ecarts: Vec<Dictionnaire<Option<Reel>>> = Vec::new();
    let mut i: usize = 0;
    while i < n
        invariant
            i <= n,
            n <= baseline@.len(),
            n <= variante@.len(),
            ecarts@.len() == i,
            soustraction_totale(soustraire),
            tables_wf(baseline@),
            tables_wf(variante@),
            forall|j: int|
                0 <= j < i ==> est_ecart_menage(
                    soustraire,
                    &baseline@[j],
                    &variante@[j],
                    #[trigger] &ecarts@[j],
                ),
        decreases n - i,
    {
        ecarts.push(calculer_ecart_menage(&baseline[i], &variante[i], soustraire));
        i += 1;
    }
    ecarts
}

impl SimulatorBuilder<EmptyMenageInput, EmptyBaselineInput, EmptyVarianteInput> {
    /// A session that holds nothing.
    pub fn new() -> (r: Self)
        ensures
            r.results_baseline is None,
            r.results_variante is None,
            r.results_diff is None,
    {
        SimulatorBuilder {
            menage_input: EmptyMenageInput,
            policy_baseline: EmptyBaselineInput,
            policy_variante: EmptyVarianteInput,
            results_baseline: None,
            results_variante: None,
            results_diff: None,
        }
    }

    /// Whether `r` is the session moved on with what a source of households has
    /// answered: its households put into the session, or its failure as it is.
    pub open spec fn menages_attaches(
        self,
        issue: KalkotoResult<MenageInput>,
        r: KalkotoResult<
            SimulatorBuilder<ValidMenageInput, EmptyBaselineInput, EmptyVarianteInput>,
        >,
    ) -> bool {
        match issue {
            Ok(input) => {
                &&& r matches Ok(suite)
                &&& suite.menage_input.0 == input
                &&& suite.results_baseline == self.results_baseline
                &&& suite.results_variante == self.results_variante
                &&& suite.results_diff == self.results_diff
            },
            Err(e) => r matches Err(e2) && e2 == e,
        }
    }

    /// Moves the session on with what a source of households has answered: its
    /// households go into the session, its failure is handed back as it is.
    pub fn attacher_menages(self, issue: KalkotoResult<MenageInput>) -> (r: KalkotoResult<
        SimulatorBuilder<ValidMenageInput, EmptyBaselineInput, EmptyVarianteInput>,
    >)
        ensures
            self.menages_attaches(issue, r),
    {
        match issue {
            Ok(menage_input) => Ok(
                SimulatorBuilder {
                    menage_input: ValidMenageInput(menage_input),
                    policy_baseline: self.policy_baseline,
                    policy_variante: self.policy_variante,
                    results_baseline: self.results_baseline,
                    results_variante: self.results_variante,
                    results_diff: self.results_diff,
                },
            ),
            Err(e) => Err(e),
        }
    }

    /// Asks the adapter for validated households, starting it from an empty builder,
    /// and moves the session on with what it answers.
    pub fn add_menage_input<M: MenageListCreator>(self, menage_input_adapter: M) -> (r:
        KalkotoResult<SimulatorBuilder<ValidMenageInput, EmptyBaselineInput, EmptyVarianteInput>>)
        ensures
            r matches Ok(suite) ==> suite.menage_input.0.est_valide(),
            exists|depart: MenageInputBuilder<EmptyList>, issue: KalkotoResult<MenageInput>|
                {
                    &&& depart.set() is None
                    &&& #[trigger] call_ensures(
                        M::create_valid_menage_input,
                        (menage_input_adapter, depart),
                        issue,
                    )
                    &&& self.menages_attaches(issue, r)
                },
    {
        let start_menage_list = MenageInputBuilder::<EmptyList>::new();
        let issue = menage_input_adapter.create_valid_menage_input(start_menage_list);
        self.attacher_menages(issue)
    }
}

impl SimulatorBuilder<ValidMenageInput, EmptyBaselineInput, EmptyVarianteInput> {
    /// Whether `r` is the session moved on with what a source of policies has
    /// answered for the baseline: its failure as it is; its policy put into the
    /// session, if the households have every characteristic it depends on; otherwise
    /// the failure that lists exactly the characteristics that they lack.
    pub open spec fn baseline_attachee(
        self,
        issue: KalkotoResult<PolicyInput>,
        r: KalkotoResult<
            SimulatorBuilder<ValidMenageInput, ValidBaselineInput, EmptyVarianteInput>,
        >,
    ) -> bool {
        match issue {
            Ok(input) => if input.valid_policy.caracteristiques_menages@.subset_of(
                self.menage_input.0.set_caracteristiques_valide@,
            ) {
                &&& r matches Ok(suite)
                &&& suite.menage_input.0 == self.menage_input.0
                &&& suite.policy_baseline.0 == input
                &&& suite.results_baseline == self.results_baseline
                &&& suite.results_variante == self.results_variante
                &&& suite.results_diff == self.results_diff
            } else {
                r matches Err(e) && est_erreur_schema(
                    e,
                    message_baseline(),
                    noms_manquants(
                        input.valid_policy.caracteristiques_menages@,
                        self.menage_input.0.set_caracteristiques_valide@,
                    ),
                )
            },
            Err(e) => r matches Err(e2) && e2 == e,
        }
    }

    /// Moves the session on with what a source of policies has answered for the
    /// baseline. A failure is handed back as it is. A policy goes into the session if
    /// the households have every characteristic it depends on; otherwise the error
    /// lists exactly the characteristics that they lack.
    pub fn attacher_baseline(self, issue: KalkotoResult<PolicyInput>) -> (r: KalkotoResult<
        SimulatorBuilder<ValidMenageInput, ValidBaselineInput, EmptyVarianteInput>,
    >)
        requires
            issue matches Ok(input) ==> input.valid_policy.caracteristiques_menages.wf(),
        ensures
            self.baseline_attachee(issue, r),
    {
        match issue {
            Ok(baseline_policy_input) => {
                let manquantes = caracteristiques_manquantes(
                    &baseline_policy_input.valid_policy.caracteristiques_menages,
                    &self.menage_input.0.set_caracteristiques_valide,
                );
                proof {
                    let requises = baseline_policy_input.valid_policy.caracteristiques_menages@;
                    let presentes = self.menage_input.0.set_caracteristiques_valide@;
                    if requises.subset_of(presentes) {
                        assert(manquantes@ =~= Set::<Seq<char>>::empty());
                    } else {
                        let nom = choose|nom: Seq<char>|
                            requises.contains(nom) && !presentes.contains(nom);
                        assert(manquantes@.contains(nom));
                    }
                }
                if manquantes.is_empty() {
                    Ok(
                        SimulatorBuilder {
                            menage_input: self.menage_input,
                            policy_baseline: ValidBaselineInput(baseline_policy_input),
                            policy_variante: self.policy_variante,
                            results_baseline: self.results_baseline,
                            results_variante: self.results_variante,
                            results_diff: self.results_diff,
                        },
                    )
                } else {
                    Err(
                        KalkotoError::SimError(
                            SimulationError::MenagesPolicyMismatchError {
                                message: "Les caractéristiques dont dépend la politique baseline sont plus larges que celles présentes dans le fichier ménages".to_string(),
                                manquantes,
                            },
                        ),
                    )
                }
            },
            Err(e) => Err(e),
        }
    }

    /// Asks the adapter for the baseline policy and moves the session on with what it
    /// answers.
    pub fn add_valid_baseline_policy<P: PolicyCreator>(self, baseline_policy_adapter: P) -> (r:
        KalkotoResult<SimulatorBuilder<ValidMenageInput, ValidBaselineInput, EmptyVarianteInput>>)
        ensures
            r matches Ok(suite) ==> suite.policy_baseline.0.valid_policy.est_valide(),
            exists|issue: KalkotoResult<PolicyInput>|
                {
                    &&& #[trigger] call_ensures(
                        P::create_valid_policy_input,
                        (baseline_policy_adapter,),
                        issue,
                    )
                    &&& self.baseline_attachee(issue, r)
                },
    {
        let issue = baseline_policy_adapter.create_valid_policy_input();
        self.attacher_baseline(issue)
    }
}

impl<V> SimulatorBuilder<ValidMenageInput, ValidBaselineInput, V> {
    /// Simulates the baseline policy on the households and keeps the results, in
    /// place of any earlier ones. On failure the session is left as it was.
    pub fn simulate_baseline_policy<
        E: Fn(
            &Composante,
            &Dictionnaire<Reel>,
            &Dictionnaire<Reel>,
            &Dictionnaire<Caracteristique>,
        ) -> Result<Reel, String>,
    >(&mut self, executeur: &E) -> (r: KalkotoResult<()>)
        requires
            executeur_total(executeur),
            crate::entities::menage_input::menages_wf(
                old(self).menage_input.0.liste_menage_valide@,
            ),
            old(self).policy_baseline.0.valid_policy.parameters_values.wf(),
        ensures
            final(self).menage_input == old(self).menage_input,
            final(self).policy_baseline == old(self).policy_baseline,
            final(self).policy_variante == old(self).policy_variante,
            final(self).results_variante == old(self).results_variante,
            final(self).results_diff == old(self).results_diff,
            old(self).menage_input.0.liste_menage_valide@.len() == 0 || old(
                self,
            ).policy_baseline.0.valid_policy.composantes_ordonnees@.len() == 0 ==> r is Ok,
            match r {
                Ok(_) => {
                    &&& final(self).results_baseline matches Some(resultats)
                    &&& tables_wf(resultats@)
                    &&& est_simulation(
                        executeur,
                        &old(self).policy_baseline.0.valid_policy,
                        old(self).menage_input.0.liste_menage_valide@,
                        resultats@,
                    )
                },
                Err(e) => {
                    &&& final(self).results_baseline == old(self).results_baseline
                    &&& est_echec_simulation(
                        executeur,
                        &old(self).policy_baseline.0.valid_policy,
                        old(self).menage_input.0.liste_menage_valide@,
                        e,
                    )
                },
            },
    {
        match self.policy_baseline.0.valid_policy.simulate_all_menages(
            self.menage_input.0.liste_menage_valide.as_slice(),
            executeur,
        ) {
            Ok(results) => {
                self.results_baseline = Some(results);
                Ok(())
            },
            Err(e) => Err(e),
        }
    }

    /// Hands the session to a destination of results, for its baseline, and returns
    /// what the destination answers.
    pub fn export_baseline<O: OutputWriter>(&self, output_adapter: &O) -> (r: KalkotoResult<()>)
        ensures
            call_ensures(O::export_baseline_results::<V>, (output_adapter, self), r),
    {
        output_adapter.export_baseline_results(self)
    }
}

impl SimulatorBuilder<ValidMenageInput, ValidBaselineInput, EmptyVarianteInput> {
    /// Whether `r` is the session moved on with what a source of policies has
    /// answered for the variant: its failure as it is; its policy put into the
    /// session, if the households have every characteristic it depends on; otherwise
    /// the failure that lists exactly the characteristics that they lack.
    pub open spec fn variante_attachee(
        self,
        issue: KalkotoResult<PolicyInput>,
        r: KalkotoResult<
            SimulatorBuilder<ValidMenageInput, ValidBaselineInput, ValidVarianteInput>,
        >,
    ) -> bool {
        match issue {
            Ok(input) => if input.valid_policy.caracteristiques_menages@.subset_of(
                self.menage_input.0.set_caracteristiques_valide@,
            ) {
                &&& r matches Ok(suite)
                &&& suite.menage_input.0 == self.menage_input.0
                &&& suite.policy_baseline.0 == self.policy_baseline.0
                &&& suite.policy_variante.0 == input
                &&& suite.results_baseline == self.results_baseline
                &&& suite.results_variante == self.results_variante
                &&& suite.results_diff == self.results_diff
            } else {
                r matches Err(e) && est_erreur_schema(
                    e,
                    message_variante(),
                    noms_manquants(
                        input.valid_policy.caracteristiques_menages@,
                        self.menage_input.0.set_caracteristiques_valide@,
                    ),
                )
            },
            Err(e) => r matches Err(e2) && e2 == e,
        }
    }

    /// Moves the session on with what a source of policies has answered for the
    /// variant. A failure is handed back as it is. A policy goes into the session if
    /// the households have every characteristic it depends on; otherwise the error
    /// lists exactly the characteristics that they lack.
    pub fn attacher_variante(self, issue: KalkotoResult<PolicyInput>) -> (r: KalkotoResult<
        SimulatorBuilder<ValidMenageInput, ValidBaselineInput, ValidVarianteInput>,
    >)
        requires
            issue matches Ok(input) ==> input.valid_policy.caracteristiques_menages.wf(),
        ensures
            self.variante_attachee(issue, r),
    {
        match issue {
            Ok(variante_policy_input) => {
                let manquantes = caracteristiques_manquantes(
                    &variante_policy_input.valid_policy.caracteristiques_menages,
                    &self.menage_input.0.set_caracteristiques_valide,
                );
                proof {
                    let requises = variante_policy_input.valid_policy.caracteristiques_menages@;
                    let presentes = self.menage_input.0.set_caracteristiques_valide@;
                    if requises.subset_of(presentes) {
                        assert(manquantes@ =~= Set::<Seq<char>>::empty());
                    } else {
                        let nom = choose|nom: Seq<char>|
                            requises.contains(nom) && !presentes.contains(nom);
                        assert(manquantes@.contains(nom));
                    }
                }
                if manquantes.is_empty() {
                    Ok(
                        SimulatorBuilder {
                            menage_input: self.menage_input,
                            policy_baseline: self.policy_baseline,
                            policy_variante: ValidVarianteInput(variante_policy_input),
                            results_baseline: self.results_baseline,
                            results_variante: self.results_variante,
                            results_diff: self.results_diff,
                        },
                    )
                } else {
                    Err(
                        KalkotoError::SimError(
                            SimulationError::MenagesPolicyMismatchError {
                                message: "Les caractéristiques dont dépend la politique variante sont plus larges que celles présentes dans le fichier ménages".to_string(),
                                manquantes,
                            },
                        ),
                    )
                }
            },
            Err(e) => Err(e),
        }
    }

    /// Asks the adapter for the variant policy and moves the session on with what it
    /// answers.
    pub fn add_valid_variante_policy<P: PolicyCreator>(self, variante_policy_adapter: P) -> (r:
        KalkotoResult<SimulatorBuilder<ValidMenageInput, ValidBaselineInput, ValidVarianteInput>>)
        ensures
            r matches Ok(suite) ==> suite.policy_variante.0.valid_policy.est_valide(),
            exists|issue: KalkotoResult<PolicyInput>|
                {
                    &&& #[trigger] call_ensures(
                        P::create_valid_policy_input,
                        (variante_policy_adapter,),
                        issue,
                    )
                    &&& self.variante_attachee(issue, r)
                },
    {
        let issue = variante_policy_adapter.create_valid_policy_input();
        self.attacher_variante(issue)
    }
}

impl SimulatorBuilder<ValidMenageInput, ValidBaselineInput, ValidVarianteInput> {
    /// Simulates the variant policy on the households, then compares its results with
    /// those of the baseline, household by household.
    ///
    /// Without baseline results nothing is simulated. If there are none, or if the
    /// simulation fails, the session is left as it was. On success the session holds
    /// the variant results and the differences, in place of any earlier ones; the
    /// baseline results stay as they were.
    pub fn simulate_variante_policy<
        E: Fn(
            &Composante,
            &Dictionnaire<Reel>,
            &Dictionnaire<Reel>,
            &Dictionnaire<Caracteristique>,
        ) -> Result<Reel, String>,
        S: Fn(Reel, Reel) -> Reel,
    >(&mut self, executeur: &E, soustraire: &S) -> (r: KalkotoResult<()>)
        requires
            executeur_total(executeur),
            soustraction_totale(soustraire),
            crate::entities::menage_input::menages_wf(
                old(self).menage_input.0.liste_menage_valide@,
            ),
            old(self).policy_variante.0.valid_policy.parameters_values.wf(),
            old(self).results_baseline matches Some(reference) ==> tables_wf(reference@),
        ensures
            final(self).menage_input == old(self).menage_input,
            final(self).policy_baseline == old(self).policy_baseline,
            final(self).policy_variante == old(self).policy_variante,
            final(self).results_baseline == old(self).results_baseline,
            (old(self).menage_input.0.liste_menage_valide@.len() == 0 || old(
                self,
            ).policy_variante.0.valid_policy.composantes_ordonnees@.len() == 0) && old(
                self,
            ).results_baseline is Some ==> r is Ok,
            old(self).results_baseline is None ==> r is Err,
            match r {
                Ok(_) => {
                    &&& old(self).results_baseline matches Some(reference)
                    &&& final(self).results_variante matches Some(resultats)
                    &&& tables_wf(resultats@)
                    &&& est_simulation(
                        executeur,
                        &old(self).policy_variante.0.valid_policy,
                        old(self).menage_input.0.liste_menage_valide@,
                        resultats@,
                    )
                    &&& final(self).results_diff matches Some(ecarts)
                    &&& tables_wf(ecarts@)
                    &&& est_ecarts(soustraire, reference@, resultats@, ecarts@)
                },
                Err(e) => {
                    &&& final(self).results_variante == old(self).results_variante
                    &&& final(self).results_diff == old(self).results_diff
                    &&& if old(self).results_baseline is None {
                        est_erreur_baseline_absente(e)
                    } else {
                        est_echec_simulation(
                            executeur,
                            &old(self).policy_variante.0.valid_policy,
                            old(self).menage_input.0.liste_menage_valide@,
                            e,
                        )
                    }
                },
            },
    {
        match &self.results_baseline {
            None => Err(
                KalkotoError::SimError(
                    SimulationError::ResultsError("Baseline pas encore calculée !".to_string()),
                ),
            ),
            Some(reference) => {
                let results = match self.policy_variante.0.valid_policy.simulate_all_menages(
                    self.menage_input.0.liste_menage_valide.as_slice(),
                    executeur,
                ) {
                    Ok(results) => results,
                    Err(e) => {
                        return Err(e);
                    },
                };
                let diff_results = calculer_ecarts(reference, &results, soustraire);
                self.results_variante = Some(results);
                self.results_diff = Some(diff_results);
                Ok(())
            },
        }
    }

    /// Hands the session to a destination of results, for its variant and the
    /// differences, and returns what the destination answers.
    pub fn export_variante<O: OutputWriter>(&self, output_adapter: &O) -> (r: KalkotoResult<()>)
        ensures
            call_ensures(O::export_variante_results, (output_adapter, self), r),
    {
        output_adapter.export_variante_results(self)
    }
}

} // verus!
