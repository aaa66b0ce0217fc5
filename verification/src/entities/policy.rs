//! Policies: ordered components, their parameters and what they need of a household.

use crate::adapters::input_adapters::PolicyAdapterError;
use crate::dictionnaire::Dictionnaire;
use crate::dictionnaire::EnsembleNoms;
use crate::entities::menage::Caracteristique;
use crate::entities::menage::Menage;
use crate::entities::menage_input::menages_wf;
use crate::entities::simulator::SimulationError;
use crate::errors::KalkotoError;
use crate::reel::Reel;
use crate::texte::joindre;
use crate::KalkotoResult;
use vstd::prelude::*;
use vstd::seq_lib::to_multiset_remove;
use vstd::string::StringExecFns;

verus! {

/// The parameters of a component, as three sequences read side by side.
#[derive(Debug, Clone, PartialEq)]
pub struct Parameters {
    pub names: Vec<String>,
    pub intitules_long: Vec<String>,
    pub values: Vec<Reel>,
}

/// The source text of the rule of a component.
#[derive(Debug, Clone, PartialEq)]
pub struct Function(String);

impl View for Function {
    type V = Seq<char>;

    closed spec fn view(&self) -> Seq<char> {
        self.0@
    }
}

impl Function {
    /// Wraps a source text.
    pub fn new(source: String) -> (r: Function)
        ensures
            r@ == source@,
    {
        Function(source)
    }

    /// The source text.
    pub fn as_str(&self) -> (r: &str)
        ensures
            r@ == self@,
    {
        self.0.as_str()
    }
}

impl From<Function> for String {
    fn from(value: Function) -> (r: String) {
        value.0
    }
}

impl vstd::std_specs::convert::FromSpecImpl<Function> for String {
    open spec fn obeys_from_spec() -> bool {
        true
    }

    closed spec fn from_spec(value: Function) -> String {
        value.0
    }
}

/// One computable quantity of a policy.
#[derive(Debug, Clone, PartialEq)]
pub struct Composante {
    pub name: String,
    pub intitule_long: String,
    pub parameters: Parameters,
    pub logical_order: i32,
    pub caracteristiques_dependencies: Vec<String>,
    pub function: Function,
}

/// The predicate "has logical order `v`".
pub open spec fn a_rang(v: int) -> spec_fn(Composante) -> bool {
    |c: Composante| c.logical_order as int == v
}

/// The components of `s` whose logical order is `v`, in the order of `s`.
pub open spec fn de_rang(s: Seq<Composante>, v: int) -> Seq<Composante> {
    s.filter(a_rang(v))
}

/// Whether logical orders never decrease along `s`.
pub open spec fn ordre_croissant(s: Seq<Composante>) -> bool {
    forall|i: int, j: int| 0 <= i < j < s.len() ==> s[i].logical_order <= s[j].logical_order
}

/// Whether `apres` is `avant` sorted by logical order with ties left in place: logical
/// orders never decrease along `apres`, and for each logical order the components that
/// bear it are the same in both and come in the same order.
pub open spec fn est_tri_stable(avant: Seq<Composante>, apres: Seq<Composante>) -> bool {
    &&& apres.len() == avant.len()
    &&& ordre_croissant(apres)
    &&& forall|v: int| #[trigger] de_rang(apres, v) == de_rang(avant, v)
}

proof fn lemme_filtre_ajout(s: Seq<Composante>, c: Composante, v: int)
    ensures
        de_rang(s.push(c), v) == if c.logical_order as int == v {
            de_rang(s, v).push(c)
        } else {
            de_rang(s, v)
        },
{
    reveal_with_fuel(Seq::filter, 2);
    assert(s.push(c).drop_last() =~= s);
}

proof fn lemme_filtre_sans_rang(s: Seq<Composante>, v: int)
    requires
        forall|i: int| 0 <= i < s.len() ==> s[i].logical_order as int != v,
    ensures
        de_rang(s, v) == Seq::<Composante>::empty(),
    decreases s.len(),
{
    reveal_with_fuel(Seq::filter, 2);
    if s.len() > 0 {
        lemme_filtre_sans_rang(s.drop_last(), v);
    }
}

proof fn lemme_insertion_stable(t: Seq<Composante>, pos: int, c: Composante, v: int)
    requires
        0 <= pos <= t.len(),
        forall|j: int| pos <= j < t.len() ==> t[j].logical_order > c.logical_order,
    ensures
        de_rang(t.insert(pos, c), v) == if c.logical_order as int == v {
            de_rang(t, v).push(c)
        } else {
            de_rang(t, v)
        },
{
    let gauche = t.subrange(0, pos);
    let droite = t.subrange(pos, t.len() as int);
    let p = a_rang(v);
    assert(t =~= gauche + droite);
    assert(t.insert(pos, c) =~= gauche.push(c) + droite);
    Seq::filter_distributes_over_add(gauche, droite, p);
    Seq::filter_distributes_over_add(gauche.push(c), droite, p);
    lemme_filtre_ajout(gauche, c, v);
    if c.logical_order as int == v {
        lemme_filtre_sans_rang(droite, v);
        assert(de_rang(gauche, v).push(c) + Seq::<Composante>::empty() =~= de_rang(gauche, v).push(
            c,
        ));
        assert(de_rang(gauche, v) + Seq::<Composante>::empty() =~= de_rang(gauche, v));
    }
}

proof fn lemme_rangs_determinent(a: Seq<Composante>, b: Seq<Composante>)
    requires
        a.len() == b.len(),
        ordre_croissant(a),
        ordre_croissant(b),
        forall|v: int| #[trigger] de_rang(a, v) == de_rang(b, v),
    ensures
        a == b,
    decreases a.len(),
{
    if a.len() == 0 {
        assert(a =~= b);
    } else {
        let x = a.last();
        let y = b.last();
        let kx = x.logical_order as int;
        let ky = y.logical_order as int;
        let debut_a = a.drop_last();
        let debut_b = b.drop_last();
        assert(a =~= debut_a.push(x));
        assert(b =~= debut_b.push(y));
        assert forall|v: int|
            #[trigger] de_rang(a, v) == if kx == v {
                de_rang(debut_a, v).push(x)
            } else {
                de_rang(debut_a, v)
            } by {
            lemme_filtre_ajout(debut_a, x, v);
        }
        assert forall|v: int|
            #[trigger] de_rang(b, v) == if ky == v {
                de_rang(debut_b, v).push(y)
            } else {
                de_rang(debut_b, v)
            } by {
            lemme_filtre_ajout(debut_b, y, v);
        }
        if kx != ky {
            // The larger of the two last orders is borne by a component of both
            // sequences, which then stands before a last component of smaller order.
            if kx < ky {
                assert(de_rang(b, ky).last() == y);
                assert(de_rang(a, ky).contains(y));
                a.lemma_filter_contains_rev(a_rang(ky), y);
                let i = a.index_of(y);
                assert(a[i] == y);
                assert(i < a.len() - 1);
            } else {
                assert(de_rang(a, kx).last() == x);
                assert(de_rang(b, kx).contains(x));
                b.lemma_filter_contains_rev(a_rang(kx), x);
                let i = b.index_of(x);
                assert(b[i] == x);
                assert(i < b.len() - 1);
            }
            assert(false);
        }
        assert(de_rang(a, kx) == de_rang(b, kx));
        assert(de_rang(debut_a, kx).push(x).last() == x);
        assert(de_rang(debut_b, kx).push(y).last() == y);
        assert(x == y);
        assert(de_rang(debut_a, kx).push(x).drop_last() =~= de_rang(debut_a, kx));
        assert(de_rang(debut_b, kx).push(y).drop_last() =~= de_rang(debut_b, kx));
        assert forall|v: int| #[trigger] de_rang(debut_a, v) == de_rang(debut_b, v) by {
            assert(de_rang(a, v) == de_rang(b, v));
        }
        assert forall|i: int, j: int| 0 <= i < j < debut_a.len() implies debut_a[i].logical_order
            <= debut_a[j].logical_order by {
            assert(debut_a[i] == a[i] && debut_a[j] == a[j]);
        }
        assert forall|i: int, j: int| 0 <= i < j < debut_b.len() implies debut_b[i].logical_order
            <= debut_b[j].logical_order by {
            assert(debut_b[i] == b[i] && debut_b[j] == b[j]);
        }
        lemme_rangs_determinent(debut_a, debut_b);
    }
}

/// A sequence of components has one sorting by logical order that leaves ties in
/// place, and no other.
pub proof fn lemme_tri_stable_unique(avant: Seq<Composante>, a: Seq<Composante>, b: Seq<Composante>)
    requires
        est_tri_stable(avant, a),
        est_tri_stable(avant, b),
    ensures
        a == b,
{
    assert forall|v: int| #[trigger] de_rang(a, v) == de_rang(b, v) by {
        assert(de_rang(a, v) == de_rang(avant, v));
        assert(de_rang(b, v) == de_rang(avant, v));
    }
    lemme_rangs_determinent(a, b);
}

/// Sorts components by logical order, ascending; components of equal logical order
/// keep the order in which they were given.
pub fn trier_par_ordre_logique(composantes: Vec<Composante>) -> (r: Vec<Composante>)
    ensures
        est_tri_stable(composantes@, r@),
        r@.to_multiset() == composantes@.to_multiset(),
{
    let ghost avant = composantes@;
    let mut reste = composantes;
    let mut tries: Vec<Composante> = Vec::new();
    let ghost mut k: int = 0;
    proof {
        assert(avant.subrange(0, 0) =~= Seq::<Composante>::empty());
        assert(tries@ =~= avant.subrange(0, 0));
        assert forall|v: int| #[trigger] de_rang(tries@, v) == de_rang(avant.subrange(0, 0), v) by {
            assert(tries@ =~= avant.subrange(0, 0));
        }
        assert(reste@ =~= avant.subrange(0, avant.len() as int));
    }
    while reste.len() > 0
        invariant
            0 <= k <= avant.len(),
            reste@ == avant.subrange(k, avant.len() as int),
            est_tri_stable(avant.subrange(0, k), tries@),
            tries@.to_multiset() == avant.subrange(0, k).to_multiset(),
        decreases reste.len(),
    {
        let c = reste.remove(0);
        let mut pos: usize = tries.len();
        while pos > 0 && tries[pos - 1].logical_order > c.logical_order
            invariant
                pos <= tries.len(),
                forall|j: int| pos <= j < tries.len() ==> tries@[j].logical_order > c.logical_order,
            decreases pos,
        {
            pos -= 1;
        }
        let ghost t0 = tries@;
        tries.insert(pos, c);
        proof {
            let debut = avant.subrange(0, k);
            let suite = avant.subrange(0, k + 1);
            assert(c == avant[k]);
            assert(suite =~= debut.push(c));
            assert(reste@ =~= avant.subrange(k + 1, avant.len() as int));
            assert(tries@.remove(pos as int) =~= t0);
            to_multiset_remove(tries@, pos as int);
            tries@.to_multiset_ensures();
            assert(tries@[pos as int] == c);
            assert(tries@.contains(c));
            assert(tries@.to_multiset() =~= t0.to_multiset().insert(c));
            debut.to_multiset_ensures();
            assert forall|v: int| #[trigger] de_rang(tries@, v) == de_rang(suite, v) by {
                lemme_insertion_stable(t0, pos as int, c, v);
                lemme_filtre_ajout(debut, c, v);
                assert(de_rang(t0, v) == de_rang(debut, v));
            }
            assert forall|i: int, j: int| 0 <= i < j < tries@.len() implies tries@[i].logical_order
                <= tries@[j].logical_order by {
                if pos > 0 {
                    assert(t0[pos - 1].logical_order <= c.logical_order);
                }
                if i < pos && j > pos {
                    assert(tries@[i] == t0[i]);
                    assert(tries@[j] == t0[j - 1]);
                } else if i < pos && j == pos {
                    assert(tries@[i] == t0[i]);
                    if i < pos - 1 {
                        assert(t0[i].logical_order <= t0[pos - 1].logical_order);
                    }
                } else if i < pos && j < pos {
                    assert(tries@[i] == t0[i]);
                    assert(tries@[j] == t0[j]);
                } else if i == pos {
                    assert(tries@[j] == t0[j - 1]);
                } else {
                    assert(tries@[i] == t0[i - 1]);
                    assert(tries@[j] == t0[j - 1]);
                }
            }
            k = k + 1;
        }
    }
    proof {
        assert(avant.subrange(0, k) =~= avant);
    }
    tries
}

/// The titles that a component declares: its parameter names and their titles side by
/// side, as far as both sequences go.
pub open spec fn intitules_declares(c: Composante) -> Seq<(Seq<char>, String)> {
    Seq::new(
        if c.parameters.names@.len() <= c.parameters.intitules_long@.len() {
            c.parameters.names@.len()
        } else {
            c.parameters.intitules_long@.len()
        },
        |i: int| (c.parameters.names@[i]@, c.parameters.intitules_long@[i]),
    )
}

/// The values that a component declares: its parameter names and their values side by
/// side, as far as both sequences go.
pub open spec fn valeurs_declarees(c: Composante) -> Seq<(Seq<char>, Reel)> {
    Seq::new(
        if c.parameters.names@.len() <= c.parameters.values@.len() {
            c.parameters.names@.len()
        } else {
            c.parameters.values@.len()
        },
        |i: int| (c.parameters.names@[i]@, c.parameters.values@[i]),
    )
}

/// The titles declared by the components of `cs`, component after component.
pub open spec fn tous_intitules(cs: Seq<Composante>) -> Seq<(Seq<char>, String)>
    decreases cs.len(),
{
    if cs.len() == 0 {
        Seq::empty()
    } else {
        tous_intitules(cs.drop_last()) + intitules_declares(cs.last())
    }
}

/// The values declared by the components of `cs`, component after component.
pub open spec fn toutes_valeurs(cs: Seq<Composante>) -> Seq<(Seq<char>, Reel)>
    decreases cs.len(),
{
    if cs.len() == 0 {
        Seq::empty()
    } else {
        toutes_valeurs(cs.drop_last()) + valeurs_declarees(cs.last())
    }
}

/// The table that a sequence of declarations builds: the declarations are entered one
/// after another, so that a name declared several times keeps what was declared last.
pub open spec fn table_de<V>(declarations: Seq<(Seq<char>, V)>) -> Map<Seq<char>, V>
    decreases declarations.len(),
{
    if declarations.len() == 0 {
        Map::empty()
    } else {
        table_de(declarations.drop_last()).insert(
            declarations.last().0,
            declarations.last().1,
        )
    }
}

/// The names of the characteristics that at least one component of `cs` depends on.
pub open spec fn dependances(cs: Seq<Composante>) -> Set<Seq<char>> {
    Set::new(
        |nom: Seq<char>|
            exists|i: int, j: int|
                0 <= i < cs.len() && 0 <= j < cs[i].caracteristiques_dependencies@.len()
                    && #[trigger] cs[i].caracteristiques_dependencies@[j]@ == nom,
    )
}

/// The source texts of the rules of `cs`, in order.
pub open spec fn sources(cs: Seq<Composante>) -> Seq<Seq<char>> {
    Seq::new(cs.len(), |i: int| cs[i].function@)
}

/// A name that is not declared again later is bound to what its declaration says.
pub proof fn lemme_derniere_declaration<V>(declarations: Seq<(Seq<char>, V)>, k: int)
    requires
        0 <= k < declarations.len(),
        forall|j: int| k < j < declarations.len() ==> declarations[j].0 != declarations[k].0,
    ensures
        table_de(declarations).contains_key(declarations[k].0),
        table_de(declarations)[declarations[k].0] == declarations[k].1,
    decreases declarations.len(),
{
    if k < declarations.len() - 1 {
        lemme_derniere_declaration(declarations.drop_last(), k);
    }
}

/// The names bound by the table are exactly the declared names.
pub proof fn lemme_noms_declares<V>(declarations: Seq<(Seq<char>, V)>, nom: Seq<char>)
    ensures
        table_de(declarations).contains_key(nom) <==> exists|k: int|
            0 <= k < declarations.len() && (#[trigger] declarations[k]).0 == nom,
    decreases declarations.len(),
{
    if declarations.len() > 0 {
        let debut = declarations.drop_last();
        lemme_noms_declares(debut, nom);
        if table_de(declarations).contains_key(nom) {
            if declarations.last().0 == nom {
                assert(declarations[declarations.len() - 1].0 == nom);
            } else {
                let k = choose|k: int| 0 <= k < debut.len() && (#[trigger] debut[k]).0 == nom;
                assert(declarations[k].0 == nom);
            }
        }
        if exists|k: int| 0 <= k < declarations.len() && (#[trigger] declarations[k]).0 == nom {
            let k = choose|k: int|
                0 <= k < declarations.len() && (#[trigger] declarations[k]).0 == nom;
            if k < debut.len() {
                assert(debut[k].0 == nom);
            }
        }
    }
}

proof fn lemme_table_ajout<V>(declarations: Seq<(Seq<char>, V)>, nom: Seq<char>, valeur: V)
    ensures
        table_de(declarations.push((nom, valeur))) == table_de(declarations).insert(nom, valeur),
{
    assert(declarations.push((nom, valeur)).drop_last() =~= declarations);
}

/// A public policy: its components in evaluation order, and what they declare, put
/// together.
#[derive(Debug, Clone, PartialEq)]
pub struct Policy {
    pub name: String,
    pub intitule_long: String,
    pub composantes_ordonnees: Vec<Composante>,
    pub parameters_intitules: Dictionnaire<String>,
    pub parameters_values: Dictionnaire<Reel>,
    pub caracteristiques_menages: EnsembleNoms,
    pub python_functions: Option<String>,
}

/// The text reported when a policy has no component.
pub open spec fn cause_policy_vide() -> Seq<char> {
    "Le fichier input policy n'est pas lu !"@
}

/// The note that goes with every failure of a rule.
pub open spec fn note_echec_regle() -> Seq<char> {
    "Erreur extraction"@
}

/// Whether `e` reports that the rule of the component named `composante` failed on the
/// household of index `menage`, for the reason `cause`.
pub open spec fn est_erreur_evaluation(
    e: KalkotoError,
    composante: Seq<char>,
    menage: i32,
    cause: Seq<char>,
) -> bool {
    &&& e matches KalkotoError::SimError(
        SimulationError::PythonError { source, err_msg, composante: c, menage: m },
    )
    &&& source@ == cause
    &&& err_msg@ == note_echec_regle()
    &&& c@ == composante
    &&& m == menage
}

/// The text reported when households and variables do not pair up.
pub open spec fn cause_longueurs() -> Seq<char> {
    "Les ménages et leurs variables ne sont pas en même nombre"@
}

/// Whether `e` reports that households and variables do not pair up.
pub open spec fn est_erreur_longueurs(e: KalkotoError) -> bool {
    e matches KalkotoError::SimError(SimulationError::ResultsError(cause)) && cause@
        == cause_longueurs()
}

/// Whether the executor accepts every call on well-formed tables.
pub open spec fn executeur_total<
    E: Fn(&Composante, &Dictionnaire<Reel>, &Dictionnaire<Reel>, &Dictionnaire<Caracteristique>)
        -> Result<Reel, String>,
>(executeur: &E) -> bool {
    forall|
        c: &Composante,
        variables: &Dictionnaire<Reel>,
        parametres: &Dictionnaire<Reel>,
        caracteristiques: &Dictionnaire<Caracteristique>,
    |
        variables.wf() && parametres.wf() && caracteristiques.wf() ==> call_requires(
            executeur,
            (c, variables, parametres, caracteristiques),
        )
}

/// Whether the executor can answer `issue` when asked for `composante` on `menage`
/// with the variables `variables`.
pub open spec fn issue_possible<
    E: Fn(&Composante, &Dictionnaire<Reel>, &Dictionnaire<Reel>, &Dictionnaire<Caracteristique>)
        -> Result<Reel, String>,
>(
    executeur: &E,
    composante: &Composante,
    parametres: &Dictionnaire<Reel>,
    menage: &Menage,
    variables: &Dictionnaire<Reel>,
    issue: Result<Reel, String>,
) -> bool {
    call_ensures(executeur, (composante, variables, parametres, &menage.caracteristiques), issue)
}

/// The names of a table once `nom` has been bound in it: a name already there keeps
/// its place, a new name goes to the end.
pub open spec fn noms_apres(noms: Seq<Seq<char>>, nom: Seq<char>) -> Seq<Seq<char>> {
    if noms.contains(nom) {
        noms
    } else {
        noms.push(nom)
    }
}

/// Whether `apres` is `avant` with one more result: a value that the executor can
/// return for `composante` on `menage` with the variables `avant`, bound to the name
/// of the component.
pub open spec fn pas_evaluation<
    E: Fn(&Composante, &Dictionnaire<Reel>, &Dictionnaire<Reel>, &Dictionnaire<Caracteristique>)
        -> Result<Reel, String>,
>(
    executeur: &E,
    composante: &Composante,
    parametres: &Dictionnaire<Reel>,
    menage: &Menage,
    avant: &Dictionnaire<Reel>,
    apres: &Dictionnaire<Reel>,
) -> bool {
    exists|v: Reel|
        {
            &&& #[trigger] issue_possible(
                executeur,
                composante,
                parametres,
                menage,
                avant,
                Ok::<Reel, String>(v),
            )
            &&& apres.wf()
            &&& apres@ == avant@.insert(composante.name@, v)
            &&& apres.cles() == noms_apres(avant.cles(), composante.name@)
        }
}

/// Whether `variables` can be what a household holds once the components of
/// `composantes` have been evaluated in order, starting from no variable at all, each
/// component seeing the results of those before it and not yet its own.
pub open spec fn evaluation_menage<
    E: Fn(&Composante, &Dictionnaire<Reel>, &Dictionnaire<Reel>, &Dictionnaire<Caracteristique>)
        -> Result<Reel, String>,
>(
    executeur: &E,
    composantes: Seq<Composante>,
    parametres: &Dictionnaire<Reel>,
    menage: &Menage,
    variables: &Dictionnaire<Reel>,
) -> bool
    decreases composantes.len(),
{
    if composantes.len() == 0 {
        variables.wf() && variables.cles() == Seq::<Seq<char>>::empty()
    } else {
        exists|precedentes: Dictionnaire<Reel>|
            {
                &&& evaluation_menage(
                    executeur,
                    composantes.drop_last(),
                    parametres,
                    menage,
                    &precedentes,
                )
                &&& #[trigger] pas_evaluation(
                    executeur,
                    &composantes.last(),
                    parametres,
                    menage,
                    &precedentes,
                    variables,
                )
            }
    }
}

/// Whether the executor can answer with a value when asked for `composante` on
/// `menage` with the variables `variables`.
pub open spec fn valeur_possible<
    E: Fn(&Composante, &Dictionnaire<Reel>, &Dictionnaire<Reel>, &Dictionnaire<Caracteristique>)
        -> Result<Reel, String>,
>(
    executeur: &E,
    composante: &Composante,
    parametres: &Dictionnaire<Reel>,
    menage: &Menage,
    variables: &Dictionnaire<Reel>,
) -> bool {
    exists|v: Reel|
        #[trigger] issue_possible(
            executeur,
            composante,
            parametres,
            menage,
            variables,
            Ok::<Reel, String>(v),
        )
}

/// Whether `e` can be the failure of `composante` on households that hold the
/// variables `variables`: the executor answered with a value for each household
/// before some household, failed on that one, and `e` names the component, that
/// household and the executor's reason.
pub open spec fn est_echec_composante<
    E: Fn(&Composante, &Dictionnaire<Reel>, &Dictionnaire<Reel>, &Dictionnaire<Caracteristique>)
        -> Result<Reel, String>,
>(
    executeur: &E,
    composante: &Composante,
    parametres: &Dictionnaire<Reel>,
    menages: Seq<Menage>,
    variables: Seq<Dictionnaire<Reel>>,
    e: KalkotoError,
) -> bool {
    exists|i: int, cause: String|
        {
            &&& 0 <= i < menages.len()
            &&& forall|j: int|
                0 <= j < i ==> valeur_possible(
                    executeur,
                    composante,
                    parametres,
                    &menages[j],
                    #[trigger] &variables[j],
                )
            &&& #[trigger] issue_possible(
                executeur,
                composante,
                parametres,
                &menages[i],
                &variables[i],
                Err::<Reel, String>(cause),
            )
            &&& est_erreur_evaluation(e, composante.name@, menages[i].index, cause@)
        }
}

/// Whether every table of the list is well-formed.
pub open spec fn tables_wf<V>(tables: Seq<Dictionnaire<V>>) -> bool {
    forall|i: int| 0 <= i < tables.len() ==> (#[trigger] tables[i]).wf()
}

impl Composante {
    /// Turns one answer of the executor into the value to record, or into the error
    /// that names this component, the household and the executor's reason.
    pub fn interpreter_issue(&self, issue: Result<Reel, String>, menage: &Menage) -> (r:
        KalkotoResult<Reel>)
        ensures
            match issue {
                Ok(v) => r == Ok::<Reel, KalkotoError>(v),
                Err(cause) => r matches Err(e) && est_erreur_evaluation(
                    e,
                    self.name@,
                    menage.index,
                    cause@,
                ),
            },
    {
        match issue {
            Ok(v) => Ok(v),
            Err(cause) => Err(
                KalkotoError::SimError(
                    SimulationError::PythonError {
                        source: cause,
                        err_msg: "Erreur extraction".to_string(),
                        composante: self.name.clone(),
                        menage: menage.index,
                    },
                ),
            ),
        }
    }

    /// Evaluates this component for every household, each with its own variables, and
    /// records each result in the variables of its household under the name of the
    /// component.
    ///
    /// All households are evaluated before anything is recorded: on failure the
    /// variables are left as they were. The failure reported is that of the first
    /// household on which the executor failed.
    pub fn simulate_all_menages<
        E: Fn(
            &Composante,
            &Dictionnaire<Reel>,
            &Dictionnaire<Reel>,
            &Dictionnaire<Caracteristique>,
        ) -> Result<Reel, String>,
    >(
        &self,
        menages: &[Menage],
        variables: &mut Vec<Dictionnaire<Reel>>,
        parametres: &Dictionnaire<Reel>,
        executeur: &E,
    ) -> (r: KalkotoResult<()>)
        requires
            executeur_total(executeur),
            menages_wf(menages@),
            tables_wf(old(variables)@),
            parametres.wf(),
        ensures
            final(variables)@.len() == old(variables)@.len(),
            tables_wf(final(variables)@),
            menages@.len() != old(variables)@.len() ==> (r matches Err(e) && est_erreur_longueurs(
                e,
            )),
            menages@.len() == 0 && old(variables)@.len() == 0 ==> r is Ok,
            r is Err ==> final(variables)@ == old(variables)@,
            r is Ok ==> menages@.len() == old(variables)@.len() && forall|i: int|
                0 <= i < menages@.len() ==> pas_evaluation(
                    executeur,
                    self,
                    parametres,
                    &menages@[i],
                    &old(variables)@[i],
                    #[trigger] &final(variables)@[i],
                ),
            r matches Err(e) ==> menages@.len() != old(variables)@.len() || est_echec_composante(
                executeur,
                self,
                parametres,
                menages@,
                old(variables)@,
                e,
            ),
    {
        if menages.len() != variables.len() {
            return Err(
                KalkotoError::SimError(
                    SimulationError::ResultsError(
                        "Les ménages et leurs variables ne sont pas en même nombre".to_string(),
                    ),
                ),
            );
        }
        let n = menages.len();
        let mut valeurs: Vec<Reel> = Vec::new();
        let mut i: usize = 0;
        while i < n
            invariant
                i <= n,
                n == menages@.len(),
                n == variables@.len(),
                variables@ == old(variables)@,
                valeurs@.len() == i,
                executeur_total(executeur),
                menages_wf(menages@),
                tables_wf(variables@),
                parametres.wf(),
                forall|j: int|
                    0 <= j < i ==> issue_possible(
                        executeur,
                        self,
                        parametres,
                        &menages@[j],
                        &variables@[j],
                        Ok::<Reel, String>(#[trigger] valeurs@[j]),
                    ),
            decreases n - i,
        {
            let issue = executeur(self, &variables[i], parametres, &menages[i].caracteristiques);
            let ghost issue_vue = issue;
            match self.interpreter_issue(issue, &menages[i]) {
                Ok(v) => {
                    valeurs.push(v);
                },
                Err(e) => {
                    proof {
                        let cause = issue_vue->Err_0;
                        assert(issue_possible(
                            executeur,
                            self,
                            parametres,
                            &menages@[i as int],
                            &old(variables)@[i as int],
                            Err::<Reel, String>(cause),
                        ));
                        assert forall|j: int| 0 <= j < i implies valeur_possible(
                            executeur,
                            self,
                            parametres,
                            &menages@[j],
                            #[trigger] &old(variables)@[j],
                        ) by {
                            assert(issue_possible(
                                executeur,
                                self,
                                parametres,
                                &menages@[j],
                                &variables@[j],
                                Ok::<Reel, String>(valeurs@[j]),
                            ));
                        }
                    }
                    return Err(e);
                },
            }
            i += 1;
        }
        let mut j: usize = 0;
        while j < n
            invariant
                j <= n,
                n == menages@.len(),
                n == variables@.len(),
                n == old(variables)@.len(),
                n == valeurs@.len(),
                forall|k: int| j <= k < n ==> variables@[k] == old(variables)@[k],
                forall|k: int| 0 <= k < n ==> (#[trigger] variables@[k]).wf(),
                forall|k: int| 0 <= k < n ==> (#[trigger] old(variables)@[k]).wf(),
                forall|k: int|
                    0 <= k < j ==> (#[trigger] variables@[k])@ == old(variables)@[k]@.insert(
                        self.name@,
                        valeurs@[k],
                    ) && variables@[k].cles() == noms_apres(old(variables)@[k].cles(), self.name@),
                forall|k: int|
                    0 <= k < n ==> issue_possible(
                        executeur,
                        self,
                        parametres,
                        &menages@[k],
                        &old(variables)@[k],
                        Ok::<Reel, String>(#[trigger] valeurs@[k]),
                    ),
            decreases n - j,
        {
            let mut table = Dictionnaire::new();
            core::mem::swap(&mut table, &mut variables[j]);
            table.insert(self.name.clone(), valeurs[j]);
            variables.set(j, table);
            j += 1;
        }
        proof {
            assert forall|i: int| 0 <= i < menages@.len() implies pas_evaluation(
                executeur,
                self,
                parametres,
                &menages@[i],
                &old(variables)@[i],
                #[trigger] &variables@[i],
            ) by {
                assert(issue_possible(
                    executeur,
                    self,
                    parametres,
                    &menages@[i],
                    &old(variables)@[i],
                    Ok::<Reel, String>(valeurs@[i]),
                ));
            }
        }
        Ok(())
    }
}

/// The names held by a sequence of strings.
pub open spec fn noms_de(v: Seq<String>) -> Set<Seq<char>> {
    Set::new(|nom: Seq<char>| exists|j: int| 0 <= j < v.len() && (#[trigger] v[j])@ == nom)
}

proof fn lemme_dependances_suite(cs: Seq<Composante>, i: int)
    requires
        0 <= i < cs.len(),
    ensures
        dependances(cs.subrange(0, i + 1)) == dependances(cs.subrange(0, i)).union(
            noms_de(cs[i].caracteristiques_dependencies@),
        ),
{
    let debut = cs.subrange(0, i);
    let suite = cs.subrange(0, i + 1);
    let deps = cs[i].caracteristiques_dependencies@;
    assert forall|nom: Seq<char>|
        dependances(suite).contains(nom) <==> dependances(debut).union(noms_de(deps)).contains(
            nom,
        ) by {
        if dependances(suite).contains(nom) {
            let (a, b) = choose|a: int, b: int|
                0 <= a < suite.len() && 0 <= b < suite[a].caracteristiques_dependencies@.len()
                    && #[trigger] suite[a].caracteristiques_dependencies@[b]@ == nom;
            if a < i {
                assert(debut[a].caracteristiques_dependencies@[b]@ == nom);
            } else {
                assert(deps[b]@ == nom);
            }
        }
        if dependances(debut).contains(nom) {
            let (a, b) = choose|a: int, b: int|
                0 <= a < debut.len() && 0 <= b < debut[a].caracteristiques_dependencies@.len()
                    && #[trigger] debut[a].caracteristiques_dependencies@[b]@ == nom;
            assert(suite[a].caracteristiques_dependencies@[b]@ == nom);
        }
        if noms_de(deps).contains(nom) {
            let b = choose|b: int| 0 <= b < deps.len() && (#[trigger] deps[b])@ == nom;
            assert(suite[i].caracteristiques_dependencies@[b]@ == nom);
        }
    }
    assert(dependances(suite) =~= dependances(debut).union(noms_de(deps)));
}

/// Whether `resultats` can be what the policy yields for `menages`: one table per
/// household, in the order of the households, each holding what the components give
/// when evaluated in the order of the policy.
pub open spec fn est_simulation<
    E: Fn(&Composante, &Dictionnaire<Reel>, &Dictionnaire<Reel>, &Dictionnaire<Caracteristique>)
        -> Result<Reel, String>,
>(
    executeur: &E,
    policy: &Policy,
    menages: Seq<Menage>,
    resultats: Seq<Dictionnaire<Reel>>,
) -> bool {
    &&& resultats.len() == menages.len()
    &&& forall|i: int|
        0 <= i < menages.len() ==> evaluation_menage(
            executeur,
            policy.composantes_ordonnees@,
            &policy.parameters_values,
            &menages[i],
            #[trigger] &resultats[i],
        )
}

/// Whether `e` can be the failure of the policy on `menages`: all households went
/// through the components before some component, holding then the variables
/// `variables`, and that component failed with `e`.
pub open spec fn est_echec_simulation<
    E: Fn(&Composante, &Dictionnaire<Reel>, &Dictionnaire<Reel>, &Dictionnaire<Caracteristique>)
        -> Result<Reel, String>,
>(executeur: &E, policy: &Policy, menages: Seq<Menage>, e: KalkotoError) -> bool {
    exists|k: int, variables: Seq<Dictionnaire<Reel>>|
        {
            &&& 0 <= k < policy.composantes_ordonnees@.len()
            &&& variables.len() == menages.len()
            &&& forall|i: int|
                0 <= i < menages.len() ==> evaluation_menage(
                    executeur,
                    policy.composantes_ordonnees@.subrange(0, k),
                    &policy.parameters_values,
                    &menages[i],
                    #[trigger] &variables[i],
                )
            &&& #[trigger] est_echec_composante(
                executeur,
                &policy.composantes_ordonnees@[k],
                &policy.parameters_values,
                menages,
                variables,
                e,
            )
        }
}

impl Policy {
    /// Whether the tables of the policy hold what its components declare: each
    /// parameter name bound to the title and to the value of its last declaration in
    /// evaluation order, and the set of characteristics made of every dependency of
    /// every component.
    pub open spec fn agregats_coherents(&self) -> bool {
        &&& self.parameters_intitules.wf()
        &&& self.parameters_intitules@ == table_de(tous_intitules(self.composantes_ordonnees@))
        &&& self.parameters_values.wf()
        &&& self.parameters_values@ == table_de(toutes_valeurs(self.composantes_ordonnees@))
        &&& self.caracteristiques_menages.wf()
        &&& self.caracteristiques_menages@ == dependances(self.composantes_ordonnees@)
    }

    /// Whether the policy is fit for simulation: it has a component, its components
    /// are in evaluation order, and its tables are coherent with them.
    pub open spec fn est_valide(&self) -> bool {
        &&& self.composantes_ordonnees@.len() > 0
        &&& ordre_croissant(self.composantes_ordonnees@)
        &&& self.agregats_coherents()
    }

    /// Builds a policy from components in any order: sorts them by logical order,
    /// ties left in place, then gathers their parameters and dependencies in that
    /// order. The rules are not yet put together.
    pub fn from_composantes(name: String, intitule_long: String, composantes: Vec<Composante>) -> (r:
        Policy)
        ensures
            r.name == name,
            r.intitule_long == intitule_long,
            est_tri_stable(composantes@, r.composantes_ordonnees@),
            r.composantes_ordonnees@.to_multiset() == composantes@.to_multiset(),
            r.agregats_coherents(),
            r.python_functions is None,
    {
        let ordonnees = trier_par_ordre_logique(composantes);
        let mut intitules: Dictionnaire<String> = Dictionnaire::new();
        let mut valeurs: Dictionnaire<Reel> = Dictionnaire::new();
        let mut caracteristiques = EnsembleNoms::new();
        let mut i: usize = 0;
        proof {
            assert(ordonnees@.subrange(0, 0) =~= Seq::<Composante>::empty());
            assert(caracteristiques@ =~= dependances(ordonnees@.subrange(0, 0)));
        }
        while i < ordonnees.len()
            invariant
                i <= ordonnees@.len(),
                intitules.wf(),
                intitules@ == table_de(tous_intitules(ordonnees@.subrange(0, i as int))),
                valeurs.wf(),
                valeurs@ == table_de(toutes_valeurs(ordonnees@.subrange(0, i as int))),
                caracteristiques.wf(),
                caracteristiques@ == dependances(ordonnees@.subrange(0, i as int)),
            decreases ordonnees@.len() - i,
        {
            let c = &ordonnees[i];
            let ghost debut = ordonnees@.subrange(0, i as int);
            let ghost suite = ordonnees@.subrange(0, i + 1);
            proof {
                assert(suite.drop_last() =~= debut);
                assert(suite.last() == *c);
            }
            let nb_noms = c.parameters.names.len();
            let nb_intitules = if nb_noms <= c.parameters.intitules_long.len() {
                nb_noms
            } else {
                c.parameters.intitules_long.len()
            };
            let mut j: usize = 0;
            proof {
                assert(tous_intitules(debut) + intitules_declares(*c).subrange(0, 0)
                    =~= tous_intitules(debut));
            }
            while j < nb_intitules
                invariant
                    j <= nb_intitules,
                    nb_intitules == intitules_declares(*c).len(),
                    nb_intitules <= c.parameters.names@.len(),
                    nb_intitules <= c.parameters.intitules_long@.len(),
                    intitules.wf(),
                    intitules@ == table_de(
                        tous_intitules(debut) + intitules_declares(*c).subrange(0, j as int),
                    ),
                decreases nb_intitules - j,
            {
                let ghost avant = tous_intitules(debut) + intitules_declares(*c).subrange(
                    0,
                    j as int,
                );
                let nom = c.parameters.names[j].clone();
                let intitule = c.parameters.intitules_long[j].clone();
                proof {
                    lemme_table_ajout(avant, nom@, intitule);
                    assert(avant.push((nom@, intitule)) =~= tous_intitules(debut)
                        + intitules_declares(*c).subrange(0, j + 1));
                }
                intitules.insert(nom, intitule);
                j += 1;
            }
            proof {
                assert(intitules_declares(*c).subrange(0, nb_intitules as int)
                    =~= intitules_declares(*c));
            }
            let nb_valeurs = if nb_noms <= c.parameters.values.len() {
                nb_noms
            } else {
                c.parameters.values.len()
            };
            let mut j: usize = 0;
            proof {
                assert(toutes_valeurs(debut) + valeurs_declarees(*c).subrange(0, 0)
                    =~= toutes_valeurs(debut));
            }
            while j < nb_valeurs
                invariant
                    j <= nb_valeurs,
                    nb_valeurs == valeurs_declarees(*c).len(),
                    nb_valeurs <= c.parameters.names@.len(),
                    nb_valeurs <= c.parameters.values@.len(),
                    valeurs.wf(),
                    valeurs@ == table_de(
                        toutes_valeurs(debut) + valeurs_declarees(*c).subrange(0, j as int),
                    ),
                decreases nb_valeurs - j,
            {
                let ghost avant = toutes_valeurs(debut) + valeurs_declarees(*c).subrange(
                    0,
                    j as int,
                );
                let nom = c.parameters.names[j].clone();
                let valeur = c.parameters.values[j];
                proof {
                    lemme_table_ajout(avant, nom@, valeur);
                    assert(avant.push((nom@, valeur)) =~= toutes_valeurs(debut)
                        + valeurs_declarees(*c).subrange(0, j + 1));
                }
                valeurs.insert(nom, valeur);
                j += 1;
            }
            proof {
                assert(valeurs_declarees(*c).subrange(0, nb_valeurs as int) =~= valeurs_declarees(
                    *c,
                ));
            }
            let ghost deps = c.caracteristiques_dependencies@;
            let mut j: usize = 0;
            proof {
                assert(noms_de(deps.subrange(0, 0)) =~= Set::<Seq<char>>::empty());
                assert(dependances(debut).union(Set::<Seq<char>>::empty()) =~= dependances(debut));
            }
            while j < c.caracteristiques_dependencies.len()
                invariant
                    j <= deps.len(),
                    deps == c.caracteristiques_dependencies@,
                    caracteristiques.wf(),
                    caracteristiques@ == dependances(debut).union(
                        noms_de(deps.subrange(0, j as int)),
                    ),
                decreases deps.len() - j,
            {
                let nom = c.caracteristiques_dependencies[j].clone();
                proof {
                    let vus = deps.subrange(0, j as int);
                    let vus_suite = deps.subrange(0, j + 1);
                    assert forall|n: Seq<char>|
                        noms_de(vus_suite).contains(n) <==> noms_de(vus).insert(nom@).contains(
                            n,
                        ) by {
                        if noms_de(vus_suite).contains(n) {
                            let b = choose|b: int|
                                0 <= b < vus_suite.len() && (#[trigger] vus_suite[b])@ == n;
                            if b < j {
                                assert(vus[b]@ == n);
                            }
                        }
                        if noms_de(vus).contains(n) {
                            let b = choose|b: int| 0 <= b < vus.len() && (#[trigger] vus[b])@ == n;
                            assert(vus_suite[b]@ == n);
                        }
                        if n == nom@ {
                            assert(vus_suite[j as int]@ == n);
                        }
                    }
                    assert(noms_de(vus_suite) =~= noms_de(vus).insert(nom@));
                    assert(dependances(debut).union(noms_de(vus)).insert(nom@) =~= dependances(
                        debut,
                    ).union(noms_de(vus_suite)));
                }
                caracteristiques.insert(nom);
                j += 1;
            }
            proof {
                assert(deps.subrange(0, deps.len() as int) =~= deps);
                lemme_dependances_suite(ordonnees@, i as int);
            }
            i += 1;
        }
        proof {
            assert(ordonnees@.subrange(0, ordonnees@.len() as int) =~= ordonnees@);
        }
        Policy {
            name,
            intitule_long,
            composantes_ordonnees: ordonnees,
            parameters_intitules: intitules,
            parameters_values: valeurs,
            caracteristiques_menages: caracteristiques,
            python_functions: None,
        }
    }

    /// Puts the rules of the components together, one after another with a line
    /// break between neighbours. Fails on a policy without components.
    pub fn populate_python_functions(self) -> (r: KalkotoResult<Policy>)
        ensures
            match r {
                Ok(p) => {
                    &&& self.composantes_ordonnees@.len() > 0
                    &&& p.python_functions matches Some(texte)
                    &&& texte@ == joindre(sources(self.composantes_ordonnees@), "\n"@)
                    &&& p.name == self.name
                    &&& p.intitule_long == self.intitule_long
                    &&& p.composantes_ordonnees == self.composantes_ordonnees
                    &&& p.parameters_intitules == self.parameters_intitules
                    &&& p.parameters_values == self.parameters_values
                    &&& p.caracteristiques_menages == self.caracteristiques_menages
                },
                Err(e) => {
                    &&& self.composantes_ordonnees@.len() == 0
                    &&& e matches KalkotoError::PolicyError(PolicyAdapterError::Generic(cause))
                    &&& cause@ == cause_policy_vide()
                },
            },
    {
        if self.composantes_ordonnees.len() == 0 {
            return Err(
                KalkotoError::PolicyError(
                    PolicyAdapterError::Generic("Le fichier input policy n'est pas lu !".to_string()),
                ),
            );
        }
        let ghost textes = sources(self.composantes_ordonnees@);
        let mut texte = String::new();
        let mut i: usize = 0;
        proof {
            assert(textes.subrange(0, 0) =~= Seq::<Seq<char>>::empty());
        }
        while i < self.composantes_ordonnees.len()
            invariant
                i <= self.composantes_ordonnees@.len(),
                textes == sources(self.composantes_ordonnees@),
                texte@ == joindre(textes.subrange(0, i as int), "\n"@),
            decreases self.composantes_ordonnees@.len() - i,
        {
            proof {
                let suite = textes.subrange(0, i + 1);
                assert(suite.drop_last() =~= textes.subrange(0, i as int));
                assert(suite.last() == self.composantes_ordonnees@[i as int].function@);
                if i == 0 {
                    assert(suite[0] == suite.last());
                    assert(Seq::<char>::empty() + suite[0] =~= suite[0]);
                }
            }
            if i > 0 {
                texte.append("\n");
            }
            texte.append(self.composantes_ordonnees[i].function.as_str());
            i += 1;
        }
        proof {
            assert(textes.subrange(0, textes.len() as int) =~= textes);
        }
        Ok(
            Policy {
                name: self.name,
                intitule_long: self.intitule_long,
                composantes_ordonnees: self.composantes_ordonnees,
                parameters_intitules: self.parameters_intitules,
                parameters_values: self.parameters_values,
                caracteristiques_menages: self.caracteristiques_menages,
                python_functions: Some(texte),
            },
        )
    }

    /// Evaluates every component for every household.
    ///
    /// Each household starts without variables. The components are taken in the order
    /// of the policy; each sees, for a household, the results of the components
    /// before it. On success the result holds one table per household, in the order of
    /// the households, binding each component name to its value.
    pub fn simulate_all_menages<
        E: Fn(
            &Composante,
            &Dictionnaire<Reel>,
            &Dictionnaire<Reel>,
            &Dictionnaire<Caracteristique>,
        ) -> Result<Reel, String>,
    >(&self, menages: &[Menage], executeur: &E) -> (r: KalkotoResult<Vec<Dictionnaire<Reel>>>)
        requires
            executeur_total(executeur),
            menages_wf(menages@),
            self.parameters_values.wf(),
        ensures
            menages@.len() == 0 || self.composantes_ordonnees@.len() == 0 ==> r is Ok,
            r matches Ok(resultats) ==> est_simulation(executeur, self, menages@, resultats@)
                && tables_wf(resultats@),
            r matches Err(e) ==> est_echec_simulation(executeur, self, menages@, e),
    {
        let n = menages.len();
        let mut variables: Vec<Dictionnaire<Reel>> = Vec::new();
        let mut i: usize = 0;
        while i < n
            invariant
                i <= n,
                variables@.len() == i,
                forall|j: int|
                    0 <= j < i ==> (#[trigger] variables@[j]).wf() && variables@[j].cles() == Seq::<
                        Seq<char>,
                    >::empty(),
            decreases n - i,
        {
            variables.push(Dictionnaire::new());
            i += 1;
        }
        let ghost composantes = self.composantes_ordonnees@;
        let mut k: usize = 0;
        proof {
            assert(composantes.subrange(0, 0) =~= Seq::<Composante>::empty());
        }
        while k < self.composantes_ordonnees.len()
            invariant
                k <= composantes.len(),
                composantes == self.composantes_ordonnees@,
                n == menages@.len(),
                variables@.len() == n,
                executeur_total(executeur),
                menages_wf(menages@),
                self.parameters_values.wf(),
                tables_wf(variables@),
                forall|i: int|
                    0 <= i < n ==> evaluation_menage(
                        executeur,
                        composantes.subrange(0, k as int),
                        &self.parameters_values,
                        &menages@[i],
                        #[trigger] &variables@[i],
                    ),
            decreases composantes.len() - k,
        {
            let ghost avant = variables@;
            let ghost debut = composantes.subrange(0, k as int);
            let ghost suite = composantes.subrange(0, k + 1);
            proof {
                assert(suite.drop_last() =~= debut);
                assert(suite.last() == composantes[k as int]);
            }
            match self.composantes_ordonnees[k].simulate_all_menages(
                menages,
                &mut variables,
                &self.parameters_values,
                executeur,
            ) {
                Ok(_) => {
                    proof {
                        assert forall|i: int| 0 <= i < n implies evaluation_menage(
                            executeur,
                            suite,
                            &self.parameters_values,
                            &menages@[i],
                            #[trigger] &variables@[i],
                        ) by {
                            assert(evaluation_menage(
                                executeur,
                                suite.drop_last(),
                                &self.parameters_values,
                                &menages@[i],
                                &avant[i],
                            ));
                            assert(pas_evaluation(
                                executeur,
                                &suite.last(),
                                &self.parameters_values,
                                &menages@[i],
                                &avant[i],
                                &variables@[i],
                            ));
                        }
                    }
                },
                Err(e) => {
                    proof {
                        assert(est_echec_composante(
                            executeur,
                            &composantes[k as int],
                            &self.parameters_values,
                            menages@,
                            avant,
                            e,
                        ));
                    }
                    return Err(e);
                },
            }
            k += 1;
        }
        proof {
            assert(composantes.subrange(0, composantes.len() as int) =~= composantes);
        }
        Ok(variables)
    }
}

/// Whether two answers of the executor are the same: the same value, or a failure for
/// the same reason.
pub open spec fn meme_issue(a: Result<Reel, String>, b: Result<Reel, String>) -> bool {
    match (a, b) {
        (Ok(x), Ok(y)) => x == y,
        (Err(c), Err(d)) => c@ == d@,
        _ => false,
    }
}

/// Whether the executor answers as a function of what it is given: asked twice for
/// the same component with the same parameters and characteristics and with variables
/// that bind the same names to the same values, it gives the same answer, a value or
/// a failure.
pub open spec fn executeur_deterministe<
    E: Fn(&Composante, &Dictionnaire<Reel>, &Dictionnaire<Reel>, &Dictionnaire<Caracteristique>)
        -> Result<Reel, String>,
>(executeur: &E) -> bool {
    forall|
        c: &Composante,
        parametres: &Dictionnaire<Reel>,
        menage: &Menage,
        v1: &Dictionnaire<Reel>,
        v2: &Dictionnaire<Reel>,
        i1: Result<Reel, String>,
        i2: Result<Reel, String>,
    |
        v1@ == v2@ && #[trigger] issue_possible(executeur, c, parametres, menage, v1, i1)
            && #[trigger] issue_possible(executeur, c, parametres, menage, v2, i2) ==> meme_issue(
            i1,
            i2,
        )
}

/// With an executor that answers as a function of what it is given, the variables of
/// a household after the components of `composantes` are determined.
pub proof fn lemme_evaluation_deterministe<
    E: Fn(&Composante, &Dictionnaire<Reel>, &Dictionnaire<Reel>, &Dictionnaire<Caracteristique>)
        -> Result<Reel, String>,
>(
    executeur: &E,
    composantes: Seq<Composante>,
    parametres: &Dictionnaire<Reel>,
    menage: &Menage,
    v1: &Dictionnaire<Reel>,
    v2: &Dictionnaire<Reel>,
)
    requires
        executeur_deterministe(executeur),
        evaluation_menage(executeur, composantes, parametres, menage, v1),
        evaluation_menage(executeur, composantes, parametres, menage, v2),
    ensures
        v1@ == v2@,
        v1.cles() == v2.cles(),
    decreases composantes.len(),
{
    if composantes.len() > 0 {
        let debut = composantes.drop_last();
        let c = &composantes.last();
        let avant1 = choose|p: Dictionnaire<Reel>|
            {
                &&& evaluation_menage(executeur, debut, parametres, menage, &p)
                &&& #[trigger] pas_evaluation(executeur, c, parametres, menage, &p, v1)
            };
        let avant2 = choose|p: Dictionnaire<Reel>|
            {
                &&& evaluation_menage(executeur, debut, parametres, menage, &p)
                &&& #[trigger] pas_evaluation(executeur, c, parametres, menage, &p, v2)
            };
        lemme_evaluation_deterministe(executeur, debut, parametres, menage, &avant1, &avant2);
        let r1 = choose|v: Reel|
            {
                &&& #[trigger] issue_possible(
                    executeur,
                    c,
                    parametres,
                    menage,
                    &avant1,
                    Ok::<Reel, String>(v),
                )
                &&& v1.wf()
                &&& v1@ == avant1@.insert(c.name@, v)
            };
        let r2 = choose|v: Reel|
            {
                &&& #[trigger] issue_possible(
                    executeur,
                    c,
                    parametres,
                    menage,
                    &avant2,
                    Ok::<Reel, String>(v),
                )
                &&& v2.wf()
                &&& v2@ == avant2@.insert(c.name@, v)
            };
        assert(r1 == r2);
    }
}

/// Two simulations of the same policy on the same households, with an executor that
/// answers as a function of what it is given, bind the same names to the same values
/// for every household.
pub proof fn lemme_simulation_deterministe<
    E: Fn(&Composante, &Dictionnaire<Reel>, &Dictionnaire<Reel>, &Dictionnaire<Caracteristique>)
        -> Result<Reel, String>,
>(
    executeur: &E,
    policy: &Policy,
    menages: Seq<Menage>,
    premiere: Seq<Dictionnaire<Reel>>,
    seconde: Seq<Dictionnaire<Reel>>,
)
    requires
        executeur_deterministe(executeur),
        est_simulation(executeur, policy, menages, premiere),
        est_simulation(executeur, policy, menages, seconde),
    ensures
        premiere.len() == seconde.len(),
        forall|i: int|
            0 <= i < premiere.len() ==> (#[trigger] premiere[i])@ == seconde[i]@
                && premiere[i].cles() == seconde[i].cles(),
{
    assert forall|i: int| 0 <= i < premiere.len() implies (#[trigger] premiere[i])@
        == seconde[i]@ && premiere[i].cles() == seconde[i].cles() by {
        lemme_evaluation_deterministe(
            executeur,
            policy.composantes_ordonnees@,
            &policy.parameters_values,
            &menages[i],
            &premiere[i],
            &seconde[i],
        );
    }
}

/// A household that went through the first `n` components went through the first `k`
/// of them before, and the executor then answered with a value for the next.
pub proof fn lemme_prefixe_evaluation<
    E: Fn(&Composante, &Dictionnaire<Reel>, &Dictionnaire<Reel>, &Dictionnaire<Caracteristique>)
        -> Result<Reel, String>,
>(
    executeur: &E,
    composantes: Seq<Composante>,
    parametres: &Dictionnaire<Reel>,
    menage: &Menage,
    k: int,
    n: int,
    variables: &Dictionnaire<Reel>,
) -> (avant: Dictionnaire<Reel>)
    requires
        0 <= k < n <= composantes.len(),
        evaluation_menage(executeur, composantes.subrange(0, n), parametres, menage, variables),
    ensures
        evaluation_menage(executeur, composantes.subrange(0, k), parametres, menage, &avant),
        valeur_possible(executeur, &composantes[k], parametres, menage, &avant),
    decreases n,
{
    let suite = composantes.subrange(0, n);
    assert(suite.drop_last() =~= composantes.subrange(0, n - 1));
    assert(suite.last() == composantes[n - 1]);
    let precedentes = choose|p: Dictionnaire<Reel>|
        {
            &&& evaluation_menage(executeur, suite.drop_last(), parametres, menage, &p)
            &&& #[trigger] pas_evaluation(
                executeur,
                &suite.last(),
                parametres,
                menage,
                &p,
                variables,
            )
        };
    if k == n - 1 {
        let v = choose|v: Reel|
            {
                &&& #[trigger] issue_possible(
                    executeur,
                    &suite.last(),
                    parametres,
                    menage,
                    &precedentes,
                    Ok::<Reel, String>(v),
                )
                &&& variables.wf()
                &&& variables@ == precedentes@.insert(suite.last().name@, v)
                &&& variables.cles() == noms_apres(precedentes.cles(), suite.last().name@)
            };
        assert(issue_possible(
            executeur,
            &composantes[k],
            parametres,
            menage,
            &precedentes,
            Ok::<Reel, String>(v),
        ));
        precedentes
    } else {
        lemme_prefixe_evaluation(executeur, composantes, parametres, menage, k, n - 1, &precedentes)
    }
}

/// Whether two errors report the failure of the same rule on the same household for
/// the same reason.
pub open spec fn meme_echec(a: KalkotoError, b: KalkotoError) -> bool {
    exists|composante: Seq<char>, menage: i32, cause: Seq<char>|
        #[trigger] est_erreur_evaluation(a, composante, menage, cause) && est_erreur_evaluation(
            b,
            composante,
            menage,
            cause,
        )
}

/// With an executor that answers as a function of what it is given, a simulation of a
/// policy on households cannot succeed once and fail another time.
pub proof fn lemme_reussite_ou_echec<
    E: Fn(&Composante, &Dictionnaire<Reel>, &Dictionnaire<Reel>, &Dictionnaire<Caracteristique>)
        -> Result<Reel, String>,
>(
    executeur: &E,
    policy: &Policy,
    menages: Seq<Menage>,
    resultats: Seq<Dictionnaire<Reel>>,
    e: KalkotoError,
)
    requires
        executeur_deterministe(executeur),
        est_simulation(executeur, policy, menages, resultats),
    ensures
        !est_echec_simulation(executeur, policy, menages, e),
{
    if est_echec_simulation(executeur, policy, menages, e) {
        let composantes = policy.composantes_ordonnees@;
        let parametres = &policy.parameters_values;
        let (k, variables) = choose|k: int, variables: Seq<Dictionnaire<Reel>>|
            {
                &&& 0 <= k < composantes.len()
                &&& variables.len() == menages.len()
                &&& forall|i: int|
                    0 <= i < menages.len() ==> evaluation_menage(
                        executeur,
                        composantes.subrange(0, k),
                        parametres,
                        &menages[i],
                        #[trigger] &variables[i],
                    )
                &&& #[trigger] est_echec_composante(
                    executeur,
                    &composantes[k],
                    parametres,
                    menages,
                    variables,
                    e,
                )
            };
        let (i, cause) = choose|i: int, cause: String|
            {
                &&& 0 <= i < menages.len()
                &&& forall|j: int|
                    0 <= j < i ==> valeur_possible(
                        executeur,
                        &composantes[k],
                        parametres,
                        &menages[j],
                        #[trigger] &variables[j],
                    )
                &&& #[trigger] issue_possible(
                    executeur,
                    &composantes[k],
                    parametres,
                    &menages[i],
                    &variables[i],
                    Err::<Reel, String>(cause),
                )
                &&& est_erreur_evaluation(e, composantes[k].name@, menages[i].index, cause@)
            };
        assert(composantes.subrange(0, composantes.len() as int) =~= composantes);
        assert(evaluation_menage(executeur, composantes, parametres, &menages[i], &resultats[i]));
        assert(evaluation_menage(
            executeur,
            composantes.subrange(0, k),
            parametres,
            &menages[i],
            &variables[i],
        ));
        lemme_echec_avant(
            executeur,
            composantes,
            parametres,
            &menages[i],
            k,
            &variables[i],
            cause,
            composantes.len() as int,
            &resultats[i],
        );
    }
}

/// A household that went through more components than `k` did not fail on the
/// component `k`.
proof fn lemme_echec_avant<
    E: Fn(&Composante, &Dictionnaire<Reel>, &Dictionnaire<Reel>, &Dictionnaire<Caracteristique>)
        -> Result<Reel, String>,
>(
    executeur: &E,
    composantes: Seq<Composante>,
    parametres: &Dictionnaire<Reel>,
    menage: &Menage,
    k: int,
    echouees: &Dictionnaire<Reel>,
    cause: String,
    n: int,
    suivantes: &Dictionnaire<Reel>,
)
    requires
        executeur_deterministe(executeur),
        0 <= k < n <= composantes.len(),
        evaluation_menage(executeur, composantes.subrange(0, k), parametres, menage, echouees),
        evaluation_menage(executeur, composantes.subrange(0, n), parametres, menage, suivantes),
    ensures
        !issue_possible(
            executeur,
            &composantes[k],
            parametres,
            menage,
            echouees,
            Err::<Reel, String>(cause),
        ),
{
    let avant = lemme_prefixe_evaluation(
        executeur,
        composantes,
        parametres,
        menage,
        k,
        n,
        suivantes,
    );
    lemme_evaluation_deterministe(
        executeur,
        composantes.subrange(0, k),
        parametres,
        menage,
        &avant,
        echouees,
    );
    let v = choose|v: Reel|
        #[trigger] issue_possible(
            executeur,
            &composantes[k],
            parametres,
            menage,
            &avant,
            Ok::<Reel, String>(v),
        );
    if issue_possible(
        executeur,
        &composantes[k],
        parametres,
        menage,
        echouees,
        Err::<Reel, String>(cause),
    ) {
        assert(meme_issue(Ok::<Reel, String>(v), Err::<Reel, String>(cause)));
    }
}

/// With an executor that answers as a function of what it is given, two failed
/// simulations of a policy on households report the same failure: that of the same
/// rule on the same household, for the same reason.
pub proof fn lemme_echec_deterministe<
    E: Fn(&Composante, &Dictionnaire<Reel>, &Dictionnaire<Reel>, &Dictionnaire<Caracteristique>)
        -> Result<Reel, String>,
>(executeur: &E, policy: &Policy, menages: Seq<Menage>, premier: KalkotoError, second: KalkotoError)
    requires
        executeur_deterministe(executeur),
        est_echec_simulation(executeur, policy, menages, premier),
        est_echec_simulation(executeur, policy, menages, second),
    ensures
        meme_echec(premier, second),
{
    let composantes = policy.composantes_ordonnees@;
    let parametres = &policy.parameters_values;
    let (k1, variables1) = choose|k: int, variables: Seq<Dictionnaire<Reel>>|
        {
            &&& 0 <= k < composantes.len()
            &&& variables.len() == menages.len()
            &&& forall|i: int|
                0 <= i < menages.len() ==> evaluation_menage(
                    executeur,
                    composantes.subrange(0, k),
                    parametres,
                    &menages[i],
                    #[trigger] &variables[i],
                )
            &&& #[trigger] est_echec_composante(
                executeur,
                &composantes[k],
                parametres,
                menages,
                variables,
                premier,
            )
        };
    let (k2, variables2) = choose|k: int, variables: Seq<Dictionnaire<Reel>>|
        {
            &&& 0 <= k < composantes.len()
            &&& variables.len() == menages.len()
            &&& forall|i: int|
                0 <= i < menages.len() ==> evaluation_menage(
                    executeur,
                    composantes.subrange(0, k),
                    parametres,
                    &menages[i],
                    #[trigger] &variables[i],
                )
            &&& #[trigger] est_echec_composante(
                executeur,
                &composantes[k],
                parametres,
                menages,
                variables,
                second,
            )
        };
    let (i1, cause1) = choose|i: int, cause: String|
        {
            &&& 0 <= i < menages.len()
            &&& forall|j: int|
                0 <= j < i ==> valeur_possible(
                    executeur,
                    &composantes[k1],
                    parametres,
                    &menages[j],
                    #[trigger] &variables1[j],
                )
            &&& #[trigger] issue_possible(
                executeur,
                &composantes[k1],
                parametres,
                &menages[i],
                &variables1[i],
                Err::<Reel, String>(cause),
            )
            &&& est_erreur_evaluation(premier, composantes[k1].name@, menages[i].index, cause@)
        };
    let (i2, cause2) = choose|i: int, cause: String|
        {
            &&& 0 <= i < menages.len()
            &&& forall|j: int|
                0 <= j < i ==> valeur_possible(
                    executeur,
                    &composantes[k2],
                    parametres,
                    &menages[j],
                    #[trigger] &variables2[j],
                )
            &&& #[trigger] issue_possible(
                executeur,
                &composantes[k2],
                parametres,
                &menages[i],
                &variables2[i],
                Err::<Reel, String>(cause),
            )
            &&& est_erreur_evaluation(second, composantes[k2].name@, menages[i].index, cause@)
        };
    assert(evaluation_menage(
        executeur,
        composantes.subrange(0, k1),
        parametres,
        &menages[i1],
        &variables1[i1],
    ));
    assert(evaluation_menage(
        executeur,
        composantes.subrange(0, k2),
        parametres,
        &menages[i2],
        &variables2[i2],
    ));
    if k1 < k2 {
        assert(evaluation_menage(
            executeur,
            composantes.subrange(0, k2),
            parametres,
            &menages[i1],
            &variables2[i1],
        ));
        lemme_echec_avant(
            executeur,
            composantes,
            parametres,
            &menages[i1],
            k1,
            &variables1[i1],
            cause1,
            k2,
            &variables2[i1],
        );
    } else if k2 < k1 {
        assert(evaluation_menage(
            executeur,
            composantes.subrange(0, k1),
            parametres,
            &menages[i2],
            &variables1[i2],
        ));
        lemme_echec_avant(
            executeur,
            composantes,
            parametres,
            &menages[i2],
            k2,
            &variables2[i2],
            cause2,
            k1,
            &variables1[i2],
        );
    } else {
        let c = &composantes[k1];
        if i1 < i2 {
            assert(valeur_possible(executeur, c, parametres, &menages[i1], &variables2[i1]));
            let v = choose|v: Reel|
                #[trigger] issue_possible(
                    executeur,
                    c,
                    parametres,
                    &menages[i1],
                    &variables2[i1],
                    Ok::<Reel, String>(v),
                );
            assert(evaluation_menage(
                executeur,
                composantes.subrange(0, k1),
                parametres,
                &menages[i1],
                &variables2[i1],
            ));
            lemme_evaluation_deterministe(
                executeur,
                composantes.subrange(0, k1),
                parametres,
                &menages[i1],
                &variables1[i1],
                &variables2[i1],
            );
            assert(meme_issue(Err::<Reel, String>(cause1), Ok::<Reel, String>(v)));
        } else if i2 < i1 {
            assert(valeur_possible(executeur, c, parametres, &menages[i2], &variables1[i2]));
            let v = choose|v: Reel|
                #[trigger] issue_possible(
                    executeur,
                    c,
                    parametres,
                    &menages[i2],
                    &variables1[i2],
                    Ok::<Reel, String>(v),
                );
            assert(evaluation_menage(
                executeur,
                composantes.subrange(0, k1),
                parametres,
                &menages[i2],
                &variables1[i2],
            ));
            lemme_evaluation_deterministe(
                executeur,
                composantes.subrange(0, k1),
                parametres,
                &menages[i2],
                &variables1[i2],
                &variables2[i2],
            );
            assert(meme_issue(Ok::<Reel, String>(v), Err::<Reel, String>(cause2)));
        } else {
            lemme_evaluation_deterministe(
                executeur,
                composantes.subrange(0, k1),
                parametres,
                &menages[i1],
                &variables1[i1],
                &variables2[i1],
            );
            assert(meme_issue(Err::<Reel, String>(cause1), Err::<Reel, String>(cause2)));
            assert(est_erreur_evaluation(premier, c.name@, menages[i1].index, cause1@));
            assert(est_erreur_evaluation(second, c.name@, menages[i1].index, cause1@));
        }
    }
}

} // verus!
