//! Results laid out by columns, ready for a columnar file.
//!
//! The households give one column for each characteristic of the first household,
//! the results one column for each component; both come in ascending order of their
//! names. The two tables are then put side by side.

use crate::adapters::colonnes::champs_vus;
use crate::adapters::colonnes::colonnes_vues;
use crate::adapters::colonnes::textes_vus;
use crate::adapters::colonnes::Champ;
use crate::adapters::colonnes::ChampVue;
use crate::adapters::colonnes::Colonne;
use crate::adapters::colonnes::ColonneVue;
use crate::adapters::colonnes::Lot;
use crate::adapters::colonnes::LotVue;
use crate::adapters::colonnes::TypeColonne;
use crate::adapters::output_adapters::OutputAdapterError;
use crate::dictionnaire::Dictionnaire;
use crate::entities::menage::Caracteristique;
use crate::entities::menage::Menage;
use crate::entities::menage_input::chaine_compatible;
use crate::entities::menage_input::lemme_chaine_compatible;
use crate::entities::menage_input::menages_wf;
use crate::entities::menage_input::voisins_compatibles;
use crate::entities::policy::tables_wf;
use crate::entities::simulator::SimulatorBuilder;
use crate::entities::simulator::ValidBaselineInput;
use crate::entities::simulator::ValidMenageInput;
use crate::entities::simulator::ValidVarianteInput;
use crate::errors::KalkotoError;
use crate::reel::Reel;
use crate::texte::accoler;
use crate::texte::noms_tries;
use crate::texte::vues;
use crate::KalkotoResult;
use vstd::prelude::*;
use vstd::string::StringExecFns;

verus! {

/// Exports results to columnar files whose names may start with a prefix.
#[derive(Debug, Default)]
pub struct ArrowOutputAdapter {
    output_prefix: Option<String>,
}

/// Closes `AllowedValue` to the types of this module.
pub trait Sealed {

}

impl Sealed for Reel {

}

impl Sealed for Option<Reel> {

}

/// What a table of results may hold: a number, or a number that may be absent.
pub trait AllowedValue: Sealed + Copy {
    /// The value as a number that may be absent.
    spec fn option(&self) -> Option<Reel>;

    /// The value that stands where none was found.
    spec fn defaut_spec() -> Self;

    /// The value as a number that may be absent.
    fn en_option(&self) -> (r: Option<Reel>)
        ensures
            r == self.option(),
    ;

    /// The value that stands where none was found.
    fn defaut() -> (r: Self)
        ensures
            r == Self::defaut_spec(),
    ;
}

impl AllowedValue for Reel {
    open spec fn option(&self) -> Option<Reel> {
        Some(*self)
    }

    /// Zero.
    open spec fn defaut_spec() -> Reel {
        Reel { bits: 0 }
    }

    fn en_option(&self) -> (r: Option<Reel>) {
        Some(*self)
    }

    fn defaut() -> (r: Reel) {
        Reel { bits: 0 }
    }
}

impl AllowedValue for Option<Reel> {
    open spec fn option(&self) -> Option<Reel> {
        *self
    }

    /// Absent.
    open spec fn defaut_spec() -> Option<Reel> {
        None
    }

    fn en_option(&self) -> (r: Option<Reel>) {
        *self
    }

    fn defaut() -> (r: Option<Reel>) {
        None
    }
}

/// The name of an output file: the prefix and a hyphen, if there is a prefix, then the
/// base name.
pub open spec fn chemin_de(prefixe: Option<Seq<char>>, base: Seq<char>) -> Seq<char> {
    match prefixe {
        Some(p) => p + "-"@ + base,
        None => base,
    }
}

/// The name of an output file: the prefix and a hyphen, if there is a prefix, then the
/// base name.
pub fn chemin_sortie(prefixe: &Option<String>, base: &str) -> (r: String)
    ensures
        r@ == chemin_de(
            match prefixe {
                Some(p) => Some(p@),
                None => None,
            },
            base@,
        ),
{
    match prefixe {
        Some(p) => {
            let mut r = accoler(p.as_str(), "-");
            r.append(base);
            r
        },
        None => String::from_str(base),
    }
}

/// Whether `e` reports, with the text `cause`, that results do not lend themselves to
/// export.
pub open spec fn est_erreur_export(e: KalkotoError, cause: Seq<char>) -> bool {
    e matches KalkotoError::ExportError(OutputAdapterError::Custom(texte)) && texte@ == cause
}

fn erreur_export(cause: &str) -> (e: KalkotoError)
    ensures
        est_erreur_export(e, cause@),
{
    KalkotoError::ExportError(OutputAdapterError::Custom(String::from_str(cause)))
}

impl ArrowOutputAdapter {
    /// The prefix of the output files, if any.
    pub closed spec fn prefixe(&self) -> Option<Seq<char>> {
        match self.output_prefix {
            Some(p) => Some(p@),
            None => None,
        }
    }

    /// An adapter without prefix.
    pub fn new() -> (r: Self)
        ensures
            r.prefixe() is None,
    {
        ArrowOutputAdapter { output_prefix: None }
    }

    /// An adapter with the prefix `prefix`. The adapter it is called on is left as it
    /// was.
    pub fn add_output_prefix(&mut self, prefix: String) -> (r: Self)
        ensures
            r.prefixe() == Some(prefix@),
            *final(self) == *old(self),
    {
        ArrowOutputAdapter { output_prefix: Some(prefix) }
    }

    /// The name of the file of baseline results.
    pub fn chemin_baseline(&self) -> (r: String)
        ensures
            r@ == chemin_de(self.prefixe(), "baseline-results.arrow"@),
    {
        chemin_sortie(&self.output_prefix, "baseline-results.arrow")
    }

    /// The name of the file of variant results.
    pub fn chemin_variante(&self) -> (r: String)
        ensures
            r@ == chemin_de(self.prefixe(), "variante-results.arrow"@),
    {
        chemin_sortie(&self.output_prefix, "variante-results.arrow")
    }

    /// The name of the file of differences.
    pub fn chemin_diff(&self) -> (r: String)
        ensures
            r@ == chemin_de(self.prefixe(), "diff-results.arrow"@),
    {
        chemin_sortie(&self.output_prefix, "diff-results.arrow")
    }
}

/// The column type that holds values of the kind of `c`.
pub open spec fn type_de(c: Caracteristique) -> TypeColonne {
    match c {
        Caracteristique::Entier(_) => TypeColonne::Int32,
        Caracteristique::Numeric(_) => TypeColonne::Float64,
        Caracteristique::Textuel(_) => TypeColonne::Utf8,
    }
}

/// The field of a characteristic: its name, the column type of its kind, cells that
/// may be absent.
pub fn create_field_from_caracteristique(
    nom_caracteristique: &str,
    caracteristique: &Caracteristique,
) -> (r: Champ)
    ensures
        r@ == (ChampVue {
            nom: nom_caracteristique@,
            type_colonne: type_de(*caracteristique),
            nullable: true,
        }),
{
    let type_colonne = match caracteristique {
        Caracteristique::Entier(_) => TypeColonne::Int32,
        Caracteristique::Numeric(_) => TypeColonne::Float64,
        Caracteristique::Textuel(_) => TypeColonne::Utf8,
    };
    Champ { nom: String::from_str(nom_caracteristique), type_colonne, nullable: true }
}

/// What the households bind `nom` to, household after household.
pub open spec fn valeurs_colonne(nom: Seq<char>, menages: Seq<Menage>) -> Seq<Caracteristique> {
    Seq::new(menages.len(), |i: int| menages[i].caracteristiques@[nom])
}

/// Whether every household binds `nom`.
pub open spec fn partout_present(nom: Seq<char>, menages: Seq<Menage>) -> bool {
    forall|i: int|
        0 <= i < menages.len() ==> (#[trigger] menages[i]).caracteristiques@.contains_key(nom)
}

/// The values of the characteristic `nom_caracteristique`, household after household.
/// Fails if a household lacks it.
pub fn create_vec_values(nom_caracteristique: &str, menage_list: &[Menage]) -> (r: KalkotoResult<
    Vec<Caracteristique>,
>)
    requires
        menages_wf(menage_list@),
    ensures
        r is Ok <==> partout_present(nom_caracteristique@, menage_list@),
        r matches Ok(valeurs) ==> valeurs@ == valeurs_colonne(
            nom_caracteristique@,
            menage_list@,
        ),
        r matches Err(e) ==> est_erreur_export(e, "La caractéristique n'est pas présente"@),
{
    let mut valeurs: Vec<Caracteristique> = Vec::new();
    let mut i: usize = 0;
    while i < menage_list.len()
        invariant
            i <= menage_list@.len(),
            menages_wf(menage_list@),
            valeurs@.len() == i,
            forall|j: int|
                0 <= j < i ==> (#[trigger] menage_list@[j]).caracteristiques@.contains_key(
                    nom_caracteristique@,
                ),
            forall|j: int|
                0 <= j < i ==> #[trigger] valeurs@[j] == menage_list@[j].caracteristiques@[nom_caracteristique@],
        decreases menage_list@.len() - i,
    {
        match menage_list[i].caracteristiques.get(nom_caracteristique) {
            Some(caracteristique) => {
                valeurs.push(caracteristique.clone());
            },
            None => {
                return Err(erreur_export("La caractéristique n'est pas présente"));
            },
        }
        i += 1;
    }
    proof {
        assert(valeurs@ =~= valeurs_colonne(nom_caracteristique@, menage_list@));
    }
    Ok(valeurs)
}

/// Checks that each household is compatible with its successor. An empty list passes.
pub fn validate_menage_list(menage_list: &[Menage]) -> (r: KalkotoResult<bool>)
    requires
        menages_wf(menage_list@),
    ensures
        r is Ok <==> chaine_compatible(menage_list@),
        r matches Ok(b) ==> b,
        r matches Err(e) ==> est_erreur_export(e, "Ménages aux caractéristiques incompatibles"@),
{
    if menage_list.len() == 0 {
        return Ok(true);
    }
    let mut i: usize = 0;
    while i < menage_list.len() - 1
        invariant
            menage_list@.len() > 0,
            i <= menage_list@.len() - 1,
            menages_wf(menage_list@),
            forall|j: int| 0 <= j < i ==> #[trigger] voisins_compatibles(menage_list@, j),
        decreases menage_list@.len() - i,
    {
        let resultat = menage_list[i].compare_type_carac(&menage_list[i + 1]);
        if !resultat.0 {
            proof {
                assert(!voisins_compatibles(menage_list@, i as int));
            }
            return Err(erreur_export("Ménages aux caractéristiques incompatibles"));
        }
        i += 1;
    }
    Ok(true)
}

/// The fields that a household gives: one for each of its characteristics, in
/// ascending order of their names.
pub open spec fn schema_menage(modele: Menage) -> Seq<ChampVue> {
    let noms = noms_tries(modele.caracteristiques.cles());
    Seq::new(
        noms.len(),
        |k: int|
            ChampVue {
                nom: noms[k],
                type_colonne: type_de(modele.caracteristiques@[noms[k]]),
                nullable: true,
            },
    )
}

proof fn lemme_noms_tries_memes(cles: Seq<Seq<char>>, nom: Seq<char>)
    ensures
        noms_tries(cles).contains(nom) <==> cles.contains(nom),
        noms_tries(cles).len() == cles.len(),
{
    crate::texte::lemme_ordre_noms_total();
    cles.lemma_sort_by_ensures(crate::texte::ordre_noms());
    let tries = noms_tries(cles);
    tries.to_multiset_ensures();
    cles.to_multiset_ensures();
    assert(tries.to_multiset().count(nom) == cles.to_multiset().count(nom));
}

proof fn lemme_noms_tries_presents(cles: Seq<Seq<char>>, k: int)
    requires
        0 <= k < noms_tries(cles).len(),
    ensures
        cles.contains(noms_tries(cles)[k]),
        noms_tries(cles).len() == cles.len(),
{
    let tries = noms_tries(cles);
    assert(tries.contains(tries[k]));
    lemme_noms_tries_memes(cles, tries[k]);
}

/// The fields of the table of households, read off the household `menage_blueprint`.
pub fn extract_schema_from_menage(menage_blueprint: &Menage) -> (r: KalkotoResult<Vec<Champ>>)
    requires
        menage_blueprint.wf(),
    ensures
        r matches Ok(champs) && champs_vus(champs@) == schema_menage(*menage_blueprint),
{
    let noms = menage_blueprint.caracteristiques.cles_triees();
    let ghost tries = noms_tries(menage_blueprint.caracteristiques.cles());
    let mut champs: Vec<Champ> = Vec::new();
    let mut k: usize = 0;
    while k < noms.len()
        invariant
            k <= noms@.len(),
            menage_blueprint.wf(),
            vues(noms@) == tries,
            tries == noms_tries(menage_blueprint.caracteristiques.cles()),
            champs@.len() == k,
            forall|j: int|
                0 <= j < k ==> (#[trigger] champs@[j])@ == schema_menage(*menage_blueprint)[j],
        decreases noms@.len() - k,
    {
        proof {
            assert(noms@[k as int]@ == tries[k as int]);
            lemme_noms_tries_presents(menage_blueprint.caracteristiques.cles(), k as int);
            menage_blueprint.caracteristiques.lemma_vue();
        }
        match menage_blueprint.caracteristiques.get(noms[k].as_str()) {
            Some(caracteristique) => {
                champs.push(create_field_from_caracteristique(noms[k].as_str(), caracteristique));
            },
            None => {
                assert(false);
            },
        }
        k += 1;
    }
    proof {
        assert(champs_vus(champs@) =~= schema_menage(*menage_blueprint));
    }
    Ok(champs)
}

/// The column that holds `valeurs`, of the column type of the first of them.
pub open spec fn colonne_de(valeurs: Seq<Caracteristique>) -> ColonneVue {
    match valeurs[0] {
        Caracteristique::Entier(_) => ColonneVue::Int32(
            Seq::new(valeurs.len(), |i: int| Some(valeurs[i]->Entier_0)),
        ),
        Caracteristique::Numeric(_) => ColonneVue::Float64(
            Seq::new(valeurs.len(), |i: int| Some(valeurs[i]->Numeric_0)),
        ),
        Caracteristique::Textuel(_) => ColonneVue::Utf8(
            Seq::new(valeurs.len(), |i: int| Some(valeurs[i]->Textuel_0@)),
        ),
    }
}

/// Whether all values are of the kind of the first.
pub open spec fn valeurs_homogenes(valeurs: Seq<Caracteristique>) -> bool {
    forall|i: int| 0 <= i < valeurs.len() ==> valeurs[0].meme_type(#[trigger] valeurs[i])
}

/// Lays out values of one kind as a column.
fn colonne_typee(valeurs: Vec<Caracteristique>) -> (r: Colonne)
    requires
        valeurs@.len() > 0,
        valeurs_homogenes(valeurs@),
    ensures
        r@ == colonne_de(valeurs@),
{
    let n = valeurs.len();
    match &valeurs[0] {
        Caracteristique::Entier(_) => {
            let mut cellules: Vec<Option<i32>> = Vec::new();
            let mut i: usize = 0;
            while i < n
                invariant
                    i <= n,
                    n == valeurs@.len(),
                    valeurs@[0] is Entier,
                    valeurs_homogenes(valeurs@),
                    cellules@.len() == i,
                    forall|j: int| 0 <= j < i ==> #[trigger] cellules@[j] == Some(valeurs@[j]->Entier_0),
                decreases n - i,
            {
                match &valeurs[i] {
                    Caracteristique::Entier(x) => {
                        cellules.push(Some(*x));
                    },
                    _ => {
                        assert(valeurs@[0].meme_type(valeurs@[i as int]));
                        assert(false);
                    },
                }
                i += 1;
            }
            proof {
                assert(cellules@ =~= Seq::new(
                    valeurs@.len(),
                    |i: int| Some(valeurs@[i]->Entier_0),
                ));
            }
            Colonne::Int32(cellules)
        },
        Caracteristique::Numeric(_) => {
            let mut cellules: Vec<Option<Reel>> = Vec::new();
            let mut i: usize = 0;
            while i < n
                invariant
                    i <= n,
                    n == valeurs@.len(),
                    valeurs@[0] is Numeric,
                    valeurs_homogenes(valeurs@),
                    cellules@.len() == i,
                    forall|j: int| 0 <= j < i ==> #[trigger] cellules@[j] == Some(valeurs@[j]->Numeric_0),
                decreases n - i,
            {
                match &valeurs[i] {
                    Caracteristique::Numeric(x) => {
                        cellules.push(Some(*x));
                    },
                    _ => {
                        assert(valeurs@[0].meme_type(valeurs@[i as int]));
                        assert(false);
                    },
                }
                i += 1;
            }
            proof {
                assert(cellules@ =~= Seq::new(
                    valeurs@.len(),
                    |i: int| Some(valeurs@[i]->Numeric_0),
                ));
            }
            Colonne::Float64(cellules)
        },
        Caracteristique::Textuel(_) => {
            let mut cellules: Vec<Option<String>> = Vec::new();
            let mut i: usize = 0;
            while i < n
                invariant
                    i <= n,
                    n == valeurs@.len(),
                    valeurs@[0] is Textuel,
                    valeurs_homogenes(valeurs@),
                    cellules@.len() == i,
                    forall|j: int|
                        0 <= j < i ==> (#[trigger] cellules@[j] matches Some(s) && s@
                            == valeurs@[j]->Textuel_0@),
                decreases n - i,
            {
                match &valeurs[i] {
                    Caracteristique::Textuel(x) => {
                        cellules.push(Some(x.clone()));
                    },
                    _ => {
                        assert(valeurs@[0].meme_type(valeurs@[i as int]));
                        assert(false);
                    },
                }
                i += 1;
            }
            proof {
                assert(textes_vus(cellules@) =~= Seq::new(
                    valeurs@.len(),
                    |i: int| Some(valeurs@[i]->Textuel_0@),
                ));
            }
            Colonne::Utf8(cellules)
        },
    }
}

/// The columns that households give for the characteristics of `modele`, in ascending
/// order of their names.
pub open spec fn colonnes_menages(modele: Menage, menages: Seq<Menage>) -> Seq<ColonneVue> {
    let noms = noms_tries(modele.caracteristiques.cles());
    Seq::new(noms.len(), |k: int| colonne_de(valeurs_colonne(noms[k], menages)))
}

/// Whether every household binds every characteristic of `modele`.
pub open spec fn modele_partout_present(modele: Menage, menages: Seq<Menage>) -> bool {
    forall|nom: Seq<char>| #[trigger]
        modele.caracteristiques@.contains_key(nom) ==> partout_present(nom, menages)
}

/// Whether, for each characteristic of `modele`, the households that bind it bind it
/// to values of the kind that the first household gives it.
pub open spec fn colonnes_homogenes(modele: Menage, menages: Seq<Menage>) -> bool {
    forall|nom: Seq<char>, i: int|
        #![trigger menages[i], modele.caracteristiques@.contains_key(nom)]
        modele.caracteristiques@.contains_key(nom) && 0 <= i < menages.len()
            && menages[0].caracteristiques@.contains_key(nom)
            && menages[i].caracteristiques@.contains_key(nom)
            ==> menages[0].caracteristiques@[nom].meme_type(menages[i].caracteristiques@[nom])
}

/// The columns of the table of households: one for each characteristic of
/// `menage_blueprint`, in ascending order of their names.
///
/// Fails if a household lacks one of these characteristics, and, when there is a
/// characteristic but no household, because the columns would be empty.
pub fn extract_values_from_menage_list(menage_blueprint: &Menage, menage_list: &[Menage]) -> (r:
    KalkotoResult<Vec<Colonne>>)
    requires
        menage_blueprint.wf(),
        menages_wf(menage_list@),
        colonnes_homogenes(*menage_blueprint, menage_list@),
    ensures
        r is Ok <==> modele_partout_present(*menage_blueprint, menage_list@) && (
        menage_list@.len() > 0 || menage_blueprint.caracteristiques.cles().len() == 0),
        r matches Ok(colonnes) ==> colonnes_vues(colonnes@) == colonnes_menages(
            *menage_blueprint,
            menage_list@,
        ),
        r matches Err(e) ==> if modele_partout_present(*menage_blueprint, menage_list@) {
            est_erreur_export(e, "Première colonne vide !"@)
        } else {
            est_erreur_export(e, "La caractéristique n'est pas présente"@)
        },
{
    let noms = menage_blueprint.caracteristiques.cles_triees();
    let ghost tries = noms_tries(menage_blueprint.caracteristiques.cles());
    let mut valeurs: Vec<Vec<Caracteristique>> = Vec::new();
    let mut k: usize = 0;
    while k < noms.len()
        invariant
            k <= noms@.len(),
            menage_blueprint.wf(),
            menages_wf(menage_list@),
            vues(noms@) == tries,
            tries == noms_tries(menage_blueprint.caracteristiques.cles()),
            valeurs@.len() == k,
            forall|j: int| 0 <= j < k ==> partout_present(#[trigger] tries[j], menage_list@),
            forall|j: int|
                0 <= j < k ==> (#[trigger] valeurs@[j])@ == valeurs_colonne(tries[j], menage_list@),
        decreases noms@.len() - k,
    {
        proof {
            assert(noms@[k as int]@ == tries[k as int]);
        }
        match create_vec_values(noms[k].as_str(), menage_list) {
            Ok(colonne) => {
                valeurs.push(colonne);
            },
            Err(e) => {
                proof {
                    lemme_noms_tries_presents(menage_blueprint.caracteristiques.cles(), k as int);
                    menage_blueprint.caracteristiques.lemma_vue();
                    assert(menage_blueprint.caracteristiques@.contains_key(tries[k as int]));
                }
                return Err(e);
            },
        }
        k += 1;
    }
    proof {
        menage_blueprint.caracteristiques.lemma_vue();
        assert forall|nom: Seq<char>| #[trigger]
            menage_blueprint.caracteristiques@.contains_key(nom) implies partout_present(
            nom,
            menage_list@,
        ) by {
            lemme_noms_tries_memes(menage_blueprint.caracteristiques.cles(), nom);
            assert(tries.contains(nom));
            let j = tries.index_of(nom);
            assert(tries[j] == nom);
        }
    }
    let mut colonnes: Vec<Colonne> = Vec::new();
    let mut k: usize = 0;
    while k < noms.len()
        invariant
            k <= noms@.len(),
            noms@.len() == valeurs@.len(),
            menage_blueprint.wf(),
            colonnes_homogenes(*menage_blueprint, menage_list@),
            modele_partout_present(*menage_blueprint, menage_list@),
            vues(noms@) == tries,
            tries == noms_tries(menage_blueprint.caracteristiques.cles()),
            forall|j: int| 0 <= j < noms@.len() ==> partout_present(#[trigger] tries[j], menage_list@),
            forall|j: int|
                k <= j < valeurs@.len() ==> (#[trigger] valeurs@[j])@ == valeurs_colonne(
                    tries[j],
                    menage_list@,
                ),
            colonnes@.len() == k,
            k > 0 ==> menage_list@.len() > 0,
            forall|j: int|
                0 <= j < k ==> (#[trigger] colonnes@[j])@ == colonne_de(
                    valeurs_colonne(tries[j], menage_list@),
                ),
        decreases noms@.len() - k,
    {
        if valeurs[k].len() == 0 {
            proof {
                assert(valeurs@[k as int]@.len() == menage_list@.len());
                assert(tries.len() == noms@.len());
                lemme_noms_tries_presents(menage_blueprint.caracteristiques.cles(), k as int);
            }
            return Err(erreur_export("Première colonne vide !"));
        }
        let mut colonne: Vec<Caracteristique> = Vec::new();
        core::mem::swap(&mut colonne, &mut valeurs[k]);
        proof {
            let nom = tries[k as int];
            lemme_noms_tries_presents(menage_blueprint.caracteristiques.cles(), k as int);
            menage_blueprint.caracteristiques.lemma_vue();
            assert(menage_blueprint.caracteristiques@.contains_key(nom));
            assert(partout_present(nom, menage_list@));
            assert forall|i: int| 0 <= i < colonne@.len() implies colonne@[0].meme_type(
                #[trigger] colonne@[i],
            ) by {
                assert(menage_list@[0].caracteristiques@.contains_key(nom));
                assert(menage_list@[i].caracteristiques@.contains_key(nom));
            }
        }
        colonnes.push(colonne_typee(colonne));
        k += 1;
    }
    proof {
        assert(tries.len() == noms@.len());
        assert(colonnes_vues(colonnes@) =~= colonnes_menages(*menage_blueprint, menage_list@));
        if noms@.len() > 0 {
            assert(menage_list@.len() > 0);
        }
        lemme_noms_tries_memes(menage_blueprint.caracteristiques.cles(), Seq::empty());
    }
    Ok(colonnes)
}

/// The table of households: one row for each household, one column for each
/// characteristic of the first household, in ascending order of their names.
pub open spec fn lot_menages(menages: Seq<Menage>) -> LotVue {
    LotVue {
        champs: schema_menage(menages[0]),
        colonnes: colonnes_menages(menages[0], menages),
        nb_lignes: menages.len(),
    }
}

/// Lays out a list of households as a table. Fails on households that are not each
/// compatible with its successor, and on an empty list.
pub fn create_record_batch_from_menage_list(menage_list: &[Menage]) -> (r: KalkotoResult<Lot>)
    requires
        menages_wf(menage_list@),
    ensures
        r is Ok <==> menage_list@.len() > 0 && chaine_compatible(menage_list@),
        r matches Ok(lot) ==> lot@ == lot_menages(menage_list@) && lot@.coherent(),
        r matches Err(e) ==> if chaine_compatible(menage_list@) {
            est_erreur_export(e, "Aucun ménage dans le fichier d'input"@)
        } else {
            est_erreur_export(e, "Ménages aux caractéristiques incompatibles"@)
        },
{
    match validate_menage_list(menage_list) {
        Err(e) => {
            return Err(e);
        },
        Ok(_) => {},
    }
    if menage_list.len() == 0 {
        return Err(erreur_export("Aucun ménage dans le fichier d'input"));
    }
    let first_valid_menage = &menage_list[0];
    proof {
        let modele = menage_list@[0];
        assert forall|nom: Seq<char>| #[trigger]
            modele.caracteristiques@.contains_key(nom) implies partout_present(
            nom,
            menage_list@,
        ) by {
            assert forall|i: int| 0 <= i < menage_list@.len() implies (
            #[trigger] menage_list@[i]).caracteristiques@.contains_key(nom) by {
                lemme_chaine_compatible(menage_list@, 0, i);
                assert(!modele.en_defaut(&menage_list@[i], nom));
            }
        }
        assert forall|nom: Seq<char>, i: int|
            #![trigger menage_list@[i], modele.caracteristiques@.contains_key(nom)]
            modele.caracteristiques@.contains_key(nom) && 0 <= i < menage_list@.len()
                && menage_list@[0].caracteristiques@.contains_key(nom)
                && menage_list@[i].caracteristiques@.contains_key(
                nom,
            ) implies menage_list@[0].caracteristiques@[nom].meme_type(
            menage_list@[i].caracteristiques@[nom],
        ) by {
            lemme_chaine_compatible(menage_list@, 0, i);
            assert(!modele.en_defaut(&menage_list@[i], nom));
        }
    }
    let champs = match extract_schema_from_menage(first_valid_menage) {
        Ok(champs) => champs,
        Err(e) => {
            return Err(e);
        },
    };
    let colonnes = match extract_values_from_menage_list(first_valid_menage, menage_list) {
        Ok(colonnes) => colonnes,
        Err(e) => {
            return Err(e);
        },
    };
    let lot = Lot { champs, colonnes, nb_lignes: menage_list.len() };
    proof {
        let modele = menage_list@[0];
        let noms = noms_tries(modele.caracteristiques.cles());
        assert forall|k: int| 0 <= k < lot@.colonnes.len() implies (
        #[trigger] lot@.colonnes[k]).longueur() == lot@.nb_lignes && lot@.colonnes[k].type_colonne()
            == Some(lot@.champs[k].type_colonne) by {
            lemme_noms_tries_presents(modele.caracteristiques.cles(), k);
            modele.caracteristiques.lemma_vue();
            assert(modele.caracteristiques@.contains_key(noms[k]));
            assert(partout_present(noms[k], menage_list@));
            assert(menage_list@[0].caracteristiques@.contains_key(noms[k]));
        }
    }
    Ok(lot)
}

/// The fields of a table of results whose first row binds the names `cles`: one
/// field of numbers for each name, in ascending order of the names.
pub open spec fn schema_resultats(cles: Seq<Seq<char>>) -> Seq<ChampVue> {
    let noms = noms_tries(cles);
    Seq::new(
        noms.len(),
        |k: int| ChampVue { nom: noms[k], type_colonne: TypeColonne::Float64, nullable: true },
    )
}

/// The fields of a table of results, read off the results of one household.
pub fn extract_schema_from_results_dict<V: AllowedValue>(valid_dict: &Dictionnaire<V>) -> (r:
    KalkotoResult<Vec<Champ>>)
    ensures
        r matches Ok(champs) && champs_vus(champs@) == schema_resultats(valid_dict.cles()),
{
    let noms = valid_dict.cles_triees();
    let mut champs: Vec<Champ> = Vec::new();
    let mut k: usize = 0;
    while k < noms.len()
        invariant
            k <= noms@.len(),
            vues(noms@) == noms_tries(valid_dict.cles()),
            champs@.len() == k,
            forall|j: int|
                0 <= j < k ==> (#[trigger] champs@[j])@ == schema_resultats(valid_dict.cles())[j],
        decreases noms@.len() - k,
    {
        proof {
            assert(noms@[k as int]@ == vues(noms@)[k as int]);
        }
        champs.push(
            Champ { nom: noms[k].clone(), type_colonne: TypeColonne::Float64, nullable: true },
        );
        k += 1;
    }
    proof {
        assert(vues(noms@).len() == noms@.len());
        assert(champs_vus(champs@) =~= schema_resultats(valid_dict.cles()));
    }
    Ok(champs)
}

/// Whether the rows `0` to `i` all bind `nom`.
pub open spec fn servi_jusque<V>(resultats: Seq<Dictionnaire<V>>, nom: Seq<char>, i: int) -> bool {
    forall|j: int| 0 <= j <= i ==> (#[trigger] resultats[j])@.contains_key(nom)
}

/// The cell of the row `i` in the column `nom`: what the row binds `nom` to, as long
/// as no row up to it lacks the name; from the first row that lacks it on, the value
/// that stands where none was found.
pub open spec fn cellule_resultat<V: AllowedValue>(
    resultats: Seq<Dictionnaire<V>>,
    nom: Seq<char>,
    i: int,
) -> Option<Reel> {
    if servi_jusque(resultats, nom, i) {
        resultats[i]@[nom].option()
    } else {
        V::defaut_spec().option()
    }
}

/// The columns of a table of results: one for each name of the first row, in
/// ascending order of the names.
pub open spec fn colonnes_resultats<V: AllowedValue>(resultats: Seq<Dictionnaire<V>>) -> Seq<
    Seq<Option<Reel>>,
> {
    let noms = noms_tries(resultats[0].cles());
    Seq::new(
        noms.len(),
        |k: int| Seq::new(resultats.len(), |i: int| cellule_resultat(resultats, noms[k], i)),
    )
}

/// The views of a sequence of vectors of cells.
pub open spec fn cellules_vues(v: Seq<Vec<Option<Reel>>>) -> Seq<Seq<Option<Reel>>> {
    Seq::new(v.len(), |k: int| v[k]@)
}

/// The columns of a table of results: one for each name that the first row binds, in
/// ascending order of the names, with one cell for each row. Fails on an empty list.
///
/// A column is filled row by row up to the first row that lacks its name; from that
/// row on it holds the value that stands where none was found.
pub fn extract_values_from_list_results_dict<V: AllowedValue>(
    list_dict_results: &[Dictionnaire<V>],
) -> (r: KalkotoResult<Vec<Vec<Option<Reel>>>>)
    requires
        tables_wf(list_dict_results@),
    ensures
        r is Ok <==> list_dict_results@.len() > 0,
        r matches Ok(colonnes) ==> cellules_vues(colonnes@) == colonnes_resultats(
            list_dict_results@,
        ),
        r matches Err(e) ==> est_erreur_export(e, "Dictionnaire de résultats vide"@),
{
    if list_dict_results.len() == 0 {
        return Err(erreur_export("Dictionnaire de résultats vide"));
    }
    let noms = list_dict_results[0].cles_triees();
    let ghost tries = noms_tries(list_dict_results@[0].cles());
    let nrow = list_dict_results.len();
    let mut colonnes: Vec<Vec<Option<Reel>>> = Vec::new();
    let mut k: usize = 0;
    while k < noms.len()
        invariant
            k <= noms@.len(),
            nrow == list_dict_results@.len(),
            nrow > 0,
            tables_wf(list_dict_results@),
            vues(noms@) == tries,
            tries == noms_tries(list_dict_results@[0].cles()),
            colonnes@.len() == k,
            forall|j: int|
                0 <= j < k ==> (#[trigger] colonnes@[j])@ == colonnes_resultats(
                    list_dict_results@,
                )[j],
        decreases noms@.len() - k,
    {
        let nom = noms[k].as_str();
        proof {
            assert(noms@[k as int]@ == tries[k as int]);
        }
        let mut cellules: Vec<Option<Reel>> = Vec::new();
        let mut servi = true;
        let mut i: usize = 0;
        while i < nrow
            invariant
                i <= nrow,
                nrow == list_dict_results@.len(),
                tables_wf(list_dict_results@),
                cellules@.len() == i,
                servi == (i == 0 || servi_jusque(list_dict_results@, nom@, i - 1)),
                forall|j: int|
                    0 <= j < i ==> #[trigger] cellules@[j] == cellule_resultat(
                        list_dict_results@,
                        nom@,
                        j,
                    ),
            decreases nrow - i,
        {
            let mut cellule = V::defaut().en_option();
            if servi {
                match list_dict_results[i].get(nom) {
                    Some(valeur) => {
                        cellule = valeur.en_option();
                    },
                    None => {
                        servi = false;
                    },
                }
            }
            proof {
                if i > 0 && !servi_jusque(list_dict_results@, nom@, i - 1) {
                    assert(!servi_jusque(list_dict_results@, nom@, i as int));
                }
            }
            cellules.push(cellule);
            i += 1;
        }
        proof {
            assert(cellules@ =~= colonnes_resultats(list_dict_results@)[k as int]);
        }
        colonnes.push(cellules);
        k += 1;
    }
    proof {
        assert(tries.len() == noms@.len());
        assert(cellules_vues(colonnes@) =~= colonnes_resultats(list_dict_results@));
    }
    Ok(colonnes)
}

/// The table of results: one row for each household, one column of numbers for each
/// name that the first row binds, in ascending order of the names.
pub open spec fn lot_resultats<V: AllowedValue>(resultats: Seq<Dictionnaire<V>>) -> LotVue {
    LotVue {
        champs: schema_resultats(resultats[0].cles()),
        colonnes: Seq::new(
            colonnes_resultats(resultats).len(),
            |k: int| ColonneVue::Float64(colonnes_resultats(resultats)[k]),
        ),
        nb_lignes: resultats.len(),
    }
}

/// Lays out a list of results as a table. Fails on an empty list.
pub fn create_record_batch_from_list_dict_results<V: AllowedValue>(
    dict_results_list: &[Dictionnaire<V>],
) -> (r: KalkotoResult<Lot>)
    requires
        tables_wf(dict_results_list@),
    ensures
        r is Ok <==> dict_results_list@.len() > 0,
        r matches Ok(lot) ==> lot@ == lot_resultats(dict_results_list@) && lot@.coherent(),
        r matches Err(e) ==> est_erreur_export(e, "Aucun ménage dans la liste"@),
{
    if dict_results_list.len() == 0 {
        return Err(erreur_export("Aucun ménage dans la liste"));
    }
    let champs = match extract_schema_from_results_dict(&dict_results_list[0]) {
        Ok(champs) => champs,
        Err(e) => {
            return Err(e);
        },
    };
    let mut arrays_data = match extract_values_from_list_results_dict(dict_results_list) {
        Ok(arrays_data) => arrays_data,
        Err(e) => {
            return Err(e);
        },
    };
    let ghost donnees = cellules_vues(arrays_data@);
    let mut colonnes: Vec<Colonne> = Vec::new();
    let n = arrays_data.len();
    let mut k: usize = 0;
    while k < n
        invariant
            k <= n,
            n == arrays_data@.len(),
            n == donnees.len(),
            colonnes@.len() == k,
            forall|j: int| k <= j < n ==> (#[trigger] arrays_data@[j])@ == donnees[j],
            forall|j: int| 0 <= j < k ==> (#[trigger] colonnes@[j])@ == ColonneVue::Float64(donnees[j]),
        decreases n - k,
    {
        let mut cellules: Vec<Option<Reel>> = Vec::new();
        core::mem::swap(&mut cellules, &mut arrays_data[k]);
        colonnes.push(Colonne::Float64(cellules));
        k += 1;
    }
    let lot = Lot { champs, colonnes, nb_lignes: dict_results_list.len() };
    proof {
        assert(lot@.colonnes =~= lot_resultats(dict_results_list@).colonnes);
    }
    Ok(lot)
}

fn copier_champ(champ: &Champ) -> (r: Champ)
    ensures
        r@ == champ@,
{
    Champ { nom: champ.nom.clone(), type_colonne: champ.type_colonne, nullable: champ.nullable }
}

fn copier_colonne(colonne: &Colonne) -> (r: Colonne)
    ensures
        r@ == colonne@,
{
    match colonne {
        Colonne::Int32(v) => {
            let mut w: Vec<Option<i32>> = Vec::new();
            let mut i: usize = 0;
            while i < v.len()
                invariant
                    i <= v@.len(),
                    w@ == v@.subrange(0, i as int),
                decreases v@.len() - i,
            {
                w.push(v[i]);
                proof {
                    assert(w@ =~= v@.subrange(0, i + 1));
                }
                i += 1;
            }
            proof {
                assert(w@ =~= v@);
            }
            Colonne::Int32(w)
        },
        Colonne::Float64(v) => {
            let mut w: Vec<Option<Reel>> = Vec::new();
            let mut i: usize = 0;
            while i < v.len()
                invariant
                    i <= v@.len(),
                    w@ == v@.subrange(0, i as int),
                decreases v@.len() - i,
            {
                w.push(v[i]);
                proof {
                    assert(w@ =~= v@.subrange(0, i + 1));
                }
                i += 1;
            }
            proof {
                assert(w@ =~= v@);
            }
            Colonne::Float64(w)
        },
        Colonne::Utf8(v) => {
            let mut w: Vec<Option<String>> = Vec::new();
            let mut i: usize = 0;
            while i < v.len()
                invariant
                    i <= v@.len(),
                    w@.len() == i,
                    forall|j: int| 0 <= j < i ==> textes_vus(w@)[j] == textes_vus(v@)[j],
                decreases v@.len() - i,
            {
                let cellule = match &v[i] {
                    Some(s) => Some(s.clone()),
                    None => None,
                };
                w.push(cellule);
                i += 1;
            }
            proof {
                assert(textes_vus(w@) =~= textes_vus(v@));
            }
            Colonne::Utf8(w)
        },
        Colonne::Autre => Colonne::Autre,
    }
}

/// Two tables side by side: the fields and columns of the first, then those of the
/// second.
pub open spec fn lot_fusionne(a: LotVue, b: LotVue) -> LotVue {
    LotVue { champs: a.champs + b.champs, colonnes: a.colonnes + b.colonnes, nb_lignes: a.nb_lignes }
}

/// Puts the table of households and the table of results side by side. Fails if they
/// do not have the same number of rows.
pub fn create_final_record_batch(menage_record_batch: &Lot, results_record_batch: &Lot) -> (r:
    KalkotoResult<Lot>)
    ensures
        r is Ok <==> menage_record_batch@.nb_lignes == results_record_batch@.nb_lignes,
        r matches Ok(lot) ==> lot@ == lot_fusionne(menage_record_batch@, results_record_batch@),
        r matches Ok(lot) ==> (menage_record_batch@.coherent() && results_record_batch@.coherent()
            ==> lot@.coherent()),
        r matches Err(e) ==> est_erreur_export(
            e,
            "Le fichier ménages et la simulation n'ont pas la même longueur"@,
        ),
{
    if menage_record_batch.num_rows() != results_record_batch.num_rows() {
        return Err(
            erreur_export("Le fichier ménages et la simulation n'ont pas la même longueur"),
        );
    }
    let ghost a = menage_record_batch@;
    let ghost b = results_record_batch@;
    let na = menage_record_batch.champs.len();
    let mut champs: Vec<Champ> = Vec::new();
    let mut k: usize = 0;
    while k < na
        invariant
            k <= na,
            na == menage_record_batch.champs@.len(),
            a == menage_record_batch@,
            champs@.len() == k,
            forall|j: int| 0 <= j < k ==> (#[trigger] champs@[j])@ == a.champs[j],
        decreases na - k,
    {
        champs.push(copier_champ(&menage_record_batch.champs[k]));
        k += 1;
    }
    let mut k: usize = 0;
    while k < results_record_batch.champs.len()
        invariant
            k <= results_record_batch.champs@.len(),
            na == a.champs.len(),
            b == results_record_batch@,
            champs@.len() == na + k,
            forall|j: int| 0 <= j < na ==> (#[trigger] champs@[j])@ == a.champs[j],
            forall|j: int| 0 <= j < k ==> (#[trigger] champs@[na + j])@ == b.champs[j],
        decreases results_record_batch.champs@.len() - k,
    {
        champs.push(copier_champ(&results_record_batch.champs[k]));
        k += 1;
    }
    let nc = menage_record_batch.colonnes.len();
    let mut colonnes: Vec<Colonne> = Vec::new();
    let mut k: usize = 0;
    while k < nc
        invariant
            k <= nc,
            nc == menage_record_batch.colonnes@.len(),
            a == menage_record_batch@,
            colonnes@.len() == k,
            forall|j: int| 0 <= j < k ==> (#[trigger] colonnes@[j])@ == a.colonnes[j],
        decreases nc - k,
    {
        colonnes.push(copier_colonne(&menage_record_batch.colonnes[k]));
        k += 1;
    }
    let mut k: usize = 0;
    while k < results_record_batch.colonnes.len()
        invariant
            k <= results_record_batch.colonnes@.len(),
            nc == a.colonnes.len(),
            b == results_record_batch@,
            colonnes@.len() == nc + k,
            forall|j: int| 0 <= j < nc ==> (#[trigger] colonnes@[j])@ == a.colonnes[j],
            forall|j: int| 0 <= j < k ==> (#[trigger] colonnes@[nc + j])@ == b.colonnes[j],
        decreases results_record_batch.colonnes@.len() - k,
    {
        colonnes.push(copier_colonne(&results_record_batch.colonnes[k]));
        k += 1;
    }
    let lot = Lot { champs, colonnes, nb_lignes: menage_record_batch.nb_lignes };
    proof {
        assert forall|j: int| 0 <= j < lot@.champs.len() implies lot@.champs[j] == (a.champs
            + b.champs)[j] by {
            if j >= na {
                assert(lot.champs@[na + (j - na)]@ == b.champs[j - na]);
            }
        }
        assert(lot@.champs =~= a.champs + b.champs);
        assert forall|j: int| 0 <= j < lot@.colonnes.len() implies lot@.colonnes[j] == (a.colonnes
            + b.colonnes)[j] by {
            if j >= nc {
                assert(lot.colonnes@[nc + (j - nc)]@ == b.colonnes[j - nc]);
            }
        }
        assert(lot@.colonnes =~= a.colonnes + b.colonnes);
    }
    Ok(lot)
}

/// What is reported when results are asked for before the simulation was run.
pub open spec fn cause_simulation_absente() -> Seq<char> {
    "La simulation n'a pas encore été réalisée !"@
}

/// Whether `r` is what the two tables of an export must be for the households
/// `menages` and the results `resultats`: the table of households and the table of
/// results, or the first failure met on the way, the households being laid out
/// first.
pub open spec fn lots_attendus<V: AllowedValue>(
    menages: Seq<Menage>,
    resultats: Option<Seq<Dictionnaire<V>>>,
    r: KalkotoResult<(Lot, Lot)>,
) -> bool {
    match resultats {
        None => r matches Err(e) && est_erreur_export(e, cause_simulation_absente()),
        Some(tables) => if !chaine_compatible(menages) {
            r matches Err(e) && est_erreur_export(e, "Ménages aux caractéristiques incompatibles"@)
        } else if menages.len() == 0 {
            r matches Err(e) && est_erreur_export(e, "Aucun ménage dans le fichier d'input"@)
        } else if tables.len() == 0 {
            r matches Err(e) && est_erreur_export(e, "Aucun ménage dans la liste"@)
        } else {
            &&& r matches Ok(lots)
            &&& lots.0@ == lot_menages(menages)
            &&& lots.0@.coherent()
            &&& lots.1@ == lot_resultats(tables)
            &&& lots.1@.coherent()
        },
    }
}

fn lots_de<V: AllowedValue>(menages: &[Menage], resultats: &Option<Vec<Dictionnaire<V>>>) -> (r:
    KalkotoResult<(Lot, Lot)>)
    requires
        menages_wf(menages@),
        resultats matches Some(tables) ==> tables_wf(tables@),
    ensures
        lots_attendus(
            menages@,
            match resultats {
                Some(tables) => Some(tables@),
                None => None,
            },
            r,
        ),
{
    match resultats {
        Some(tables) => {
            let record_menage = match create_record_batch_from_menage_list(menages) {
                Ok(lot) => lot,
                Err(e) => {
                    return Err(e);
                },
            };
            let record_results = match create_record_batch_from_list_dict_results(
                tables.as_slice(),
            ) {
                Ok(lot) => lot,
                Err(e) => {
                    return Err(e);
                },
            };
            Ok((record_menage, record_results))
        },
        None => Err(erreur_export("La simulation n'a pas encore été réalisée !")),
    }
}

impl ArrowOutputAdapter {
    /// The table of households and the table of baseline results of a session.
    pub fn lots_baseline<E>(
        &self,
        simulated: &SimulatorBuilder<ValidMenageInput, ValidBaselineInput, E>,
    ) -> (r: KalkotoResult<(Lot, Lot)>)
        requires
            menages_wf(simulated.menage_input.0.liste_menage_valide@),
            simulated.results_baseline matches Some(tables) ==> tables_wf(tables@),
        ensures
            lots_attendus(
                simulated.menage_input.0.liste_menage_valide@,
                match simulated.results_baseline {
                    Some(tables) => Some(tables@),
                    None => None,
                },
                r,
            ),
    {
        lots_de(simulated.menage_input.0.liste_menage_valide.as_slice(), &simulated.results_baseline)
    }

    /// The table of households and the table of variant results of a session.
    pub fn lots_variante(
        &self,
        simulated: &SimulatorBuilder<ValidMenageInput, ValidBaselineInput, ValidVarianteInput>,
    ) -> (r: KalkotoResult<(Lot, Lot)>)
        requires
            menages_wf(simulated.menage_input.0.liste_menage_valide@),
            simulated.results_variante matches Some(tables) ==> tables_wf(tables@),
        ensures
            lots_attendus(
                simulated.menage_input.0.liste_menage_valide@,
                match simulated.results_variante {
                    Some(tables) => Some(tables@),
                    None => None,
                },
                r,
            ),
    {
        lots_de(simulated.menage_input.0.liste_menage_valide.as_slice(), &simulated.results_variante)
    }

    /// The table of households and the table of differences of a session.
    pub fn lots_diff(
        &self,
        simulated: &SimulatorBuilder<ValidMenageInput, ValidBaselineInput, ValidVarianteInput>,
    ) -> (r: KalkotoResult<(Lot, Lot)>)
        requires
            menages_wf(simulated.menage_input.0.liste_menage_valide@),
            simulated.results_diff matches Some(tables) ==> tables_wf(tables@),
        ensures
            lots_attendus(
                simulated.menage_input.0.liste_menage_valide@,
                match simulated.results_diff {
                    Some(tables) => Some(tables@),
                    None => None,
                },
                r,
            ),
    {
        lots_de(simulated.menage_input.0.liste_menage_valide.as_slice(), &simulated.results_diff)
    }
}

} // verus!
