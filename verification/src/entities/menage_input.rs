//! Validation of a list of households, in stages.
//!
//! A builder starts empty, takes a list that nothing is known of, validates it, and
//! only then yields a `MenageInput`.

use crate::adapters::input_adapters::MenageListAdapterError;
use crate::dictionnaire::EnsembleNoms;
use crate::entities::menage::lemme_compatibilite_transitive;
use crate::entities::menage::Menage;
use crate::errors::KalkotoError;
use crate::texte::accoler;
use crate::KalkotoResult;
use vstd::prelude::*;

verus! {

/// The stages of a list of households.
pub trait MenageList {

}

/// No list yet.
#[derive(Default, Debug, Clone)]
pub struct EmptyList;

impl MenageList for EmptyList {

}

/// A list of which nothing is known.
#[derive(Debug, Clone)]
pub struct Unvalid(Vec<Menage>);

impl MenageList for Unvalid {

}

/// A list that passed validation.
#[derive(Debug, Clone)]
pub struct Valid(Vec<Menage>);

impl MenageList for Valid {

}

impl Unvalid {
    /// The households of the list.
    pub closed spec fn menages(&self) -> Seq<Menage> {
        self.0@
    }
}

impl Valid {
    /// The households of the list.
    pub closed spec fn menages(&self) -> Seq<Menage> {
        self.0@
    }
}

/// Whether two households hold the same index and the same characteristics in the
/// same order.
pub open spec fn meme_menage(a: Menage, b: Menage) -> bool {
    &&& a.index == b.index
    &&& a.caracteristiques.cles() == b.caracteristiques.cles()
    &&& a.caracteristiques.valeurs() == b.caracteristiques.valeurs()
}

/// Whether two lists hold the same households in the same order.
pub open spec fn memes_menages(a: Seq<Menage>, b: Seq<Menage>) -> bool {
    &&& a.len() == b.len()
    &&& forall|i: int| 0 <= i < a.len() ==> meme_menage(#[trigger] a[i], b[i])
}

/// Whether every household of the list is well-formed.
pub open spec fn menages_wf(liste: Seq<Menage>) -> bool {
    forall|i: int| 0 <= i < liste.len() ==> (#[trigger] liste[i]).wf()
}

/// Whether the household at place `i` is compatible with its successor.
pub open spec fn voisins_compatibles(liste: Seq<Menage>, i: int) -> bool {
    liste[i].compatible_avec(&liste[i + 1])
}

/// Whether each household of the list is compatible with its successor.
pub open spec fn chaine_compatible(liste: Seq<Menage>) -> bool {
    forall|i: int| 0 <= i < liste.len() - 1 ==> #[trigger] voisins_compatibles(liste, i)
}

/// Whether `i` is the first place whose household is not compatible with its
/// successor.
pub open spec fn est_premiere_rupture(liste: Seq<Menage>, i: int) -> bool {
    &&& 0 <= i < liste.len() - 1
    &&& !voisins_compatibles(liste, i)
    &&& forall|j: int| 0 <= j < i ==> #[trigger] voisins_compatibles(liste, j)
}

/// Whether `nom` is the first name of `a`, in the order of `a`, on which `b` is in
/// default.
pub open spec fn est_premier_defaut(a: Menage, b: Menage, nom: Seq<char>) -> bool {
    let cles = a.caracteristiques.cles();
    &&& cles.contains(nom)
    &&& a.en_defaut(&b, nom)
    &&& forall|j: int| 0 <= j < cles.index_of(nom) ==> !a.en_defaut(&b, #[trigger] cles[j])
}

/// What is reported of an empty list.
pub open spec fn cause_liste_vide() -> Seq<char> {
    "La liste de ménages à valider est vide."@
}

/// What is reported of two neighbours that disagree on the characteristic `nom`.
pub open spec fn cause_incompatibilite(nom: Seq<char>) -> Seq<char> {
    "Les types ou les noms des caractéristiques de ces deux ménages ne correspondent pas. Problème à la caractéristique "@
        + nom
}

/// The advice given with every validation failure.
pub open spec fn conseil_validation() -> Seq<char> {
    "Vérifier le fichier d'input"@
}

/// Whether `e` is the error that validation owes for `liste`: for an empty list, the
/// empty-list failure with index -1; otherwise the failure of the first household that
/// is not compatible with its successor, with that household's index and the first
/// name on which the successor is in default.
pub open spec fn est_erreur_validation(liste: Seq<Menage>, e: KalkotoError) -> bool {
    &&& e matches KalkotoError::ListMenageError(
        MenageListAdapterError::Validation { fault_index, cause, conseil },
    )
    &&& conseil@ == conseil_validation()
    &&& if liste.len() == 0 {
        fault_index == -1 && cause@ == cause_liste_vide()
    } else {
        exists|i: int, nom: Seq<char>|
            {
                &&& #[trigger] est_premiere_rupture(liste, i)
                &&& #[trigger] est_premier_defaut(liste[i], liste[i + 1], nom)
                &&& fault_index == liste[i].index
                &&& cause@ == cause_incompatibilite(nom)
            }
    }
}

/// Lists that hold the same households in the same order are validated alike.
pub proof fn lemme_validation_memes_menages(a: Seq<Menage>, b: Seq<Menage>, e: KalkotoError)
    requires
        memes_menages(a, b),
    ensures
        menages_wf(a) <==> menages_wf(b),
        chaine_compatible(a) <==> chaine_compatible(b),
        est_erreur_validation(a, e) <==> est_erreur_validation(b, e),
{
    assert forall|i: int| 0 <= i < a.len() implies (#[trigger] a[i]).caracteristiques@
        == b[i].caracteristiques@ by {
        assert(meme_menage(a[i], b[i]));
        assert(a[i].caracteristiques@ =~= b[i].caracteristiques@);
    }
    assert forall|i: int| 0 <= i < a.len() implies ((#[trigger] a[i]).wf() <==> b[i].wf()) by {
        assert(meme_menage(a[i], b[i]));
    }
    if menages_wf(a) {
        assert forall|i: int| 0 <= i < b.len() implies (#[trigger] b[i]).wf() by {
            assert(a[i].wf());
        }
    }
    if menages_wf(b) {
        assert forall|i: int| 0 <= i < a.len() implies (#[trigger] a[i]).wf() by {
            assert(b[i].wf());
        }
    }
    assert forall|i: int| 0 <= i < a.len() - 1 implies (#[trigger] voisins_compatibles(a, i)
        <==> voisins_compatibles(b, i)) by {
        assert(a[i].caracteristiques@ == b[i].caracteristiques@);
        assert(a[i + 1].caracteristiques@ == b[i + 1].caracteristiques@);
    }
    if chaine_compatible(a) {
        assert forall|i: int| 0 <= i < b.len() - 1 implies #[trigger] voisins_compatibles(
            b,
            i,
        ) by {
            assert(voisins_compatibles(a, i));
        }
    }
    if chaine_compatible(b) {
        assert forall|i: int| 0 <= i < a.len() - 1 implies #[trigger] voisins_compatibles(
            a,
            i,
        ) by {
            assert(voisins_compatibles(b, i));
        }
    }
    assert forall|i: int|
        est_premiere_rupture(a, i) <==> est_premiere_rupture(b, i) by {
        if est_premiere_rupture(a, i) {
            assert forall|j: int| 0 <= j < i implies #[trigger] voisins_compatibles(b, j) by {
                assert(voisins_compatibles(a, j));
            }
        }
        if est_premiere_rupture(b, i) {
            assert forall|j: int| 0 <= j < i implies #[trigger] voisins_compatibles(a, j) by {
                assert(voisins_compatibles(b, j));
            }
        }
    }
    if a.len() > 0 {
        if est_erreur_validation(a, e) {
            let (i, nom) = choose|i: int, nom: Seq<char>|
                {
                    &&& #[trigger] est_premiere_rupture(a, i)
                    &&& #[trigger] est_premier_defaut(a[i], a[i + 1], nom)
                    &&& e->ListMenageError_0->Validation_fault_index == a[i].index
                    &&& e->ListMenageError_0->Validation_cause@ == cause_incompatibilite(nom)
                };
            assert(est_premiere_rupture(b, i));
            assert(meme_menage(a[i], b[i]));
            assert(meme_menage(a[i + 1], b[i + 1]));
            assert(a[i].caracteristiques@ == b[i].caracteristiques@);
            assert(a[i + 1].caracteristiques@ == b[i + 1].caracteristiques@);
            assert(est_premier_defaut(b[i], b[i + 1], nom));
        }
        if est_erreur_validation(b, e) {
            let (i, nom) = choose|i: int, nom: Seq<char>|
                {
                    &&& #[trigger] est_premiere_rupture(b, i)
                    &&& #[trigger] est_premier_defaut(b[i], b[i + 1], nom)
                    &&& e->ListMenageError_0->Validation_fault_index == b[i].index
                    &&& e->ListMenageError_0->Validation_cause@ == cause_incompatibilite(nom)
                };
            assert(est_premiere_rupture(a, i));
            assert(meme_menage(a[i], b[i]));
            assert(meme_menage(a[i + 1], b[i + 1]));
            assert(a[i].caracteristiques@ == b[i].caracteristiques@);
            assert(a[i + 1].caracteristiques@ == b[i + 1].caracteristiques@);
            assert(est_premier_defaut(a[i], a[i + 1], nom));
        }
    }
}

/// Whether `r` is what validating and building owe for the list `liste`: an input
/// that holds the same households and the names of the first of them, if the list is
/// not empty and each household is compatible with its successor; otherwise the
/// failure that `est_erreur_validation` describes.
pub open spec fn est_validation_attendue(liste: Seq<Menage>, r: KalkotoResult<MenageInput>) -> bool {
    &&& r is Ok <==> liste.len() > 0 && chaine_compatible(liste)
    &&& r matches Ok(input) ==> memes_menages(input.liste_menage_valide@, liste)
        && input.est_valide()
    &&& r matches Err(e) ==> est_erreur_validation(liste, e)
}

/// A validated list of households with the names of their characteristics.
#[derive(Debug, PartialEq)]
pub struct MenageInput {
    pub set_caracteristiques_valide: EnsembleNoms,
    pub liste_menage_valide: Vec<Menage>,
}

impl MenageInput {
    /// What validation establishes: the list is not empty, its households are
    /// well-formed, each is compatible with its successor, and the set of names is that
    /// of the first household, in its order.
    pub open spec fn est_valide(&self) -> bool {
        let liste = self.liste_menage_valide@;
        &&& liste.len() > 0
        &&& menages_wf(liste)
        &&& chaine_compatible(liste)
        &&& self.set_caracteristiques_valide.wf()
        &&& self.set_caracteristiques_valide.noms() == liste[0].caracteristiques.cles()
    }

    /// The set of names and the households.
    pub fn get_valid_input_menages(self) -> (r: (EnsembleNoms, Vec<Menage>))
        ensures
            r.0 == self.set_caracteristiques_valide,
            r.1 == self.liste_menage_valide,
    {
        (self.set_caracteristiques_valide, self.liste_menage_valide)
    }
}

/// Builds a `MenageInput` in stages; the stage is the type parameter.
#[derive(Debug)]
pub struct MenageInputBuilder<U: MenageList> {
    set_caracteristiques: Option<EnsembleNoms>,
    liste_menage: U,
}

impl<U: MenageList> MenageInputBuilder<U> {
    /// The list held at this stage.
    pub closed spec fn liste(&self) -> U {
        self.liste_menage
    }

    /// The set of names, once validation has derived it.
    pub closed spec fn set(&self) -> Option<EnsembleNoms> {
        self.set_caracteristiques
    }

    /// Takes a list of which nothing is known, whatever the builder held before.
    pub fn from_unvalidated_liste_menage(self, invalid_liste_menage: &[Menage]) -> (r:
        MenageInputBuilder<Unvalid>)
        ensures
            r.set() is None,
            memes_menages(r.liste().menages(), invalid_liste_menage@),
    {
        let mut liste: Vec<Menage> = Vec::new();
        let mut i: usize = 0;
        while i < invalid_liste_menage.len()
            invariant
                i <= invalid_liste_menage@.len(),
                liste@.len() == i,
                forall|j: int| 0 <= j < i ==> meme_menage(#[trigger] liste@[j], invalid_liste_menage@[j]),
            decreases invalid_liste_menage@.len() - i,
        {
            liste.push(invalid_liste_menage[i].clone());
            i += 1;
        }
        MenageInputBuilder { set_caracteristiques: None, liste_menage: Unvalid(liste) }
    }

    /// Takes a list, validates it and yields the validated input, in one go.
    pub fn valider(self, liste_menage: &[Menage]) -> (r: KalkotoResult<MenageInput>)
        requires
            menages_wf(liste_menage@),
        ensures
            est_validation_attendue(liste_menage@, r),
    {
        let non_valide = self.from_unvalidated_liste_menage(liste_menage);
        proof {
            lemme_validation_memes_menages(
                non_valide.liste().menages(),
                liste_menage@,
                KalkotoError::ListMenageError(MenageListAdapterError::Uninitialized),
            );
        }
        let ghost copie = non_valide.liste().menages();
        match non_valide.validate_liste_menage() {
            Ok(valide) => valide.build_valide_menage_input(),
            Err(e) => {
                proof {
                    lemme_validation_memes_menages(copie, liste_menage@, e);
                }
                Err(e)
            },
        }
    }
}

impl MenageInputBuilder<EmptyList> {
    /// A builder that holds nothing.
    pub fn new() -> (r: Self)
        ensures
            r.set() is None,
    {
        MenageInputBuilder { set_caracteristiques: None, liste_menage: EmptyList }
    }
}

impl MenageInputBuilder<Unvalid> {
    /// Checks the list: it must not be empty, and each household must be compatible
    /// with its successor.
    ///
    /// Returns `Ok(true)` for a list that passes, and otherwise the validation error
    /// that `est_erreur_validation` describes.
    pub fn has_valid_liste_menage(&self) -> (r: KalkotoResult<bool>)
        requires
            menages_wf(self.liste().menages()),
        ensures
            r is Ok <==> self.liste().menages().len() > 0 && chaine_compatible(
                self.liste().menages(),
            ),
            r matches Ok(b) ==> b,
            r matches Err(e) ==> est_erreur_validation(self.liste().menages(), e),
    {
        let liste = &self.liste_menage.0;
        if liste.len() == 0 {
            return Err(
                KalkotoError::ListMenageError(
                    MenageListAdapterError::Validation {
                        fault_index: -1,
                        cause: "La liste de ménages à valider est vide.".to_string(),
                        conseil: "Vérifier le fichier d'input".to_string(),
                    },
                ),
            );
        }
        let mut i: usize = 0;
        while i < liste.len() - 1
            invariant
                liste@.len() > 0,
                i <= liste@.len() - 1,
                liste@ == self.liste().menages(),
                menages_wf(liste@),
                forall|j: int| 0 <= j < i ==> #[trigger] voisins_compatibles(liste@, j),
            decreases liste@.len() - i,
        {
            let resultat = liste[i].compare_type_carac(&liste[i + 1]);
            if !resultat.0 {
                let cause = accoler(
                    "Les types ou les noms des caractéristiques de ces deux ménages ne correspondent pas. Problème à la caractéristique ",
                    resultat.2.as_str(),
                );
                proof {
                    assert(!voisins_compatibles(liste@, i as int));
                    assert(est_premiere_rupture(liste@, i as int));
                    assert(est_premier_defaut(liste@[i as int], liste@[i + 1], resultat.2@));
                }
                return Err(
                    KalkotoError::ListMenageError(
                        MenageListAdapterError::Validation {
                            fault_index: resultat.1,
                            cause,
                            conseil: "Vérifier le fichier d'input".to_string(),
                        },
                    ),
                );
            }
            i += 1;
        }
        Ok(true)
    }

    /// Validates the list and, when it passes, derives the set of names from the first
    /// household.
    pub fn validate_liste_menage(self) -> (r: KalkotoResult<MenageInputBuilder<Valid>>)
        requires
            menages_wf(self.liste().menages()),
        ensures
            r is Ok <==> self.liste().menages().len() > 0 && chaine_compatible(
                self.liste().menages(),
            ),
            r matches Ok(b) ==> b.liste().menages() == self.liste().menages() && b.bien_forme(),
            r matches Err(e) ==> est_erreur_validation(self.liste().menages(), e),
    {
        match self.has_valid_liste_menage() {
            Err(e) => Err(e),
            Ok(_) => {
                let premier = &self.liste_menage.0[0];
                let mut set = EnsembleNoms::new();
                let n = premier.caracteristiques.len();
                let mut i: usize = 0;
                while i < n
                    invariant
                        i <= n,
                        n == premier.caracteristiques.cles().len(),
                        premier.wf(),
                        set.wf(),
                        set.noms() == premier.caracteristiques.cles().subrange(0, i as int),
                    decreases n - i,
                {
                    let ghost cles = premier.caracteristiques.cles();
                    let nom = premier.caracteristiques.cle(i).clone();
                    proof {
                        premier.caracteristiques.lemma_vue();
                        if set@.contains(nom@) {
                            let p = set.noms().index_of(nom@);
                            assert(0 <= p < i && set.noms()[p] == nom@);
                            assert(cles[p] == cles[i as int]);
                        }
                    }
                    set.insert(nom);
                    proof {
                        assert(set.noms() =~= cles.subrange(0, i + 1));
                    }
                    i += 1;
                }
                proof {
                    assert(set.noms() =~= premier.caracteristiques.cles());
                }
                Ok(
                    MenageInputBuilder {
                        set_caracteristiques: Some(set),
                        liste_menage: Valid(self.liste_menage.0),
                    },
                )
            },
        }
    }
}

impl MenageInputBuilder<Valid> {
    /// What validation leaves behind: a list that passed, and the set of names of its
    /// first household.
    pub open spec fn bien_forme(&self) -> bool {
        let liste = self.liste().menages();
        &&& liste.len() > 0
        &&& menages_wf(liste)
        &&& chaine_compatible(liste)
        &&& self.set() matches Some(set)
        &&& set.wf()
        &&& set.noms() == liste[0].caracteristiques.cles()
    }

    /// Yields the validated input. Fails with `Uninitialized` when no set of names was
    /// derived, which a builder that went through validation never shows.
    pub fn build_valide_menage_input(self) -> (r: KalkotoResult<MenageInput>)
        ensures
            match self.set() {
                Some(set) => r matches Ok(input) && input.set_caracteristiques_valide == set
                    && input.liste_menage_valide@ == self.liste().menages(),
                None => r == Err::<MenageInput, KalkotoError>(
                    KalkotoError::ListMenageError(MenageListAdapterError::Uninitialized),
                ),
            },
            self.bien_forme() ==> (r matches Ok(input) && input.est_valide()),
    {
        match self.set_caracteristiques {
            Some(set_caracteristiques) => Ok(
                MenageInput {
                    set_caracteristiques_valide: set_caracteristiques,
                    liste_menage_valide: self.liste_menage.0,
                },
            ),
            None => Err(KalkotoError::ListMenageError(MenageListAdapterError::Uninitialized)),
        }
    }
}

/// Where each household is compatible with its successor, every household is
/// compatible with every household that comes after it, and with itself.
pub proof fn lemme_chaine_compatible(liste: Seq<Menage>, i: int, j: int)
    requires
        chaine_compatible(liste),
        0 <= i <= j < liste.len(),
    ensures
        liste[i].compatible_avec(&liste[j]),
    decreases j - i,
{
    if i < j {
        lemme_chaine_compatible(liste, i, j - 1);
        assert(voisins_compatibles(liste, j - 1));
        lemme_compatibilite_transitive(&liste[i], &liste[j - 1], &liste[j]);
    }
}

/// In a validated input, every household is compatible with every household that
/// comes after it, and with itself.
pub proof fn lemme_menages_compatibles(input: &MenageInput, i: int, j: int)
    requires
        input.est_valide(),
        0 <= i <= j < input.liste_menage_valide@.len(),
    ensures
        input.liste_menage_valide@[i].compatible_avec(&input.liste_menage_valide@[j]),
{
    lemme_chaine_compatible(input.liste_menage_valide@, i, j);
}

/// In a validated input, every household binds every name of the set, to a value of
/// the kind that the first household gives it.
pub proof fn lemme_schema_commun(input: &MenageInput, j: int, nom: Seq<char>)
    requires
        input.est_valide(),
        0 <= j < input.liste_menage_valide@.len(),
        input.set_caracteristiques_valide@.contains(nom),
    ensures
        input.liste_menage_valide@[j].caracteristiques@.contains_key(nom),
        input.liste_menage_valide@[0].caracteristiques@.contains_key(nom),
        input.liste_menage_valide@[0].caracteristiques@[nom].meme_type(
            input.liste_menage_valide@[j].caracteristiques@[nom],
        ),
{
    let liste = input.liste_menage_valide@;
    lemme_menages_compatibles(input, 0, j);
    liste[0].caracteristiques.lemma_vue();
    assert(liste[0].caracteristiques@.contains_key(nom));
    assert(!liste[0].en_defaut(&liste[j], nom));
}

} // verus!
