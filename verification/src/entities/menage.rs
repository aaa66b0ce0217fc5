//! Households and their typed characteristics.

use crate::dictionnaire::Dictionnaire;
use crate::reel::Reel;
use crate::texte::accoler;
use crate::texte::entier_decimal;
use crate::texte::entier_lu;
use crate::texte::lire_entier;
use crate::texte::texte_entier;
use vstd::prelude::*;
use vstd::string::StringExecFns;

verus! {

/// One typed attribute of a household.
#[derive(Debug, PartialEq)]
pub enum Caracteristique {
    Entier(i32),
    Numeric(Reel),
    Textuel(String),
}

impl Clone for Caracteristique {
    fn clone(&self) -> (r: Self)
        ensures
            r == *self,
    {
        match self {
            Caracteristique::Entier(i) => Caracteristique::Entier(*i),
            Caracteristique::Numeric(x) => Caracteristique::Numeric(*x),
            Caracteristique::Textuel(mot) => Caracteristique::Textuel(mot.clone()),
        }
    }
}

/// Whether the formatter accepts every number.
pub open spec fn formateur_total<F: Fn(Reel) -> String>(formater: &F) -> bool {
    forall|x: Reel| call_requires(formater, (x,))
}

impl Caracteristique {
    /// Whether `texte` can be what is written for the value: the decimal writing of
    /// an integer, what the formatter writes for a real number, a text as it is.
    pub open spec fn ecrit_par<F: Fn(Reel) -> String>(self, formater: &F, texte: String) -> bool {
        match self {
            Caracteristique::Entier(i) => texte@ == entier_decimal(i as int),
            Caracteristique::Numeric(x) => call_ensures(formater, (x,), texte),
            Caracteristique::Textuel(mot) => texte@ == mot@,
        }
    }

    /// Writes the value as text; real numbers are written by `formater`.
    pub fn texte<F: Fn(Reel) -> String>(&self, formater: &F) -> (r: String)
        requires
            formateur_total(formater),
        ensures
            self.ecrit_par(formater, r),
    {
        match self {
            Caracteristique::Entier(i) => texte_entier(*i),
            Caracteristique::Numeric(x) => formater(*x),
            Caracteristique::Textuel(mot) => mot.clone(),
        }
    }

    /// Whether both values are of the same kind: both integers, both reals or both
    /// texts.
    pub open spec fn meme_type(self, autre: Caracteristique) -> bool {
        ||| self is Entier && autre is Entier
        ||| self is Numeric && autre is Numeric
        ||| self is Textuel && autre is Textuel
    }

    /// What a text stands for, given what reading it as a real number gave: the
    /// integer that it writes, if it writes one; else the real number, if there is
    /// one; else the text itself.
    pub open spec fn lu_de(texte: Seq<char>, reel: Option<Reel>, c: Caracteristique) -> bool {
        match entier_lu(texte) {
            Some(i) => c == Caracteristique::Entier(i),
            None => match reel {
                Some(x) => c == Caracteristique::Numeric(x),
                None => c matches Caracteristique::Textuel(mot) && mot@ == texte,
            },
        }
    }

    /// Gives a text its type: an integer if the text writes one, else a real number
    /// if `reel`, the outcome of reading the text as a real number, holds one, else
    /// the text as it is.
    pub fn from_lectures(texte: &str, reel: Option<Reel>) -> (r: Caracteristique)
        ensures
            Caracteristique::lu_de(texte@, reel, r),
    {
        match lire_entier(texte) {
            Some(entier) => Caracteristique::Entier(entier),
            None => match reel {
                Some(numeric) => Caracteristique::Numeric(numeric),
                None => Caracteristique::Textuel(texte.to_string()),
            },
        }
    }

    /// Decides `meme_type`.
    pub fn a_meme_type(&self, autre: &Caracteristique) -> (b: bool)
        ensures
            b == self.meme_type(*autre),
    {
        match (self, autre) {
            (Caracteristique::Entier(_), Caracteristique::Entier(_)) => true,
            (Caracteristique::Numeric(_), Caracteristique::Numeric(_)) => true,
            (Caracteristique::Textuel(_), Caracteristique::Textuel(_)) => true,
            _ => false,
        }
    }
}

/// A household: its rank in the input, counted from 1, and its characteristics by name.
#[derive(Debug, PartialEq)]
pub struct Menage {
    pub index: i32,
    pub caracteristiques: Dictionnaire<Caracteristique>,
}

impl Clone for Menage {
    fn clone(&self) -> (r: Self)
        ensures
            r.index == self.index,
            r.caracteristiques.cles() == self.caracteristiques.cles(),
            r.caracteristiques.valeurs() == self.caracteristiques.valeurs(),
            r.caracteristiques@ == self.caracteristiques@,
            self.wf() ==> r.wf(),
    {
        let caracteristiques = self.caracteristiques.clone();
        assert(caracteristiques.valeurs() =~= self.caracteristiques.valeurs());
        Menage { index: self.index, caracteristiques }
    }
}

/// The first line of the text of a household.
pub open spec fn entete_menage(index: int) -> Seq<char> {
    "Le ménage "@ + entier_decimal(index) + " a les caractéristiques :\n"@
}

/// The lines of the characteristics of a household: for each name, in order, the
/// name, an arrow and the text of the value.
pub open spec fn lignes_menage(noms: Seq<Seq<char>>, valeurs: Seq<Seq<char>>) -> Seq<char>
    decreases noms.len(),
{
    if noms.len() == 0 {
        Seq::empty()
    } else {
        lignes_menage(noms.drop_last(), valeurs.drop_last()) + noms.last() + " -> "@
            + valeurs.last() + "\n"@
    }
}

/// The text of a household.
pub open spec fn texte_menage(index: int, noms: Seq<Seq<char>>, valeurs: Seq<Seq<char>>) -> Seq<
    char,
> {
    entete_menage(index) + lignes_menage(noms, valeurs)
}

impl Default for Menage {
    /// The household of index 0, without characteristics.
    fn default() -> (r: Menage)
        ensures
            r.wf(),
            r.index == 0,
            r.caracteristiques@ == Map::<Seq<char>, Caracteristique>::empty(),
    {
        Menage::new(0)
    }
}

impl Menage {
    /// Well-formedness: no characteristic name occurs twice.
    pub open spec fn wf(&self) -> bool {
        self.caracteristiques.wf()
    }

    /// Whether `autre` fails `self` on the name `nom`: it lacks the name, or binds it to
    /// a value of another kind.
    pub open spec fn en_defaut(&self, autre: &Menage, nom: Seq<char>) -> bool {
        !autre.caracteristiques@.contains_key(nom) || !self.caracteristiques@[nom].meme_type(
            autre.caracteristiques@[nom],
        )
    }

    /// Whether every characteristic of `self` is found in `autre` under the same name
    /// and with the same kind. Names that only `autre` has are not looked at.
    pub open spec fn compatible_avec(&self, autre: &Menage) -> bool {
        forall|nom: Seq<char>| #[trigger]
            self.caracteristiques@.contains_key(nom) ==> !self.en_defaut(autre, nom)
    }

    /// Writes the household as text: a first line with its index, then one line for
    /// each characteristic, in order, with its name and its value. Real numbers are
    /// written by `formater`.
    pub fn texte<F: Fn(Reel) -> String>(&self, formater: &F) -> (r: String)
        requires
            formateur_total(formater),
        ensures
            exists|valeurs: Seq<String>|
                {
                    &&& valeurs.len() == self.caracteristiques.valeurs().len()
                    &&& forall|j: int|
                        0 <= j < valeurs.len() ==> self.caracteristiques.valeurs()[j].ecrit_par(
                            formater,
                            #[trigger] valeurs[j],
                        )
                    &&& r@ == texte_menage(
                        self.index as int,
                        self.caracteristiques.cles(),
                        crate::texte::vues(valeurs),
                    )
                },
    {
        let mut texte = accoler("Le ménage ", texte_entier(self.index).as_str());
        texte.append(" a les caractéristiques :\n");
        let n = self.caracteristiques.len();
        let ghost mut valeurs: Seq<String> = Seq::empty();
        let mut j: usize = 0;
        while j < n
            invariant
                j <= n,
                n == self.caracteristiques.cles().len(),
                n == self.caracteristiques.valeurs().len(),
                formateur_total(formater),
                valeurs.len() == j,
                forall|k: int|
                    0 <= k < j ==> self.caracteristiques.valeurs()[k].ecrit_par(
                        formater,
                        #[trigger] valeurs[k],
                    ),
                texte@ == entete_menage(self.index as int) + lignes_menage(
                    self.caracteristiques.cles().subrange(0, j as int),
                    crate::texte::vues(valeurs),
                ),
            decreases n - j,
        {
            let valeur = self.caracteristiques.valeur(j).texte(formater);
            let ghost avant = valeurs;
            proof {
                valeurs = valeurs.push(valeur);
                let cles = self.caracteristiques.cles();
                let noms = cles.subrange(0, j + 1);
                let vus = crate::texte::vues(valeurs);
                assert(noms.drop_last() =~= cles.subrange(0, j as int));
                assert(vus.drop_last() =~= crate::texte::vues(avant));
                assert(noms.last() == cles[j as int]);
                assert(vus.last() == valeur@);
            }
            texte.append(self.caracteristiques.cle(j).as_str());
            texte.append(" -> ");
            texte.append(valeur.as_str());
            texte.append("\n");
            proof {
                let cles = self.caracteristiques.cles();
                let debut = entete_menage(self.index as int) + lignes_menage(
                    cles.subrange(0, j as int),
                    crate::texte::vues(avant),
                );
                assert(texte@ =~= entete_menage(self.index as int) + lignes_menage(
                    cles.subrange(0, j + 1),
                    crate::texte::vues(valeurs),
                ));
            }
            j += 1;
        }
        proof {
            assert(self.caracteristiques.cles().subrange(0, n as int)
                =~= self.caracteristiques.cles());
        }
        texte
    }

    /// A household without characteristics.
    pub fn new(index: i32) -> (r: Menage)
        ensures
            r.wf(),
            r.index == index,
            r.caracteristiques@ == Map::<Seq<char>, Caracteristique>::empty(),
            r.caracteristiques.cles() == Seq::<Seq<char>>::empty(),
    {
        Menage { index, caracteristiques: Dictionnaire::new() }
    }

    /// Compares the characteristics of `self` with those of `other_menage`, name by name
    /// in the order of `self`.
    ///
    /// Returns `(true, -1, "")` when `self` is compatible with `other_menage`. Otherwise
    /// returns `false`, the index of `self` and the first name of `self` on which
    /// `other_menage` is in default.
    pub fn compare_type_carac(&self, other_menage: &Menage) -> (r: (bool, i32, String))
        requires
            self.wf(),
            other_menage.wf(),
        ensures
            r.0 == self.compatible_avec(other_menage),
            r.0 ==> r.1 == -1 && r.2@ == Seq::<char>::empty(),
            !r.0 ==> {
                let cles = self.caracteristiques.cles();
                &&& r.1 == self.index
                &&& cles.contains(r.2@)
                &&& self.en_defaut(other_menage, r.2@)
                &&& forall|j: int|
                    0 <= j < cles.index_of(r.2@) ==> !self.en_defaut(other_menage, #[trigger] cles[j])
            },
    {
        proof {
            self.caracteristiques.lemma_vue();
        }
        let ghost cles = self.caracteristiques.cles();
        let n = self.caracteristiques.len();
        let mut i: usize = 0;
        while i < n
            invariant
                i <= n,
                n == cles.len(),
                cles == self.caracteristiques.cles(),
                self.wf(),
                other_menage.wf(),
                forall|j: int| 0 <= j < i ==> !self.en_defaut(other_menage, #[trigger] cles[j]),
            decreases n - i,
        {
            proof {
                self.caracteristiques.lemma_vue();
            }
            let nom = self.caracteristiques.cle(i);
            let valeur = self.caracteristiques.valeur(i);
            let compatible = match other_menage.caracteristiques.get(nom.as_str()) {
                Some(autre_valeur) => valeur.a_meme_type(autre_valeur),
                None => false,
            };
            if !compatible {
                proof {
                    assert(cles[i as int] == nom@);
                    assert(cles.contains(nom@));
                    assert(cles.index_of(nom@) == i);
                    assert(self.caracteristiques@.contains_key(nom@));
                    assert(self.en_defaut(other_menage, nom@));
                }
                return (false, self.index, nom.clone());
            }
            i += 1;
        }
        proof {
            self.caracteristiques.lemma_vue();
            assert forall|nom: Seq<char>| #[trigger]
                self.caracteristiques@.contains_key(nom) implies !self.en_defaut(
                other_menage,
                nom,
            ) by {
                let p = cles.index_of(nom);
                assert(0 <= p < cles.len() && cles[p] == nom);
            }
        }
        (true, -1, String::new())
    }
}

/// Compatibility carries over: what the first asks of the second, and the second of the
/// third, the first asks of the third.
pub proof fn lemme_compatibilite_transitive(a: &Menage, b: &Menage, c: &Menage)
    requires
        a.compatible_avec(b),
        b.compatible_avec(c),
    ensures
        a.compatible_avec(c),
{
    assert forall|nom: Seq<char>| #[trigger]
        a.caracteristiques@.contains_key(nom) implies !a.en_defaut(c, nom) by {
        assert(!a.en_defaut(b, nom));
        assert(b.caracteristiques@.contains_key(nom));
        assert(!b.en_defaut(c, nom));
    }
}

/// Every household is compatible with itself.
pub proof fn lemme_compatibilite_reflexive(a: &Menage)
    ensures
        a.compatible_avec(a),
{
}

} // verus!
