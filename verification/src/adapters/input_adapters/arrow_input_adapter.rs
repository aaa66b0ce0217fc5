//! Households read from a table laid out by columns.
//!
//! Each column gives one characteristic, each row one household. A missing cell and a
//! column of a type that households cannot hold are both refused.

use crate::adapters::colonnes::Colonne;
use crate::adapters::colonnes::ColonneVue;
use crate::adapters::input_adapters::csv_input_adapter::est_erreur_lecture;
use crate::adapters::input_adapters::MenageListAdapterError;
use crate::adapters::input_adapters::MenageListCreator;
use crate::dictionnaire::Dictionnaire;
use crate::entities::menage::Caracteristique;
use crate::entities::menage::Menage;
use crate::entities::menage_input::est_validation_attendue;
use crate::entities::menage_input::menages_wf;
use crate::entities::menage_input::EmptyList;
use crate::entities::menage_input::MenageInput;
use crate::entities::menage_input::MenageInputBuilder;
use crate::errors::KalkotoError;
use crate::texte::accoler;
use crate::texte::egal_str;
use crate::KalkotoResult;
use vstd::prelude::*;

verus! {

/// Reads households from a table laid out by columns.
#[derive(Debug)]
pub struct ArrowInputAdapter {
    dataframe: Option<Vec<(String, Vec<Caracteristique>)>>,
    ncol: usize,
    nrow: usize,
}

/// What is reported of an input file whose name does not end in `arrow`, and of a
/// kind of input file that is not known.
pub open spec fn cause_extension() -> Seq<char> {
    "Le fichier indiqué n'est pas un Arrow dataframe"@
}

/// What is reported of a missing cell.
pub open spec fn cause_valeur_manquante() -> Seq<char> {
    "Valeur manquante (NA) !"@
}

/// The advice given with a missing cell.
pub open spec fn conseil_valeur_manquante() -> Seq<char> {
    "Vérifier la construction du dataframe R"@
}

/// What is reported of a column of a type that households cannot hold.
pub open spec fn cause_type_colonne() -> Seq<char> {
    "Le type de la colonne n'est pas supporté"@
}

/// What is reported of a table with more rows than households can be numbered.
pub open spec fn cause_trop_de_lignes() -> Seq<char> {
    "Le dataframe contient trop de ménages"@
}

/// What is reported of a column with fewer cells than the table has rows.
pub open spec fn cause_colonne_courte() -> Seq<char> {
    "Une colonne est plus courte que le dataframe"@
}

/// Whether `e` reports, with the text `cause`, a failure of the columnar reading.
pub open spec fn est_erreur_arrow(e: KalkotoError, cause: Seq<char>) -> bool {
    e matches KalkotoError::ListMenageError(MenageListAdapterError::Arrow(texte)) && texte@ == cause
}

fn erreur_arrow(cause: &str) -> (e: KalkotoError)
    ensures
        est_erreur_arrow(e, cause@),
{
    KalkotoError::ListMenageError(MenageListAdapterError::Arrow(cause.to_string()))
}

fn erreur_validation(index: i32, cause: String, conseil: &str) -> (e: KalkotoError)
    ensures
        est_erreur_lecture(e, index as int, cause@, conseil@),
{
    KalkotoError::ListMenageError(
        MenageListAdapterError::Validation {
            fault_index: index,
            cause,
            conseil: conseil.to_string(),
        },
    )
}

/// Whether the cell `i` of the column is missing.
pub open spec fn cellule_manquante(colonne: ColonneVue, i: int) -> bool {
    match colonne {
        ColonneVue::Int32(v) => v[i] is None,
        ColonneVue::Float64(v) => v[i] is None,
        ColonneVue::Utf8(v) => v[i] is None,
        ColonneVue::Autre => false,
    }
}

/// Whether `c` is the characteristic that the cell `i` of the column holds.
pub open spec fn cellule_lue(colonne: ColonneVue, i: int, c: Caracteristique) -> bool {
    match colonne {
        ColonneVue::Int32(v) => v[i] matches Some(x) && c == Caracteristique::Entier(x),
        ColonneVue::Float64(v) => v[i] matches Some(x) && c == Caracteristique::Numeric(x),
        ColonneVue::Utf8(v) => v[i] matches Some(x) && c matches Caracteristique::Textuel(mot)
            && mot@ == x,
        ColonneVue::Autre => false,
    }
}

/// Whether `e` is what a column that cannot be read owes: for a column of a type that
/// households cannot hold, the failure that says so; otherwise the failure of the
/// first missing cell among the first `nrow`, with its rank.
pub open spec fn est_erreur_extraction(e: KalkotoError, colonne: ColonneVue, nrow: int) -> bool {
    if colonne is Autre {
        est_erreur_arrow(e, cause_type_colonne())
    } else {
        exists|i: int|
            {
                &&& 0 <= i < nrow
                &&& #[trigger] cellule_manquante(colonne, i)
                &&& forall|j: int| 0 <= j < i ==> !cellule_manquante(colonne, j)
                &&& est_erreur_lecture(e, i, cause_valeur_manquante(), conseil_valeur_manquante())
            }
    }
}

/// Whether the first `nrow` cells of a column can be read: the column is of a type
/// that households can hold, and none of these cells is missing.
pub open spec fn cellules_lisibles(colonne: ColonneVue, nrow: int) -> bool {
    colonne !is Autre && forall|i: int| 0 <= i < nrow ==> !cellule_manquante(colonne, i)
}

/// The first `nrow` cells of a column, as characteristics. Fails on a column of a
/// type that households cannot hold, and on the first missing cell, with its rank.
pub fn extract_values_from_arrow(array: &Colonne, nrow: usize) -> (r: KalkotoResult<
    Vec<Caracteristique>,
>)
    requires
        array@ !is Autre ==> nrow <= array@.longueur(),
        nrow <= i32::MAX,
    ensures
        r is Ok <==> cellules_lisibles(array@, nrow as int),
        r matches Ok(valeurs) ==> valeurs@.len() == nrow && forall|i: int|
            0 <= i < nrow ==> cellule_lue(array@, i, #[trigger] valeurs@[i]),
        r matches Err(e) ==> est_erreur_extraction(e, array@, nrow as int),
{
    let mut valeurs: Vec<Caracteristique> = Vec::new();
    let mut i: usize = 0;
    match array {
        Colonne::Int32(v) => {
            while i < nrow
                invariant
                    i <= nrow,
                    nrow <= v@.len(),
                    nrow <= i32::MAX,
                    array@ == ColonneVue::Int32(v@),
                    valeurs@.len() == i,
                    forall|j: int| 0 <= j < i ==> !cellule_manquante(array@, j),
                    forall|j: int| 0 <= j < i ==> cellule_lue(array@, j, #[trigger] valeurs@[j]),
                decreases nrow - i,
            {
                match v[i] {
                    Some(x) => {
                        valeurs.push(Caracteristique::Entier(x));
                    },
                    None => {
                        proof {
                            assert(cellule_manquante(array@, i as int));
                        }
                        return Err(
                            erreur_validation(
                                i as i32,
                                "Valeur manquante (NA) !".to_string(),
                                "Vérifier la construction du dataframe R",
                            ),
                        );
                    },
                }
                i += 1;
            }
            Ok(valeurs)
        },
        Colonne::Float64(v) => {
            while i < nrow
                invariant
                    i <= nrow,
                    nrow <= v@.len(),
                    nrow <= i32::MAX,
                    array@ == ColonneVue::Float64(v@),
                    valeurs@.len() == i,
                    forall|j: int| 0 <= j < i ==> !cellule_manquante(array@, j),
                    forall|j: int| 0 <= j < i ==> cellule_lue(array@, j, #[trigger] valeurs@[j]),
                decreases nrow - i,
            {
                match v[i] {
                    Some(x) => {
                        valeurs.push(Caracteristique::Numeric(x));
                    },
                    None => {
                        proof {
                            assert(cellule_manquante(array@, i as int));
                        }
                        return Err(
                            erreur_validation(
                                i as i32,
                                "Valeur manquante (NA) !".to_string(),
                                "Vérifier la construction du dataframe R",
                            ),
                        );
                    },
                }
                i += 1;
            }
            Ok(valeurs)
        },
        Colonne::Utf8(v) => {
            while i < nrow
                invariant
                    i <= nrow,
                    nrow <= v@.len(),
                    nrow <= i32::MAX,
                    array@ == ColonneVue::Utf8(crate::adapters::colonnes::textes_vus(v@)),
                    valeurs@.len() == i,
                    forall|j: int| 0 <= j < i ==> !cellule_manquante(array@, j),
                    forall|j: int| 0 <= j < i ==> cellule_lue(array@, j, #[trigger] valeurs@[j]),
                decreases nrow - i,
            {
                match &v[i] {
                    Some(x) => {
                        valeurs.push(Caracteristique::Textuel(x.clone()));
                    },
                    None => {
                        proof {
                            assert(cellule_manquante(array@, i as int));
                        }
                        return Err(
                            erreur_validation(
                                i as i32,
                                "Valeur manquante (NA) !".to_string(),
                                "Vérifier la construction du dataframe R",
                            ),
                        );
                    },
                }
                i += 1;
            }
            Ok(valeurs)
        },
        Colonne::Autre => Err(erreur_arrow("Le type de la colonne n'est pas supporté")),
    }
}

/// What is reported of a household for which the column `nom` holds nothing.
pub open spec fn cause_lecture_composante(nom: Seq<char>) -> Seq<char> {
    "Problème à la lecture de la composante "@ + nom
}

/// Whether `menage` is the household of the row `i` of the columns: its index is
/// `i + 1`, and it binds the name of each column to the cell of that row, the last
/// column of a name standing for all columns of that name.
pub open spec fn menage_de_ligne(
    colonnes: Seq<(String, Vec<Caracteristique>)>,
    i: int,
    menage: Menage,
) -> bool {
    &&& menage.index == i + 1
    &&& menage.wf()
    &&& forall|nom: Seq<char>|
        menage.caracteristiques@.contains_key(nom) <==> exists|k: int|
            0 <= k < colonnes.len() && (#[trigger] colonnes[k]).0@ == nom
    &&& forall|k: int|
        0 <= k < colonnes.len() && (forall|j: int|
            k < j < colonnes.len() ==> colonnes[j].0@ != colonnes[k].0@)
            ==> menage.caracteristiques@[(#[trigger] colonnes[k]).0@] == colonnes[k].1@[i]
}

/// Whether every column holds at least `nrow` values.
pub open spec fn colonnes_pleines(colonnes: Seq<(String, Vec<Caracteristique>)>, nrow: int) -> bool {
    forall|k: int| 0 <= k < colonnes.len() ==> (#[trigger] colonnes[k]).1@.len() >= nrow
}

/// The households of a table held by columns: one for each of the first `nrow` rows.
/// Fails if a column holds fewer than `nrow` values, with the rank of the first row
/// that a column lacks and the name of the first such column.
pub fn menages_des_colonnes(colonnes: &Vec<(String, Vec<Caracteristique>)>, nrow: usize) -> (r:
    KalkotoResult<Vec<Menage>>)
    requires
        nrow < i32::MAX,
    ensures
        match r {
            Ok(menages) => {
                &&& colonnes_pleines(colonnes@, nrow as int)
                &&& menages@.len() == nrow
                &&& menages_wf(menages@)
                &&& forall|i: int|
                    0 <= i < nrow ==> menage_de_ligne(colonnes@, i, #[trigger] menages@[i])
            },
            Err(e) => exists|i: int, k: int|
                {
                    &&& 0 <= i < nrow
                    &&& 0 <= k < colonnes@.len()
                    &&& (#[trigger] colonnes@[k]).1@.len() <= i
                    &&& colonnes_pleines(colonnes@, i)
                    &&& forall|j: int| 0 <= j < k ==> (#[trigger] colonnes@[j]).1@.len() > i
                    &&& #[trigger] est_erreur_lecture(
                        e,
                        i,
                        cause_lecture_composante(colonnes@[k].0@),
                        Seq::<char>::empty(),
                    )
                },
        },
{
    let mut liste_menages: Vec<Menage> = Vec::new();
    let mut i: usize = 0;
    while i < nrow
        invariant
            i <= nrow,
            nrow < i32::MAX,
            colonnes_pleines(colonnes@, i as int),
            liste_menages@.len() == i,
            menages_wf(liste_menages@),
            forall|a: int| 0 <= a < i ==> menage_de_ligne(colonnes@, a, #[trigger] liste_menages@[a]),
        decreases nrow - i,
    {
        let mut caracteristiques: Dictionnaire<Caracteristique> = Dictionnaire::new();
        let mut k: usize = 0;
        while k < colonnes.len()
            invariant
                k <= colonnes@.len(),
                i < nrow,
                nrow < i32::MAX,
                colonnes_pleines(colonnes@, i as int),
                caracteristiques.wf(),
                forall|j: int| 0 <= j < k ==> (#[trigger] colonnes@[j]).1@.len() > i,
                forall|nom: Seq<char>|
                    caracteristiques@.contains_key(nom) <==> exists|a: int|
                        0 <= a < k && (#[trigger] colonnes@[a]).0@ == nom,
                forall|a: int|
                    0 <= a < k && (forall|b: int| a < b < k ==> colonnes@[b].0@ != colonnes@[a].0@)
                        ==> caracteristiques@[(#[trigger] colonnes@[a]).0@] == colonnes@[a].1@[i as int],
            decreases colonnes@.len() - k,
        {
            let nom = &colonnes[k].0;
            let valeurs = &colonnes[k].1;
            if i >= valeurs.len() {
                let cause = accoler("Problème à la lecture de la composante ", nom.as_str());
                let e = erreur_validation(i as i32, cause, "");
                proof {
                    reveal_strlit("");
                    assert(""@ =~= Seq::<char>::empty());
                    assert(est_erreur_lecture(
                        e,
                        i as int,
                        cause_lecture_composante(colonnes@[k as int].0@),
                        Seq::<char>::empty(),
                    ));
                }
                return Err(e);
            }
            let valeur = valeurs[i].clone();
            let ghost avant = caracteristiques;
            caracteristiques.insert(nom.clone(), valeur);
            proof {
                assert forall|n: Seq<char>|
                    caracteristiques@.contains_key(n) <==> exists|a: int|
                        0 <= a < k + 1 && (#[trigger] colonnes@[a]).0@ == n by {
                    if caracteristiques@.contains_key(n) {
                        if n == colonnes@[k as int].0@ {
                        } else {
                            assert(avant@.contains_key(n));
                            let a = choose|a: int| 0 <= a < k && (#[trigger] colonnes@[a]).0@ == n;
                            assert(0 <= a < k + 1 && colonnes@[a].0@ == n);
                        }
                    }
                    if exists|a: int| 0 <= a < k + 1 && (#[trigger] colonnes@[a]).0@ == n {
                        let a = choose|a: int| 0 <= a < k + 1 && (#[trigger] colonnes@[a]).0@ == n;
                        if a < k {
                            assert(avant@.contains_key(n));
                        }
                    }
                }
                assert forall|a: int|
                    0 <= a < k + 1 && (forall|b: int|
                        a < b < k + 1 ==> colonnes@[b].0@ != colonnes@[a].0@) implies caracteristiques@[(
                #[trigger] colonnes@[a]).0@] == colonnes@[a].1@[i as int] by {
                    if a < k {
                        assert(colonnes@[k as int].0@ != colonnes@[a].0@);
                        assert forall|b: int| a < b < k implies colonnes@[b].0@
                            != colonnes@[a].0@ by {}
                        assert(caracteristiques@[colonnes@[a].0@] == avant@[colonnes@[a].0@]);
                    }
                }
            }
            k += 1;
        }
        let menage = Menage { index: (i + 1) as i32, caracteristiques };
        proof {
            assert(menage_de_ligne(colonnes@, i as int, menage));
            assert forall|k: int| 0 <= k < colonnes@.len() implies (#[trigger] colonnes@[k]).1@.len()
                >= i + 1 by {}
        }
        liste_menages.push(menage);
        i += 1;
    }
    Ok(liste_menages)
}

/// Whether a column of `nrow` rows can be read: it is of a type that households can
/// hold, it has at least `nrow` cells, and none of the first `nrow` is missing.
pub open spec fn colonne_lisible(colonne: ColonneVue, nrow: int) -> bool {
    cellules_lisibles(colonne, nrow) && colonne.longueur() >= nrow
}

/// Whether `e` is what a column of `nrow` rows that cannot be read owes: for a column
/// that households could hold but that has fewer than `nrow` cells, the failure that
/// says so; otherwise what `est_erreur_extraction` describes.
pub open spec fn est_erreur_colonne(e: KalkotoError, colonne: ColonneVue, nrow: int) -> bool {
    if colonne !is Autre && colonne.longueur() < nrow {
        est_erreur_arrow(e, cause_colonne_courte())
    } else {
        est_erreur_extraction(e, colonne, nrow)
    }
}

impl ArrowInputAdapter {
    /// The rows of the table held can be numbered, and each of its columns holds a
    /// value for each row.
    #[verifier::type_invariant]
    spec fn table_coherente(self) -> bool {
        self.dataframe matches Some(dataframe) ==> self.nrow < i32::MAX && colonnes_pleines(
            dataframe@,
            self.nrow as int,
        )
    }

    /// Whether the adapter holds a table.
    pub closed spec fn peuple(&self) -> bool {
        self.dataframe is Some
    }

    /// The values of each column of the table held, with its name.
    pub closed spec fn colonnes(&self) -> Seq<(String, Vec<Caracteristique>)> {
        self.dataframe->Some_0@
    }

    /// The number of rows of the table held.
    pub closed spec fn nb_lignes(&self) -> nat {
        self.nrow as nat
    }

    /// An adapter that holds no table.
    pub fn new() -> (r: Self)
        ensures
            !r.peuple(),
    {
        ArrowInputAdapter { dataframe: None, ncol: 0, nrow: 0 }
    }

    /// Checks the extension of the name of an input file: it must be `arrow`.
    pub fn verifier_extension(extension: Option<&str>) -> (r: KalkotoResult<()>)
        ensures
            r is Ok <==> (extension matches Some(e) && e@ == "arrow"@),
            r matches Err(e) ==> e matches KalkotoError::ListMenageError(
                MenageListAdapterError::FileFormat(cause),
            ) && cause@ == cause_extension(),
    {
        match extension {
            Some(e) if egal_str(e, "arrow") => Ok(()),
            _ => Err(
                KalkotoError::ListMenageError(
                    MenageListAdapterError::FileFormat(
                        "Le fichier indiqué n'est pas un Arrow dataframe".to_string(),
                    ),
                ),
            ),
        }
    }

    /// Takes a table of `nrow` rows, given as named columns, and keeps the values of
    /// its columns.
    ///
    /// Fails on a table with more rows than households can be numbered; otherwise on
    /// the first column that cannot be read: one with fewer than `nrow` cells, one of
    /// a type that households cannot hold, or one with a missing cell.
    pub fn populate(self, colonnes: &Vec<(String, Colonne)>, nrow: usize) -> (r: KalkotoResult<Self>)
        ensures
            r is Ok <==> nrow < i32::MAX && forall|k: int|
                0 <= k < colonnes@.len() ==> colonne_lisible((#[trigger] colonnes@[k]).1@, nrow as int),
            r matches Ok(adapter) ==> {
                &&& adapter.peuple()
                &&& adapter.nb_lignes() == nrow
                &&& adapter.colonnes().len() == colonnes@.len()
                &&& forall|k: int|
                    0 <= k < colonnes@.len() ==> {
                        &&& (#[trigger] adapter.colonnes()[k]).0@ == colonnes@[k].0@
                        &&& adapter.colonnes()[k].1@.len() == nrow
                        &&& forall|i: int|
                            0 <= i < nrow ==> cellule_lue(
                                colonnes@[k].1@,
                                i,
                                #[trigger] adapter.colonnes()[k].1@[i],
                            )
                    }
            },
            r matches Err(e) ==> if nrow >= i32::MAX {
                est_erreur_arrow(e, cause_trop_de_lignes())
            } else {
                exists|k: int|
                    {
                        &&& 0 <= k < colonnes@.len()
                        &&& !colonne_lisible((#[trigger] colonnes@[k]).1@, nrow as int)
                        &&& forall|j: int|
                            0 <= j < k ==> colonne_lisible((#[trigger] colonnes@[j]).1@, nrow as int)
                        &&& est_erreur_colonne(e, colonnes@[k].1@, nrow as int)
                    }
            },
    {
        if nrow >= 2147483647 {
            return Err(erreur_arrow("Le dataframe contient trop de ménages"));
        }
        let mut column_extract: Vec<(String, Vec<Caracteristique>)> = Vec::new();
        let mut k: usize = 0;
        while k < colonnes.len()
            invariant
                k <= colonnes@.len(),
                nrow < i32::MAX,
                column_extract@.len() == k,
                forall|a: int|
                    0 <= a < k ==> colonne_lisible((#[trigger] colonnes@[a]).1@, nrow as int),
                forall|a: int|
                    0 <= a < k ==> {
                        &&& (#[trigger] column_extract@[a]).0@ == colonnes@[a].0@
                        &&& column_extract@[a].1@.len() == nrow
                        &&& forall|i: int|
                            0 <= i < nrow ==> cellule_lue(
                                colonnes@[a].1@,
                                i,
                                #[trigger] column_extract@[a].1@[i],
                            )
                    },
            decreases colonnes@.len() - k,
        {
            let colonne = &colonnes[k].1;
            let est_autre = match colonne {
                Colonne::Autre => true,
                _ => false,
            };
            if !est_autre && colonne.len() < nrow {
                let e = erreur_arrow("Une colonne est plus courte que le dataframe");
                proof {
                    assert(!colonne_lisible(colonnes@[k as int].1@, nrow as int));
                    assert(est_erreur_colonne(e, colonnes@[k as int].1@, nrow as int));
                }
                return Err(e);
            }
            let valeurs = match extract_values_from_arrow(colonne, nrow) {
                Ok(valeurs) => valeurs,
                Err(e) => {
                    proof {
                        assert(!colonne_lisible(colonnes@[k as int].1@, nrow as int));
                        assert(est_erreur_colonne(e, colonnes@[k as int].1@, nrow as int));
                    }
                    return Err(e);
                },
            };
            column_extract.push((colonnes[k].0.clone(), valeurs));
            k += 1;
        }
        proof {
            assert forall|a: int| 0 <= a < column_extract@.len() implies (
            #[trigger] column_extract@[a]).1@.len() >= nrow by {}
        }
        Ok(ArrowInputAdapter { dataframe: Some(column_extract), ncol: colonnes.len(), nrow })
    }
}

impl MenageListCreator for ArrowInputAdapter {
    /// Builds one household for each row of the table held, validates them and
    /// yields them. Fails with `Uninitialized` if no table is held, and as
    /// validation does.
    fn create_valid_menage_input(self, empty_menage_input: MenageInputBuilder<EmptyList>) -> (r:
        KalkotoResult<MenageInput>)
        ensures
            if self.peuple() {
                exists|liste: Seq<Menage>|
                    {
                        &&& liste.len() == self.nb_lignes()
                        &&& forall|i: int|
                            0 <= i < liste.len() ==> menage_de_ligne(
                                self.colonnes(),
                                i,
                                #[trigger] liste[i],
                            )
                        &&& #[trigger] est_validation_attendue(liste, r)
                    }
            } else {
                r == Err::<MenageInput, KalkotoError>(
                    KalkotoError::ListMenageError(MenageListAdapterError::Uninitialized),
                )
            },
    {
        proof {
            use_type_invariant(&self);
        }
        match self.dataframe {
            Some(dataframe) => {
                let liste_menages = match menages_des_colonnes(&dataframe, self.nrow) {
                    Ok(liste_menages) => liste_menages,
                    Err(e) => {
                        proof {
                            assert(false);
                        }
                        return Err(e);
                    },
                };
                let r = empty_menage_input.valider(liste_menages.as_slice());
                proof {
                    assert(est_validation_attendue(liste_menages@, r));
                }
                r
            },
            None => Err(KalkotoError::ListMenageError(MenageListAdapterError::Uninitialized)),
        }
    }
}

} // verus!
