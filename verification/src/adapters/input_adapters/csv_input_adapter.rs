//! Households read from delimited text.
//!
//! The first record holds the names of the characteristics; each record after it is a
//! household, whose fields are typed one by one: an integer where the field writes
//! one, else a real number where it can be read as one, else a text.

use crate::adapters::input_adapters::MenageListAdapterError;
use crate::adapters::input_adapters::MenageListCreator;
use crate::dictionnaire::Dictionnaire;
use crate::dictionnaire::EnsembleNoms;
use crate::entities::menage::Caracteristique;
use crate::entities::menage::Menage;
use crate::entities::menage_input::est_validation_attendue;
use crate::entities::menage_input::menages_wf;
use crate::entities::menage_input::EmptyList;
use crate::entities::menage_input::MenageInput;
use crate::entities::menage_input::MenageInputBuilder;
use crate::errors::KalkotoError;
use crate::reel::Reel;
use crate::texte::egal_str;
use crate::texte::vues;
use crate::KalkotoResult;
use vstd::prelude::*;

verus! {

/// The delimiter between the fields of a record: a semicolon.
pub const SEPARATEUR: u8 = 59;

/// The records that the delimited-text reader finds in `octets`, in order; a record
/// that the reader rejects stands as `None`.
pub uninterp spec fn csv_lu(octets: Seq<u8>, delimiteur: u8, entetes: bool) -> Seq<
    Option<Seq<Seq<char>>>,
>;

/// The records of a reading, each as the views of its fields.
pub open spec fn enregistrements_vus(v: Seq<Option<Vec<String>>>) -> Seq<Option<Seq<Seq<char>>>> {
    Seq::new(
        v.len(),
        |i: int|
            match v[i] {
                Some(champs) => Some(vues(champs@)),
                None => None,
            },
    )
}

/// Walks `csv::Reader::into_records` to its end, on a reader that
/// `csv::ReaderBuilder` makes over `octets` with the given delimiter and the given
/// treatment of the first record, and copies out the fields of each record.
///
/// Trusted: the records found, and which of them the reader rejects, depend on the
/// bytes, the delimiter and the treatment of the first record alone.
#[verifier::external_body]
fn lire_enregistrements(octets: &[u8], delimiteur: u8, entetes: bool) -> (r: Vec<
    Option<Vec<String>>,
>)
    ensures
        enregistrements_vus(r@) == csv_lu(octets@, delimiteur, entetes),
{
    csv::ReaderBuilder::new()
        .delimiter(delimiteur)
        .has_headers(entetes)
        .from_reader(octets)
        .into_records()
        .map(|r| r.ok().map(|rec| rec.iter().map(|s| s.to_string()).collect()))
        .collect()
}

/// Whether `e` is the validation failure with the given index, cause and advice.
pub open spec fn est_erreur_lecture(
    e: KalkotoError,
    index: int,
    cause: Seq<char>,
    conseil: Seq<char>,
) -> bool {
    &&& e matches KalkotoError::ListMenageError(
        MenageListAdapterError::Validation { fault_index, cause: c, conseil: a },
    )
    &&& fault_index == index
    &&& c@ == cause
    &&& a@ == conseil
}

fn erreur_lecture(index: i32, cause: &str, conseil: &str) -> (e: KalkotoError)
    ensures
        est_erreur_lecture(e, index as int, cause@, conseil@),
{
    KalkotoError::ListMenageError(
        MenageListAdapterError::Validation {
            fault_index: index,
            cause: cause.to_string(),
            conseil: conseil.to_string(),
        },
    )
}

/// Whether the reader of real numbers accepts every text.
pub open spec fn lecteur_total<L: Fn(&str) -> Option<Reel>>(lire_reel: &L) -> bool {
    forall|texte: &str| call_requires(lire_reel, (texte,))
}

/// Whether `c` can be what the field `texte` stands for.
pub open spec fn champ_lu<L: Fn(&str) -> Option<Reel>>(
    lire_reel: &L,
    texte: Seq<char>,
    c: Caracteristique,
) -> bool {
    exists|source: &str, reel: Option<Reel>|
        source@ == texte && #[trigger] call_ensures(lire_reel, (source,), reel)
            && Caracteristique::lu_de(texte, reel, c)
}

/// Whether `menage` can be the household of the record `champs` under the names
/// `noms`: fields and names are paired as far as both go, each field is typed, and a
/// name that comes several times keeps its last field. `rang` is the place of the
/// record among the households, counted from 0; the index of the household is one
/// more.
pub open spec fn menage_lu<L: Fn(&str) -> Option<Reel>>(
    lire_reel: &L,
    noms: Seq<Seq<char>>,
    champs: Seq<Seq<char>>,
    rang: int,
    menage: Menage,
) -> bool {
    let n = if noms.len() <= champs.len() {
        noms.len()
    } else {
        champs.len()
    };
    &&& menage.index == rang + 1
    &&& menage.wf()
    &&& forall|nom: Seq<char>|
        menage.caracteristiques@.contains_key(nom) <==> exists|k: int|
            0 <= k < n && #[trigger] noms[k] == nom
    &&& forall|k: int|
        0 <= k < n && (forall|j: int| k < j < n ==> noms[j] != noms[k]) ==> champ_lu(
            lire_reel,
            champs[k],
            menage.caracteristiques@[#[trigger] noms[k]],
        )
}

/// What is reported of a first record that the reader rejects.
pub open spec fn cause_entetes() -> Seq<char> {
    "Problème à la lecture du header du CSV"@
}

/// What is reported of a household record that the reader rejects.
pub open spec fn cause_ligne() -> Seq<char> {
    "Les caractéristiques de ces ménages semblent invalides"@
}

/// What is reported of an input with more households than indices.
pub open spec fn cause_trop_de_lignes() -> Seq<char> {
    "Le fichier contient trop de ménages"@
}

/// The advice given with every failure of the reading.
pub open spec fn conseil_lecture() -> Seq<char> {
    "Vérifier le fichier CSV"@
}

/// Whether `r` is what the records `lus` owe.
///
/// Without any record: no name and no household. With a first record that the reader
/// rejected: the failure of the header, with index -1. With more records than
/// households can be numbered: a failure with index -1. With a household record that
/// the reader rejected: the failure of the first such record, with its rank among the
/// households, counted from 0. Otherwise the names of the first record, in its order,
/// and one household for each record after it.
pub open spec fn est_lecture_attendue<L: Fn(&str) -> Option<Reel>>(
    lire_reel: &L,
    lus: Seq<Option<Seq<Seq<char>>>>,
    r: KalkotoResult<(EnsembleNoms, Vec<Menage>)>,
) -> bool {
    if lus.len() == 0 {
        r matches Ok(lu) && lu.0@ == Set::<Seq<char>>::empty() && lu.0.wf() && lu.1@.len() == 0
    } else if lus[0] is None {
        r matches Err(e) && est_erreur_lecture(e, -1, cause_entetes(), conseil_lecture())
    } else if lus.len() - 1 > i32::MAX {
        r matches Err(e) && est_erreur_lecture(e, -1, cause_trop_de_lignes(), conseil_lecture())
    } else if exists|i: int| 1 <= i < lus.len() && (#[trigger] lus[i]) is None {
        r matches Err(e) && exists|i: int|
            {
                &&& 1 <= i < lus.len()
                &&& (#[trigger] lus[i]) is None
                &&& forall|j: int| 1 <= j < i ==> (#[trigger] lus[j]) is Some
                &&& est_erreur_lecture(e, i - 1, cause_ligne(), conseil_lecture())
            }
    } else {
        &&& r matches Ok(lu)
        &&& lu.0.wf()
        &&& lu.0@ == lus[0]->Some_0.to_set()
        &&& menages_wf(lu.1@)
        &&& lu.1@.len() == lus.len() - 1
        &&& forall|i: int|
            0 <= i < lu.1@.len() ==> menage_lu(
                lire_reel,
                lus[0]->Some_0,
                lus[i + 1]->Some_0,
                i,
                #[trigger] lu.1@[i],
            )
    }
}

/// Builds the names and the households from the records of a reading.
pub fn menages_des_enregistrements<L: Fn(&str) -> Option<Reel>>(
    enregistrements: &Vec<Option<Vec<String>>>,
    lire_reel: &L,
) -> (r: KalkotoResult<(EnsembleNoms, Vec<Menage>)>)
    requires
        lecteur_total(lire_reel),
    ensures
        est_lecture_attendue(lire_reel, enregistrements_vus(enregistrements@), r),
{
    let ghost lus = enregistrements_vus(enregistrements@);
    let mut set = EnsembleNoms::new();
    let mut vec_menage: Vec<Menage> = Vec::new();
    if enregistrements.len() == 0 {
        return Ok((set, vec_menage));
    }
    let headers_row = match &enregistrements[0] {
        Some(headers) => headers,
        None => {
            proof {
                assert(lus[0] is None);
            }
            return Err(
                erreur_lecture(
                    -1,
                    "Problème à la lecture du header du CSV",
                    "Vérifier le fichier CSV",
                ),
            );
        },
    };
    proof {
        assert(lus[0] == Some(vues(headers_row@)));
    }
    let ghost noms = vues(headers_row@);
    if enregistrements.len() - 1 > 2147483647 {
        return Err(
            erreur_lecture(-1, "Le fichier contient trop de ménages", "Vérifier le fichier CSV"),
        );
    }
    let mut i: usize = 1;
    while i < enregistrements.len()
        invariant
            1 <= i <= enregistrements@.len(),
            enregistrements@.len() - 1 <= i32::MAX,
            lecteur_total(lire_reel),
            lus == enregistrements_vus(enregistrements@),
            lus[0] == Some(noms),
            noms == vues(headers_row@),
            vec_menage@.len() == i - 1,
            menages_wf(vec_menage@),
            forall|j: int| 1 <= j < i ==> (#[trigger] lus[j]) is Some,
            forall|j: int|
                0 <= j < i - 1 ==> menage_lu(
                    lire_reel,
                    noms,
                    lus[j + 1]->Some_0,
                    j,
                    #[trigger] vec_menage@[j],
                ),
        decreases enregistrements@.len() - i,
    {
        let row = match &enregistrements[i] {
            Some(row) => row,
            None => {
                proof {
                    assert(lus[i as int] is None);
                }
                return Err(
                    erreur_lecture(
                        (i - 1) as i32,
                        "Les caractéristiques de ces ménages semblent invalides",
                        "Vérifier le fichier CSV",
                    ),
                );
            },
        };
        proof {
            assert(lus[i as int] == Some(vues(row@)));
        }
        let ghost champs = vues(row@);
        let n = if headers_row.len() <= row.len() {
            headers_row.len()
        } else {
            row.len()
        };
        let mut caracteristiques: Dictionnaire<Caracteristique> = Dictionnaire::new();
        let mut k: usize = 0;
        while k < n
            invariant
                k <= n,
                n <= headers_row@.len(),
                n <= row@.len(),
                lecteur_total(lire_reel),
                noms == vues(headers_row@),
                champs == vues(row@),
                caracteristiques.wf(),
                forall|nom: Seq<char>|
                    caracteristiques@.contains_key(nom) <==> exists|a: int|
                        0 <= a < k && #[trigger] noms[a] == nom,
                forall|a: int|
                    0 <= a < k && (forall|b: int| a < b < k ==> noms[b] != noms[a]) ==> champ_lu(
                        lire_reel,
                        champs[a],
                        caracteristiques@[#[trigger] noms[a]],
                    ),
            decreases n - k,
        {
            let texte = row[k].as_str();
            let reel = lire_reel(texte);
            let caracteristique = Caracteristique::from_lectures(texte, reel);
            let nom = headers_row[k].clone();
            let ghost avant = caracteristiques;
            proof {
                assert(nom@ == noms[k as int]);
                assert(texte@ == champs[k as int]);
                assert(champ_lu(lire_reel, champs[k as int], caracteristique));
            }
            caracteristiques.insert(nom, caracteristique);
            proof {
                assert forall|nom: Seq<char>|
                    caracteristiques@.contains_key(nom) <==> exists|a: int|
                        0 <= a < k + 1 && #[trigger] noms[a] == nom by {
                    if caracteristiques@.contains_key(nom) {
                        if nom == noms[k as int] {
                        } else {
                            assert(avant@.contains_key(nom));
                            let a = choose|a: int| 0 <= a < k && #[trigger] noms[a] == nom;
                            assert(0 <= a < k + 1 && noms[a] == nom);
                        }
                    }
                    if exists|a: int| 0 <= a < k + 1 && #[trigger] noms[a] == nom {
                        let a = choose|a: int| 0 <= a < k + 1 && #[trigger] noms[a] == nom;
                        if a < k {
                            assert(avant@.contains_key(nom));
                        }
                    }
                }
                assert forall|a: int|
                    0 <= a < k + 1 && (forall|b: int|
                        a < b < k + 1 ==> noms[b] != noms[a]) implies champ_lu(
                    lire_reel,
                    champs[a],
                    caracteristiques@[#[trigger] noms[a]],
                ) by {
                    if a < k {
                        assert(noms[k as int] != noms[a]);
                        assert forall|b: int| a < b < k implies noms[b] != noms[a] by {}
                        assert(caracteristiques@[noms[a]] == avant@[noms[a]]);
                    }
                }
            }
            k += 1;
        }
        let menage = Menage { index: i as i32, caracteristiques };
        proof {
            assert(menage_lu(lire_reel, noms, champs, i - 1, menage));
        }
        vec_menage.push(menage);
        i += 1;
    }
    let mut k: usize = 0;
    proof {
        assert(set@ =~= noms.subrange(0, 0).to_set());
    }
    while k < headers_row.len()
        invariant
            k <= headers_row@.len(),
            noms == vues(headers_row@),
            set.wf(),
            set@ == noms.subrange(0, k as int).to_set(),
        decreases headers_row@.len() - k,
    {
        let nom = headers_row[k].clone();
        proof {
            assert(nom@ == noms[k as int]);
            let vus = noms.subrange(0, k as int);
            let vus_suite = noms.subrange(0, k + 1);
            assert forall|c: Seq<char>|
                vus_suite.to_set().contains(c) <==> vus.to_set().insert(nom@).contains(c) by {
                if vus_suite.contains(c) {
                    let p = vus_suite.index_of(c);
                    assert(vus_suite[p] == c);
                    if p < k {
                        assert(vus[p] == c);
                    }
                }
                if vus.contains(c) {
                    let p = vus.index_of(c);
                    assert(vus[p] == c);
                    assert(vus_suite[p] == c);
                }
                if c == nom@ {
                    assert(vus_suite[k as int] == c);
                }
            }
            assert(vus_suite.to_set() =~= vus.to_set().insert(nom@));
        }
        set.insert(nom);
        k += 1;
    }
    proof {
        assert(noms.subrange(0, k as int) =~= noms);
        assert(forall|j: int| 1 <= j < lus.len() ==> (#[trigger] lus[j]) is Some);
    }
    Ok((set, vec_menage))
}

/// Reads households from delimited text.
#[derive(Debug)]
pub struct CsvInputAdapter {
    set_caracteristiques: Option<EnsembleNoms>,
    liste_menages: Option<Vec<Menage>>,
}

impl CsvInputAdapter {
    /// The households held are well-formed.
    #[verifier::type_invariant]
    spec fn menages_bien_formes(self) -> bool {
        self.liste_menages matches Some(liste) ==> menages_wf(liste@)
    }

    /// The names read, once the adapter holds a reading.
    pub closed spec fn set(&self) -> Option<EnsembleNoms> {
        self.set_caracteristiques
    }

    /// The households read, once the adapter holds a reading.
    pub closed spec fn liste(&self) -> Option<Seq<Menage>> {
        match self.liste_menages {
            Some(liste) => Some(liste@),
            None => None,
        }
    }

    /// An adapter that holds no reading.
    pub fn new() -> (r: Self)
        ensures
            r.set() is None,
            r.liste() is None,
    {
        CsvInputAdapter { set_caracteristiques: None, liste_menages: None }
    }

    /// Checks the extension of the name of an input file: it must be `csv`.
    pub fn verifier_extension(extension: Option<&str>) -> (r: KalkotoResult<()>)
        ensures
            r is Ok <==> (extension matches Some(e) && e@ == "csv"@),
            r matches Err(e) ==> e matches KalkotoError::ListMenageError(
                MenageListAdapterError::FileFormat(cause),
            ) && cause@ == cause_extension(),
    {
        match extension {
            Some(e) if egal_str(e, "csv") => Ok(()),
            _ => Err(
                KalkotoError::ListMenageError(
                    MenageListAdapterError::FileFormat(
                        "Le fichier indiqué n'est pas un CSV".to_string(),
                    ),
                ),
            ),
        }
    }

    /// Reads the names of the characteristics and the households from delimited text,
    /// fields being set apart by `SEPARATEUR`. `lire_reel` reads a field as a real
    /// number, where it can.
    pub fn populate_from_buf<L: Fn(&str) -> Option<Reel>>(self, input_buf: &[u8], lire_reel: &L) -> (r:
        KalkotoResult<(EnsembleNoms, Vec<Menage>)>)
        requires
            lecteur_total(lire_reel),
        ensures
            est_lecture_attendue(lire_reel, csv_lu(input_buf@, SEPARATEUR, false), r),
    {
        let enregistrements = lire_enregistrements(input_buf, SEPARATEUR, false);
        menages_des_enregistrements(&enregistrements, lire_reel)
    }

    /// Reads delimited text and keeps the reading in a new adapter.
    pub fn populate_from_contents<L: Fn(&str) -> Option<Reel>>(
        self,
        input_buf: &[u8],
        lire_reel: &L,
    ) -> (r: KalkotoResult<Self>)
        requires
            lecteur_total(lire_reel),
        ensures
            match r {
                Ok(adapter) => {
                    &&& adapter.set() matches Some(set)
                    &&& adapter.liste() matches Some(liste)
                    &&& exists|lu: (EnsembleNoms, Vec<Menage>)|
                        lu.0 == set && lu.1@ == liste && #[trigger] est_lecture_attendue(
                            lire_reel,
                            csv_lu(input_buf@, SEPARATEUR, false),
                            Ok::<(EnsembleNoms, Vec<Menage>), KalkotoError>(lu),
                        )
                },
                Err(e) => est_lecture_attendue(
                    lire_reel,
                    csv_lu(input_buf@, SEPARATEUR, false),
                    Err::<(EnsembleNoms, Vec<Menage>), KalkotoError>(e),
                ),
            },
    {
        match self.populate_from_buf(input_buf, lire_reel) {
            Ok(lu) => {
                let ghost temoin = lu;
                let (set_caracteristiques, liste_menages) = lu;
                proof {
                    assert(temoin.0 == set_caracteristiques && temoin.1@ == liste_menages@);
                    assert(menages_wf(liste_menages@));
                }
                Ok(
                    CsvInputAdapter {
                        set_caracteristiques: Some(set_caracteristiques),
                        liste_menages: Some(liste_menages),
                    },
                )
            },
            Err(e) => Err(e),
        }
    }
}

/// What is reported of an input file whose name does not end in `csv`.
pub open spec fn cause_extension() -> Seq<char> {
    "Le fichier indiqué n'est pas un CSV"@
}

/// What is reported of an adapter that is asked for households before it read any.
pub open spec fn cause_sans_lecture() -> Seq<char> {
    "Impossible de construire une liste valide de ménages à partir de fichier CSV"@
}

/// The advice given with that failure.
pub open spec fn conseil_sans_lecture() -> Seq<char> {
    "Reprendre l'ordre des étapes de construction d'un input ménages"@
}

impl MenageListCreator for CsvInputAdapter {
    /// Validates the households read and yields them. Fails if nothing was read, and
    /// as validation does.
    fn create_valid_menage_input(self, empty_menage_input: MenageInputBuilder<EmptyList>) -> (r:
        KalkotoResult<MenageInput>)
        ensures
            match (self.set(), self.liste()) {
                (Some(_), Some(liste)) => est_validation_attendue(liste, r),
                _ => r matches Err(e) && est_erreur_lecture(
                    e,
                    -1,
                    cause_sans_lecture(),
                    conseil_sans_lecture(),
                ),
            },
    {
        proof {
            use_type_invariant(&self);
        }
        match (self.set_caracteristiques, self.liste_menages) {
            (Some(_), Some(liste_menages)) => empty_menage_input.valider(liste_menages.as_slice()),
            (_, _) => Err(
                erreur_lecture(
                    -1,
                    "Impossible de construire une liste valide de ménages à partir de fichier CSV",
                    "Reprendre l'ordre des étapes de construction d'un input ménages",
                ),
            ),
        }
    }
}

} // verus!
