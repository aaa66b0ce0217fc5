//! Policies read from a configuration file.
//!
//! The file holds exactly three entries: the name of the policy, its long title and
//! its components.

use crate::adapters::input_adapters::PolicyAdapterError;
use crate::adapters::input_adapters::PolicyCreator;
use crate::entities::policy::Composante;
use crate::entities::policy::Policy;
use crate::entities::policy_input::PolicyInput;
use crate::errors::KalkotoError;
use crate::texte::accoler;
use crate::texte::egal_str;
use crate::KalkotoResult;
use vstd::prelude::*;
use vstd::string::StringExecFns;

verus! {

/// Builds a policy from what a configuration file declares.
#[derive(Debug)]
pub struct TomlInputAdapter {
    policy_name: Option<String>,
    policy_intitule: Option<String>,
    policy_composantes: Option<Vec<Composante>>,
}

/// What a policy file holds, as read and before any check: the names of its entries,
/// and what was found under each of the three entries of a policy. An entry is `None`
/// where the file has none of that name, and an `Err` with the reader's account where
/// it is not of the expected shape.
#[derive(Debug)]
pub struct LecturePolicy {
    pub clefs: Vec<String>,
    pub name: Option<Result<String, String>>,
    pub intitule_long: Option<Result<String, String>>,
    pub composantes: Option<Result<Vec<Composante>, String>>,
}

/// What is reported of a policy file without the entry `champ`.
pub open spec fn cause_champ_manquant(champ: Seq<char>) -> Seq<char> {
    "Le champ "@ + champ + " est manquant !"@
}

/// Whether `r` is what an entry of a policy file owes: what it holds; for a missing
/// entry, the failure that names it; for an entry of another shape, the failure that
/// carries the reader's account.
pub open spec fn est_champ_attendu<T>(
    champ: Seq<char>,
    lu: Option<Result<T, String>>,
    r: KalkotoResult<T>,
) -> bool {
    match lu {
        Some(Ok(valeur)) => r == Ok::<T, KalkotoError>(valeur),
        Some(Err(compte)) => r == Err::<T, KalkotoError>(
            KalkotoError::PolicyError(PolicyAdapterError::Interpret(compte)),
        ),
        None => r matches Err(KalkotoError::PolicyError(PolicyAdapterError::Generic(cause)))
            && cause@ == cause_champ_manquant(champ),
    }
}

/// Takes what was read under an entry of a policy file, or fails as the entry
/// deserves.
pub fn champ_lu<T>(champ: &str, lu: Option<Result<T, String>>) -> (r: KalkotoResult<T>)
    ensures
        est_champ_attendu(champ@, lu, r),
{
    match lu {
        Some(Ok(valeur)) => Ok(valeur),
        Some(Err(compte)) => Err(KalkotoError::PolicyError(PolicyAdapterError::Interpret(compte))),
        None => {
            let mut cause = accoler("Le champ ", champ);
            cause.append(" est manquant !");
            Err(KalkotoError::PolicyError(PolicyAdapterError::Generic(cause)))
        },
    }
}

/// Whether `clef` is one of the entries that a policy file may hold.
pub open spec fn clef_autorisee(clef: Seq<char>) -> bool {
    clef == "name"@ || clef == "intitule_long"@ || clef == "composante"@
}

/// Whether the entries of a policy file are as they must be: three of them, each
/// one that a policy file may hold.
pub open spec fn clefs_attendues(clefs: Seq<Seq<char>>) -> bool {
    clefs.len() == 3 && forall|i: int| 0 <= i < clefs.len() ==> clef_autorisee(#[trigger] clefs[i])
}

/// What is reported of an input file whose name does not end in `toml`.
pub open spec fn cause_extension() -> Seq<char> {
    "Le fichier indiqué n'est pas un TOML"@
}

/// What is reported of a file whose entries are not as they must be.
pub open spec fn cause_clefs() -> Seq<char> {
    "Le fichier d'input ne contient pas les clefs nécessaires"@
}

impl TomlInputAdapter {
    /// The name of the policy, once the adapter holds one.
    pub closed spec fn nom(&self) -> Option<String> {
        self.policy_name
    }

    /// The long title of the policy, once the adapter holds one.
    pub closed spec fn intitule(&self) -> Option<String> {
        self.policy_intitule
    }

    /// The components of the policy, once the adapter holds some.
    pub closed spec fn composantes(&self) -> Option<Vec<Composante>> {
        self.policy_composantes
    }

    /// An adapter that holds nothing.
    pub fn new() -> (r: Self)
        ensures
            r.nom() is None,
            r.intitule() is None,
            r.composantes() is None,
    {
        TomlInputAdapter { policy_name: None, policy_intitule: None, policy_composantes: None }
    }

    /// Checks the extension of the name of an input file: it must be `toml`.
    pub fn verifier_extension(extension: Option<&str>) -> (r: KalkotoResult<()>)
        ensures
            r is Ok <==> (extension matches Some(e) && e@ == "toml"@),
            r matches Err(e) ==> e matches KalkotoError::PolicyError(
                PolicyAdapterError::FileFormat(cause),
            ) && cause@ == cause_extension(),
    {
        match extension {
            Some(e) if egal_str(e, "toml") => Ok(()),
            _ => Err(
                KalkotoError::PolicyError(
                    PolicyAdapterError::FileFormat(
                        "Le fichier indiqué n'est pas un TOML".to_string(),
                    ),
                ),
            ),
        }
    }

    /// Checks the names of the entries of a policy file: there must be three, each
    /// one of `name`, `intitule_long` and `composante`.
    pub fn verifier_clefs(clefs: &Vec<String>) -> (r: KalkotoResult<()>)
        ensures
            r is Ok <==> clefs_attendues(crate::texte::vues(clefs@)),
            r matches Err(e) ==> e matches KalkotoError::PolicyError(
                PolicyAdapterError::Generic(cause),
            ) && cause@ == cause_clefs(),
    {
        let mut toutes_autorisees = true;
        let mut i: usize = 0;
        while i < clefs.len()
            invariant
                i <= clefs@.len(),
                toutes_autorisees == forall|j: int|
                    0 <= j < i ==> clef_autorisee(#[trigger] crate::texte::vues(clefs@)[j]),
            decreases clefs@.len() - i,
        {
            let clef = clefs[i].as_str();
            let autorisee = egal_str(clef, "name") || egal_str(clef, "intitule_long") || egal_str(
                clef,
                "composante",
            );
            proof {
                assert(crate::texte::vues(clefs@)[i as int] == clef@);
            }
            toutes_autorisees = toutes_autorisees && autorisee;
            i += 1;
        }
        let no_missing = clefs.len() == 3;
        if toutes_autorisees && no_missing {
            Ok(())
        } else {
            Err(
                KalkotoError::PolicyError(
                    PolicyAdapterError::Generic(
                        "Le fichier d'input ne contient pas les clefs nécessaires".to_string(),
                    ),
                ),
            )
        }
    }

    /// Checks what a policy file holds and takes out the name, the long title and
    /// the components of the policy. The names of the entries are checked first, then
    /// the three entries in that order.
    pub fn populate_from_lecture(self, lecture: LecturePolicy) -> (r: KalkotoResult<
        (String, String, Vec<Composante>),
    >)
        ensures
            if !clefs_attendues(crate::texte::vues(lecture.clefs@)) {
                r matches Err(KalkotoError::PolicyError(PolicyAdapterError::Generic(cause)))
                    && cause@ == cause_clefs()
            } else if !(lecture.name matches Some(Ok(_))) {
                r matches Err(e) && est_champ_attendu(
                    "name"@,
                    lecture.name,
                    Err::<String, KalkotoError>(e),
                )
            } else if !(lecture.intitule_long matches Some(Ok(_))) {
                r matches Err(e) && est_champ_attendu(
                    "intitule_long"@,
                    lecture.intitule_long,
                    Err::<String, KalkotoError>(e),
                )
            } else if !(lecture.composantes matches Some(Ok(_))) {
                r matches Err(e) && est_champ_attendu(
                    "composante"@,
                    lecture.composantes,
                    Err::<Vec<Composante>, KalkotoError>(e),
                )
            } else {
                r == Ok::<(String, String, Vec<Composante>), KalkotoError>(
                    (
                        lecture.name->Some_0->Ok_0,
                        lecture.intitule_long->Some_0->Ok_0,
                        lecture.composantes->Some_0->Ok_0,
                    ),
                )
            },
    {
        match TomlInputAdapter::verifier_clefs(&lecture.clefs) {
            Ok(_) => {},
            Err(e) => {
                return Err(e);
            },
        }
        let policy_name = match champ_lu("name", lecture.name) {
            Ok(policy_name) => policy_name,
            Err(e) => {
                return Err(e);
            },
        };
        let policy_intitule = match champ_lu("intitule_long", lecture.intitule_long) {
            Ok(policy_intitule) => policy_intitule,
            Err(e) => {
                return Err(e);
            },
        };
        let policy_composantes = match champ_lu("composante", lecture.composantes) {
            Ok(policy_composantes) => policy_composantes,
            Err(e) => {
                return Err(e);
            },
        };
        Ok((policy_name, policy_intitule, policy_composantes))
    }

    /// An adapter that holds the name, the long title and the components of a
    /// policy, whatever it held before.
    pub fn populate(self, name: String, intitule_long: String, composantes: Vec<Composante>) -> (r:
        Self)
        ensures
            r.nom() == Some(name),
            r.intitule() == Some(intitule_long),
            r.composantes() == Some(composantes),
    {
        TomlInputAdapter {
            policy_name: Some(name),
            policy_intitule: Some(intitule_long),
            policy_composantes: Some(composantes),
        }
    }
}

impl PolicyCreator for TomlInputAdapter {
    /// Builds the policy: sorts the components, gathers what they declare, and puts
    /// their rules together. Fails with `Trait` if the adapter does not hold a
    /// policy, and as `populate_python_functions` does on a policy without
    /// components.
    fn create_valid_policy_input(self) -> (r: KalkotoResult<PolicyInput>)
        ensures
            match (self.nom(), self.intitule(), self.composantes()) {
                (Some(name), Some(intitule_long), Some(composantes)) => if composantes@.len() > 0 {
                    &&& r matches Ok(input)
                    &&& input.valid_policy.name == name
                    &&& input.valid_policy.intitule_long == intitule_long
                    &&& crate::entities::policy::est_tri_stable(
                        composantes@,
                        input.valid_policy.composantes_ordonnees@,
                    )
                    &&& input.valid_policy.python_functions matches Some(texte)
                    &&& texte@ == crate::texte::joindre(
                        crate::entities::policy::sources(input.valid_policy.composantes_ordonnees@),
                        "\n"@,
                    )
                } else {
                    r matches Err(KalkotoError::PolicyError(PolicyAdapterError::Generic(cause)))
                        && cause@ == crate::entities::policy::cause_policy_vide()
                },
                _ => r == Err::<PolicyInput, KalkotoError>(
                    KalkotoError::PolicyError(PolicyAdapterError::Trait),
                ),
            },
    {
        match (self.policy_name, self.policy_intitule, self.policy_composantes) {
            (Some(name), Some(intitule_long), Some(composantes)) => {
                let policy = Policy::from_composantes(name, intitule_long, composantes);
                match policy.populate_python_functions() {
                    Ok(policy) => Ok(PolicyInput { valid_policy: policy }),
                    Err(e) => Err(e),
                }
            },
            _ => Err(KalkotoError::PolicyError(PolicyAdapterError::Trait)),
        }
    }
}

} // verus!
