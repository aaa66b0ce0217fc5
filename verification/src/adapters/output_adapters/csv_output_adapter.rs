//! Results laid out as delimited text.
//!
//! A table has a header row and one row for each household. Its first column is the
//! rank of the household, counted from 1; the others bear the names of the components
//! of the policy and of the characteristics of the households, in ascending order.
//! Where a component and a characteristic share a name, the result is shown.

use crate::adapters::output_adapters::OutputAdapterError;
use crate::dictionnaire::Dictionnaire;
use crate::dictionnaire::EnsembleNoms;
use crate::entities::menage::formateur_total;
use crate::entities::menage::Caracteristique;
use crate::entities::menage::Menage;
use crate::entities::menage_input::menages_wf;
use crate::entities::policy::tables_wf;
use crate::entities::policy::Composante;
use crate::entities::simulator::SimulationError;
use crate::entities::simulator::SimulatorBuilder;
use crate::entities::simulator::ValidBaselineInput;
use crate::entities::simulator::ValidMenageInput;
use crate::entities::simulator::ValidVarianteInput;
use crate::errors::KalkotoError;
use crate::reel::Reel;
use crate::texte::accoler;
use crate::texte::decimal;
use crate::texte::lemme_vues_push;
use crate::texte::noms_tries;
use crate::texte::texte_decimal;
use crate::texte::trier_noms;
use crate::texte::vues;
use crate::KalkotoResult;
use vstd::prelude::*;

verus! {

/// The error type of the delimited-text writer.
#[verifier::external_type_specification]
#[verifier::external_body]
pub struct ExCsvError(csv::Error);

/// The delimiter between the fields of a row: a semicolon.
pub const SEPARATEUR: u8 = 59;

/// The bytes that the delimited-text writer gives to one record, or `None` for a
/// record that it refuses.
pub uninterp spec fn ligne_csv(champs: Seq<Seq<char>>, delimiteur: u8) -> Option<Seq<u8>>;

/// Calls `csv::Writer::write_record` once, on a writer that `csv::WriterBuilder`
/// makes over an empty buffer with the given delimiter, and takes the buffer back
/// with `csv::Writer::into_inner`.
///
/// Trusted: whether the writer takes the record, and the bytes that the buffer then
/// holds, depend on the fields and on the delimiter alone.
#[verifier::external_body]
fn ecrire_ligne(champs: &Vec<String>, delimiteur: u8) -> (r: Result<Vec<u8>, csv::Error>)
    ensures
        match r {
            Ok(octets) => ligne_csv(vues(champs@), delimiteur) == Some(octets@),
            Err(_) => ligne_csv(vues(champs@), delimiteur) is None,
        },
{
    let mut wtr = csv::WriterBuilder::new().delimiter(delimiteur).from_writer(Vec::new());
    wtr.write_record(champs)?;
    wtr.into_inner().map_err(|e| csv::Error::from(e.into_error()))
}

/// Calls `to_string` on a `csv::Error`. Nothing is claimed of the text.
#[verifier::external_body]
fn message_csv(e: &csv::Error) -> (r: String) {
    e.to_string()
}

/// The rows of a table, each as the views of its fields.
pub open spec fn vues_table(t: Seq<Vec<String>>) -> Seq<Seq<Seq<char>>> {
    Seq::new(t.len(), |i: int| vues(t[i]@))
}

/// The bytes of a table: those of its rows, one after another; `None` if the writer
/// refuses one of the rows.
pub open spec fn table_csv(lignes: Seq<Seq<Seq<char>>>, delimiteur: u8) -> Option<Seq<u8>>
    decreases lignes.len(),
{
    if lignes.len() == 0 {
        Some(Seq::empty())
    } else {
        match (table_csv(lignes.drop_last(), delimiteur), ligne_csv(lignes.last(), delimiteur)) {
            (Some(debut), Some(fin)) => Some(debut + fin),
            _ => None,
        }
    }
}

/// A table that the writer takes is taken from its first row on: each of its
/// beginnings has bytes too.
pub proof fn lemme_table_csv_debut(lignes: Seq<Seq<Seq<char>>>, k: int, delimiteur: u8)
    requires
        0 <= k <= lignes.len(),
        table_csv(lignes, delimiteur) is Some,
    ensures
        table_csv(lignes.subrange(0, k), delimiteur) is Some,
    decreases lignes.len(),
{
    if k == lignes.len() {
        assert(lignes.subrange(0, k) =~= lignes);
    } else {
        lemme_table_csv_debut(lignes.drop_last(), k, delimiteur);
        assert(lignes.drop_last().subrange(0, k) =~= lignes.subrange(0, k));
    }
}

/// Turns what the writer answered for one record into the bytes to append, or into
/// the export error that carries the writer's account.
pub fn interpreter_ecriture(issue: Result<Vec<u8>, csv::Error>) -> (r: KalkotoResult<Vec<u8>>)
    ensures
        match issue {
            Ok(octets) => r == Ok::<Vec<u8>, KalkotoError>(octets),
            Err(_) => r matches Err(KalkotoError::ExportError(OutputAdapterError::CSV(_))),
        },
{
    match issue {
        Ok(octets) => Ok(octets),
        Err(e) => Err(KalkotoError::ExportError(OutputAdapterError::CSV(message_csv(&e)))),
    }
}

/// Writes a table as delimited text, row after row, with `SEPARATEUR` between fields.
/// Fails if the writer refuses a row.
pub fn encoder_table(lignes: &Vec<Vec<String>>) -> (r: KalkotoResult<Vec<u8>>)
    ensures
        match table_csv(vues_table(lignes@), SEPARATEUR) {
            Some(attendus) => r matches Ok(octets) && octets@ == attendus,
            None => r matches Err(KalkotoError::ExportError(OutputAdapterError::CSV(_))),
        },
{
    let mut octets: Vec<u8> = Vec::new();
    let mut i: usize = 0;
    proof {
        assert(vues_table(lignes@).subrange(0, 0) =~= Seq::<Seq<Seq<char>>>::empty());
    }
    while i < lignes.len()
        invariant
            i <= lignes@.len(),
            table_csv(vues_table(lignes@).subrange(0, i as int), SEPARATEUR) == Some(octets@),
        decreases lignes@.len() - i,
    {
        proof {
            let suite = vues_table(lignes@).subrange(0, i + 1);
            assert(suite.drop_last() =~= vues_table(lignes@).subrange(0, i as int));
            assert(suite.last() == vues(lignes@[i as int]@));
        }
        let mut ligne = match interpreter_ecriture(ecrire_ligne(&lignes[i], SEPARATEUR)) {
            Ok(ligne) => ligne,
            Err(e) => {
                proof {
                    if table_csv(vues_table(lignes@), SEPARATEUR) is Some {
                        lemme_table_csv_debut(vues_table(lignes@), i + 1, SEPARATEUR);
                    }
                }
                return Err(e);
            },
        };
        octets.append(&mut ligne);
        i += 1;
    }
    proof {
        assert(vues_table(lignes@).subrange(0, lignes@.len() as int) =~= vues_table(lignes@));
    }
    Ok(octets)
}

/// Whether the tables of `textes` are those of `sources` with each value turned into
/// a text that `rel` accepts for it: as many tables, the same names in the same
/// order.
pub open spec fn tables_en_texte<V>(
    sources: Seq<Dictionnaire<V>>,
    textes: Seq<Dictionnaire<String>>,
    rel: spec_fn(V, String) -> bool,
) -> bool {
    &&& textes.len() == sources.len()
    &&& forall|i: int|
        0 <= i < sources.len() ==> {
            &&& (#[trigger] textes[i]).wf()
            &&& textes[i].cles() == sources[i].cles()
            &&& forall|j: int|
                0 <= j < sources[i].valeurs().len() ==> rel(
                    sources[i].valeurs()[j],
                    #[trigger] textes[i].valeurs()[j],
                )
        }
}

/// Whether `texte` can be what the formatter writes for the number `x`.
pub open spec fn texte_reel<F: Fn(Reel) -> String>(formater: &F) -> spec_fn(Reel, String) -> bool {
    |x: Reel, texte: String| call_ensures(formater, (x,), texte)
}

/// Whether `texte` can be what is written for a number that may be absent: what the
/// formatter writes for the number, nothing for an absent one.
pub open spec fn texte_option<F: Fn(Reel) -> String>(formater: &F) -> spec_fn(
    Option<Reel>,
    String,
) -> bool {
    |x: Option<Reel>, texte: String|
        match x {
            Some(v) => call_ensures(formater, (v,), texte),
            None => texte@ == Seq::<char>::empty(),
        }
}

/// Whether `texte` can be what is written for a characteristic: the decimal writing
/// of an integer, what the formatter writes for a number, a text as it is.
pub open spec fn texte_caracteristique<F: Fn(Reel) -> String>(formater: &F) -> spec_fn(
    Caracteristique,
    String,
) -> bool {
    |c: Caracteristique, texte: String| c.ecrit_par(formater, texte)
}

/// The characteristics of the households.
pub open spec fn caracteristiques_de(menages: Seq<Menage>) -> Seq<Dictionnaire<Caracteristique>> {
    Seq::new(menages.len(), |i: int| menages[i].caracteristiques)
}

/// Whether `textes` is `source` with each value turned into a text that `rel`
/// accepts for it: the same names in the same order.
pub open spec fn table_en_texte<V>(
    source: Dictionnaire<V>,
    textes: Dictionnaire<String>,
    rel: spec_fn(V, String) -> bool,
) -> bool {
    &&& textes.wf()
    &&& textes.cles() == source.cles()
    &&& forall|j: int|
        0 <= j < source.valeurs().len() ==> rel(source.valeurs()[j], #[trigger] textes.valeurs()[j])
}

/// Writes every value of a table as text, with `ecrire`.
fn textes_table<V, G: Fn(&V) -> String>(source: &Dictionnaire<V>, ecrire: &G) -> (r: Dictionnaire<
    String,
>)
    requires
        source.wf(),
        forall|v: &V| call_requires(ecrire, (v,)),
    ensures
        table_en_texte(*source, r, |v: V, texte: String| call_ensures(ecrire, (&v,), texte)),
{
    let mut table: Dictionnaire<String> = Dictionnaire::new();
    let mut j: usize = 0;
    proof {
        assert(table.cles() =~= source.cles().subrange(0, 0));
    }
    while j < source.len()
        invariant
            j <= source.cles().len(),
            forall|v: &V| call_requires(ecrire, (v,)),
            source.wf(),
            table.wf(),
            table.cles() == source.cles().subrange(0, j as int),
            table.valeurs().len() == j,
            forall|k: int|
                0 <= k < j ==> call_ensures(
                    ecrire,
                    (&source.valeurs()[k],),
                    #[trigger] table.valeurs()[k],
                ),
        decreases source.cles().len() - j,
    {
        let texte = ecrire(source.valeur(j));
        let nom = source.cle(j).clone();
        proof {
            if table.cles().contains(nom@) {
                let p = table.cles().index_of(nom@);
                assert(table.cles()[p] == nom@);
                assert(source.cles()[p] == source.cles()[j as int]);
            }
        }
        let ghost avant = table;
        table.insert(nom, texte);
        proof {
            assert(table.cles() =~= source.cles().subrange(0, j + 1));
            assert forall|k: int| 0 <= k < j + 1 implies call_ensures(
                ecrire,
                (&source.valeurs()[k],),
                #[trigger] table.valeurs()[k],
            ) by {
                if k < j {
                    assert(table.valeurs()[k] == avant.valeurs()[k]);
                }
            }
        }
        j += 1;
    }
    proof {
        assert(source.cles().subrange(0, j as int) =~= source.cles());
    }
    table
}

/// Writes every result as text.
pub fn textes_resultats<F: Fn(Reel) -> String>(
    resultats: &Vec<Dictionnaire<Reel>>,
    formater: &F,
) -> (r: Vec<Dictionnaire<String>>)
    requires
        formateur_total(formater),
        tables_wf(resultats@),
    ensures
        tables_en_texte(resultats@, r@, texte_reel(formater)),
        tables_wf(r@),
{
    let mut textes: Vec<Dictionnaire<String>> = Vec::new();
    let mut i: usize = 0;
    while i < resultats.len()
        invariant
            i <= resultats@.len(),
            formateur_total(formater),
            tables_wf(resultats@),
            textes@.len() == i,
            forall|a: int|
                0 <= a < i ==> table_en_texte(
                    resultats@[a],
                    #[trigger] textes@[a],
                    texte_reel(formater),
                ),
        decreases resultats@.len() - i,
    {
        let ecrire = |x: &Reel| -> (texte: String)
            requires
                formateur_total(formater),
            ensures
                call_ensures(formater, (*x,), texte),
            { formater(*x) };
        let table = textes_table(&resultats[i], &ecrire);
        textes.push(table);
        i += 1;
    }
    textes
}

/// Writes every difference as text; an absent difference gives an empty text.
pub fn textes_ecarts<F: Fn(Reel) -> String>(
    ecarts: &Vec<Dictionnaire<Option<Reel>>>,
    formater: &F,
) -> (r: Vec<Dictionnaire<String>>)
    requires
        formateur_total(formater),
        tables_wf(ecarts@),
    ensures
        tables_en_texte(ecarts@, r@, texte_option(formater)),
        tables_wf(r@),
{
    let mut textes: Vec<Dictionnaire<String>> = Vec::new();
    let mut i: usize = 0;
    while i < ecarts.len()
        invariant
            i <= ecarts@.len(),
            formateur_total(formater),
            tables_wf(ecarts@),
            textes@.len() == i,
            forall|a: int|
                0 <= a < i ==> table_en_texte(
                    ecarts@[a],
                    #[trigger] textes@[a],
                    texte_option(formater),
                ),
        decreases ecarts@.len() - i,
    {
        let ecrire = |x: &Option<Reel>| -> (texte: String)
            requires
                formateur_total(formater),
            ensures
                texte_option(formater)(*x, texte),
            {
                match x {
                    Some(v) => formater(*v),
                    None => String::new(),
                }
            };
        let table = textes_table(&ecarts[i], &ecrire);
        textes.push(table);
        i += 1;
    }
    textes
}

/// Writes every characteristic of every household as text.
pub fn textes_caracteristiques<F: Fn(Reel) -> String>(menages: &[Menage], formater: &F) -> (r: Vec<
    Dictionnaire<String>,
>)
    requires
        formateur_total(formater),
        menages_wf(menages@),
    ensures
        tables_en_texte(caracteristiques_de(menages@), r@, texte_caracteristique(formater)),
        tables_wf(r@),
{
    let mut textes: Vec<Dictionnaire<String>> = Vec::new();
    let mut i: usize = 0;
    while i < menages.len()
        invariant
            i <= menages@.len(),
            formateur_total(formater),
            menages_wf(menages@),
            textes@.len() == i,
            forall|a: int|
                0 <= a < i ==> table_en_texte(
                    menages@[a].caracteristiques,
                    #[trigger] textes@[a],
                    texte_caracteristique(formater),
                ),
        decreases menages@.len() - i,
    {
        let ecrire = |c: &Caracteristique| -> (texte: String)
            requires
                formateur_total(formater),
            ensures
                texte_caracteristique(formater)(*c, texte),
            { c.texte(formater) };
        let table = textes_table(&menages[i].caracteristiques, &ecrire);
        textes.push(table);
        i += 1;
    }
    textes
}

/// The names of the components, in order.
pub open spec fn noms_composantes(composantes: Seq<Composante>) -> Seq<Seq<char>> {
    Seq::new(composantes.len(), |k: int| composantes[k].name@)
}

/// The column names of a table, but for the first: the names of the components and
/// the names of the characteristics together, in ascending order. A name that is both
/// comes twice.
pub open spec fn entetes(composantes: Seq<Composante>, caracteristiques: Seq<Seq<char>>) -> Seq<
    Seq<char>,
> {
    noms_tries(noms_composantes(composantes) + caracteristiques)
}

/// What a row shows under the name `nom`: the result of that name if there is one,
/// else the characteristic of that name, if there is one.
pub open spec fn cellule(
    caracteristiques: Dictionnaire<String>,
    resultats: Dictionnaire<String>,
    nom: Seq<char>,
) -> Option<Seq<char>> {
    if resultats@.contains_key(nom) {
        Some(resultats@[nom]@)
    } else if caracteristiques@.contains_key(nom) {
        Some(caracteristiques@[nom]@)
    } else {
        None
    }
}

/// The number of household rows: households and results are paired as far as both
/// lists go.
pub open spec fn nb_lignes(
    caracteristiques: Seq<Dictionnaire<String>>,
    resultats: Seq<Dictionnaire<String>>,
) -> int {
    if caracteristiques.len() <= resultats.len() {
        caracteristiques.len() as int
    } else {
        resultats.len() as int
    }
}

/// Whether the row `i` has something to show in the column `k`.
pub open spec fn cellule_presente(
    noms: Seq<Seq<char>>,
    caracteristiques: Seq<Dictionnaire<String>>,
    resultats: Seq<Dictionnaire<String>>,
    i: int,
    k: int,
) -> bool {
    cellule(caracteristiques[i], resultats[i], noms[k]) is Some
}

/// Whether every row has something to show in every column.
pub open spec fn table_complete(
    noms: Seq<Seq<char>>,
    caracteristiques: Seq<Dictionnaire<String>>,
    resultats: Seq<Dictionnaire<String>>,
) -> bool {
    forall|i: int, k: int|
        0 <= i < nb_lignes(caracteristiques, resultats) && 0 <= k < noms.len()
            ==> #[trigger] cellule_presente(noms, caracteristiques, resultats, i, k)
}

/// Whether the cell of row `i` and column `k` is the first, row after row and from
/// left to right, for which there is nothing to show.
pub open spec fn est_premier_manque(
    noms: Seq<Seq<char>>,
    caracteristiques: Seq<Dictionnaire<String>>,
    resultats: Seq<Dictionnaire<String>>,
    i: int,
    k: int,
) -> bool {
    &&& 0 <= i < nb_lignes(caracteristiques, resultats)
    &&& 0 <= k < noms.len()
    &&& !cellule_presente(noms, caracteristiques, resultats, i, k)
    &&& forall|b: int|
        0 <= b < k ==> #[trigger] cellule_presente(noms, caracteristiques, resultats, i, b)
    &&& forall|a: int, b: int|
        0 <= a < i && 0 <= b < noms.len() ==> #[trigger] cellule_presente(
            noms,
            caracteristiques,
            resultats,
            a,
            b,
        )
}

/// The header row.
pub open spec fn ligne_entetes(noms: Seq<Seq<char>>) -> Seq<Seq<char>> {
    seq!["Index"@] + noms
}

/// The row of the household at place `i`: its rank, counted from 1, then what it
/// shows under each name.
pub open spec fn ligne_menage(
    noms: Seq<Seq<char>>,
    caracteristiques: Dictionnaire<String>,
    resultats: Dictionnaire<String>,
    i: int,
) -> Seq<Seq<char>> {
    seq![decimal((i + 1) as nat)] + Seq::new(
        noms.len(),
        |k: int| cellule(caracteristiques, resultats, noms[k]).unwrap(),
    )
}

/// The table: the header row, then one row for each household.
pub open spec fn table_export(
    noms: Seq<Seq<char>>,
    caracteristiques: Seq<Dictionnaire<String>>,
    resultats: Seq<Dictionnaire<String>>,
) -> Seq<Seq<Seq<char>>> {
    Seq::new(
        (nb_lignes(caracteristiques, resultats) + 1) as nat,
        |r: int|
            if r == 0 {
                ligne_entetes(noms)
            } else {
                ligne_menage(noms, caracteristiques[r - 1], resultats[r - 1], r - 1)
            },
    )
}

/// What is reported of a household that has nothing to show under `nom`.
pub open spec fn cause_incoherence(nom: Seq<char>) -> Seq<char> {
    "Problème de cohérence des composantes lors de l'export. Erreur à la composante : "@ + nom
}

/// What is reported when results are asked for before the simulation was run.
pub open spec fn cause_resultats_absents() -> Seq<char> {
    "Pas possible d'exporter : les résultats n'ont pas encore été calculés"@
}

/// Whether `e` reports, with the text `cause`, that results are not fit for export.
pub open spec fn est_erreur_resultats(e: KalkotoError, cause: Seq<char>) -> bool {
    e matches KalkotoError::SimError(SimulationError::ResultsError(texte)) && texte@ == cause
}

/// Whether `r` is what building the table owes: the table, if every row has
/// something to show in every column; otherwise the failure that names the column of
/// the first cell for which there is nothing to show.
pub open spec fn est_table_attendue(
    r: KalkotoResult<Vec<Vec<String>>>,
    noms: Seq<Seq<char>>,
    caracteristiques: Seq<Dictionnaire<String>>,
    resultats: Seq<Dictionnaire<String>>,
) -> bool {
    match r {
        Ok(table) => table_complete(noms, caracteristiques, resultats) && vues_table(table@)
            == table_export(noms, caracteristiques, resultats),
        Err(e) => exists|i: int, k: int|
            #[trigger] est_premier_manque(noms, caracteristiques, resultats, i, k)
                && est_erreur_resultats(e, cause_incoherence(noms[k])),
    }
}

/// Builds the table of an export from the components of the policy, the names of the
/// characteristics, and the characteristics and results of the households, already
/// written as text.
pub fn construire_table(
    composantes: &Vec<Composante>,
    set_caracteristiques: &EnsembleNoms,
    caracteristiques: &Vec<Dictionnaire<String>>,
    resultats: &Vec<Dictionnaire<String>>,
) -> (r: KalkotoResult<Vec<Vec<String>>>)
    requires
        tables_wf(caracteristiques@),
        tables_wf(resultats@),
    ensures
        est_table_attendue(
            r,
            entetes(composantes@, set_caracteristiques.noms()),
            caracteristiques@,
            resultats@,
        ),
{
    let mut noms: Vec<String> = Vec::new();
    let mut k: usize = 0;
    while k < composantes.len()
        invariant
            k <= composantes@.len(),
            vues(noms@) == noms_composantes(composantes@).subrange(0, k as int),
        decreases composantes@.len() - k,
    {
        let nom = composantes[k].name.clone();
        proof {
            lemme_vues_push(noms@, nom);
            assert(noms_composantes(composantes@).subrange(0, k as int).push(nom@)
                =~= noms_composantes(composantes@).subrange(0, k + 1));
        }
        noms.push(nom);
        k += 1;
    }
    let mut k: usize = 0;
    proof {
        assert(noms_composantes(composantes@).subrange(0, composantes@.len() as int)
            =~= noms_composantes(composantes@));
        assert(vues(noms@) =~= noms_composantes(composantes@) + set_caracteristiques.noms().subrange(
            0,
            0,
        ));
    }
    while k < set_caracteristiques.len()
        invariant
            k <= set_caracteristiques.noms().len(),
            vues(noms@) == noms_composantes(composantes@) + set_caracteristiques.noms().subrange(
                0,
                k as int,
            ),
        decreases set_caracteristiques.noms().len() - k,
    {
        let nom = set_caracteristiques.nom(k).clone();
        proof {
            lemme_vues_push(noms@, nom);
            assert((noms_composantes(composantes@) + set_caracteristiques.noms().subrange(
                0,
                k as int,
            )).push(nom@) =~= noms_composantes(composantes@) + set_caracteristiques.noms().subrange(
                0,
                k + 1,
            ));
        }
        noms.push(nom);
        k += 1;
    }
    proof {
        assert(set_caracteristiques.noms().subrange(0, k as int) =~= set_caracteristiques.noms());
    }
    let headers = trier_noms(noms);
    let ghost colonnes = entetes(composantes@, set_caracteristiques.noms());
    let n = if caracteristiques.len() <= resultats.len() {
        caracteristiques.len()
    } else {
        resultats.len()
    };
    let mut table: Vec<Vec<String>> = Vec::new();
    let mut premiere: Vec<String> = Vec::new();
    premiere.push("Index".to_string());
    let mut k: usize = 0;
    proof {
        assert(vues(premiere@) =~= ligne_entetes(colonnes.subrange(0, 0)));
    }
    while k < headers.len()
        invariant
            k <= headers@.len(),
            vues(headers@) == colonnes,
            vues(premiere@) == ligne_entetes(colonnes.subrange(0, k as int)),
        decreases headers@.len() - k,
    {
        let nom = headers[k].clone();
        proof {
            assert(headers@[k as int]@ == colonnes[k as int]);
            lemme_vues_push(premiere@, nom);
            assert(ligne_entetes(colonnes.subrange(0, k as int)).push(nom@) =~= ligne_entetes(
                colonnes.subrange(0, k + 1),
            ));
        }
        premiere.push(nom);
        k += 1;
    }
    proof {
        assert(colonnes.subrange(0, k as int) =~= colonnes);
    }
    table.push(premiere);
    let mut i: usize = 0;
    while i < n
        invariant
            i <= n,
            n == nb_lignes(caracteristiques@, resultats@),
            tables_wf(caracteristiques@),
            tables_wf(resultats@),
            vues(headers@) == colonnes,
            colonnes == entetes(composantes@, set_caracteristiques.noms()),
            table@.len() == i + 1,
            vues(table@[0]@) == ligne_entetes(colonnes),
            forall|a: int|
                0 <= a < i ==> vues((#[trigger] table@[a + 1])@) == ligne_menage(
                    colonnes,
                    caracteristiques@[a],
                    resultats@[a],
                    a,
                ),
            forall|a: int, b: int|
                0 <= a < i && 0 <= b < colonnes.len() ==> #[trigger] cellule_presente(
                    colonnes,
                    caracteristiques@,
                    resultats@,
                    a,
                    b,
                ),
        decreases n - i,
    {
        let mut ligne: Vec<String> = Vec::new();
        ligne.push(texte_decimal((i + 1) as u64));
        let mut k: usize = 0;
        while k < headers.len()
            invariant
                k <= headers@.len(),
                i < n,
                n == nb_lignes(caracteristiques@, resultats@),
                tables_wf(caracteristiques@),
                tables_wf(resultats@),
                vues(headers@) == colonnes,
                colonnes == entetes(composantes@, set_caracteristiques.noms()),
                ligne@.len() == k + 1,
                ligne@[0]@ == decimal((i + 1) as nat),
                forall|a: int, b: int|
                    0 <= a < i && 0 <= b < colonnes.len() ==> #[trigger] cellule_presente(
                        colonnes,
                        caracteristiques@,
                        resultats@,
                        a,
                        b,
                    ),
                forall|b: int|
                    0 <= b < k ==> #[trigger] cellule_presente(
                        colonnes,
                        caracteristiques@,
                        resultats@,
                        i as int,
                        b,
                    ),
                forall|b: int|
                    0 <= b < k ==> Some((#[trigger] ligne@[b + 1])@) == cellule(
                        caracteristiques@[i as int],
                        resultats@[i as int],
                        colonnes[b],
                    ),
            decreases headers@.len() - k,
        {
            let nom = headers[k].as_str();
            proof {
                assert(headers@[k as int]@ == colonnes[k as int]);
            }
            let texte = match resultats[i].get(nom) {
                Some(texte) => texte.clone(),
                None => match caracteristiques[i].get(nom) {
                    Some(texte) => texte.clone(),
                    None => {
                        proof {
                            assert(!cellule_presente(
                                colonnes,
                                caracteristiques@,
                                resultats@,
                                i as int,
                                k as int,
                            ));
                            assert(est_premier_manque(
                                colonnes,
                                caracteristiques@,
                                resultats@,
                                i as int,
                                k as int,
                            ));
                        }
                        let cause = accoler(
                            "Problème de cohérence des composantes lors de l'export. Erreur à la composante : ",
                            nom,
                        );
                        let e = KalkotoError::SimError(SimulationError::ResultsError(cause));
                        proof {
                            assert(cause@ == cause_incoherence(colonnes[k as int]));
                            assert(est_erreur_resultats(e, cause_incoherence(colonnes[k as int])));
                        }
                        return Err(e);
                    },
                },
            };
            ligne.push(texte);
            proof {
                assert(cellule_presente(
                    colonnes,
                    caracteristiques@,
                    resultats@,
                    i as int,
                    k as int,
                ));
            }
            k += 1;
        }
        proof {
            let attendue = ligne_menage(
                colonnes,
                caracteristiques@[i as int],
                resultats@[i as int],
                i as int,
            );
            assert forall|j: int| 0 <= j < attendue.len() implies vues(ligne@)[j]
                == attendue[j] by {
                if j > 0 {
                    assert(Some(ligne@[(j - 1) + 1]@) == cellule(
                        caracteristiques@[i as int],
                        resultats@[i as int],
                        colonnes[j - 1],
                    ));
                }
            }
            assert(vues(ligne@) =~= attendue);
        }
        table.push(ligne);
        i += 1;
    }
    proof {
        assert forall|r: int| 0 <= r < table@.len() implies vues_table(table@)[r] == table_export(
            colonnes,
            caracteristiques@,
            resultats@,
        )[r] by {
            if r > 0 {
                assert(vues(table@[(r - 1) + 1]@) == ligne_menage(
                    colonnes,
                    caracteristiques@[r - 1],
                    resultats@[r - 1],
                    r - 1,
                ));
            }
        }
        assert(vues_table(table@) =~= table_export(colonnes, caracteristiques@, resultats@));
    }
    Ok(table)
}

/// Whether `r` is what writing out owes for what building the table gave: the failure
/// of the building as it is; for a table, its bytes, or the failure of the writer if
/// the writer refuses one of its rows.
pub open spec fn est_encodage(
    table: KalkotoResult<Vec<Vec<String>>>,
    r: KalkotoResult<Vec<u8>>,
) -> bool {
    match table {
        Ok(lignes) => match table_csv(vues_table(lignes@), SEPARATEUR) {
            Some(attendus) => r matches Ok(octets) && octets@ == attendus,
            None => r matches Err(KalkotoError::ExportError(OutputAdapterError::CSV(_))),
        },
        Err(e) => r matches Err(e2) && e2 == e,
    }
}

/// Writes out what building a table gave: the bytes of the table, or the failure.
pub fn encoder_issue(table: KalkotoResult<Vec<Vec<String>>>) -> (r: KalkotoResult<Vec<u8>>)
    ensures
        est_encodage(table, r),
{
    match table {
        Ok(lignes) => encoder_table(&lignes),
        Err(e) => Err(e),
    }
}

/// Exports results to delimited-text files whose names may start with a prefix.
#[derive(Debug, Default)]
pub struct CSVOutputAdapter {
    output_prefix: Option<String>,
}

/// Whether `r` is what the table of an export owes for the households `menages` and
/// the results `resultats`, written as text by `rel`: the failure that says that no
/// results are there, or what building the table owes for the households and the
/// results written as text.
pub open spec fn est_export_attendu<V, F: Fn(Reel) -> String>(
    r: KalkotoResult<Vec<Vec<String>>>,
    formater: &F,
    composantes: Seq<Composante>,
    set_caracteristiques: Seq<Seq<char>>,
    menages: Seq<Menage>,
    resultats: Option<Seq<Dictionnaire<V>>>,
    rel: spec_fn(V, String) -> bool,
) -> bool {
    match resultats {
        None => r matches Err(e) && est_erreur_resultats(e, cause_resultats_absents()),
        Some(tables) => exists|
            textes_menages: Seq<Dictionnaire<String>>,
            textes_tables: Seq<Dictionnaire<String>>,
        |
            {
                &&& tables_en_texte(
                    caracteristiques_de(menages),
                    textes_menages,
                    texte_caracteristique(formater),
                )
                &&& tables_en_texte(tables, textes_tables, rel)
                &&& #[trigger] est_table_attendue(
                    r,
                    entetes(composantes, set_caracteristiques),
                    textes_menages,
                    textes_tables,
                )
            },
    }
}

fn erreur_resultats_absents() -> (e: KalkotoError)
    ensures
        est_erreur_resultats(e, cause_resultats_absents()),
{
    KalkotoError::SimError(
        SimulationError::ResultsError(
            "Pas possible d'exporter : les résultats n'ont pas encore été calculés".to_string(),
        ),
    )
}

impl CSVOutputAdapter {
    /// The prefix of the output files, if any.
    pub closed spec fn prefixe(&self) -> Option<Seq<char>> {
        match self.output_prefix {
            Some(p) => Some(p@),
            None => None,
        }
    }

    /// An adapter without prefix.
    pub fn new() -> (r: Self)
        ensures
            r.prefixe() is None,
    {
        CSVOutputAdapter { output_prefix: None }
    }

    /// An adapter with the prefix `prefix`. The adapter it is called on is left as it
    /// was.
    pub fn add_output_prefix(&mut self, prefix: String) -> (r: Self)
        ensures
            r.prefixe() == Some(prefix@),
            *final(self) == *old(self),
    {
        CSVOutputAdapter { output_prefix: Some(prefix) }
    }

    /// The name of the file of baseline results.
    pub fn chemin_baseline(&self) -> (r: String)
        ensures
            r@ == crate::adapters::output_adapters::arrow_output_adapter::chemin_de(
                self.prefixe(),
                "baseline-results.csv"@,
            ),
    {
        crate::adapters::output_adapters::arrow_output_adapter::chemin_sortie(
            &self.output_prefix,
            "baseline-results.csv",
        )
    }

    /// The name of the file of variant results.
    pub fn chemin_variante(&self) -> (r: String)
        ensures
            r@ == crate::adapters::output_adapters::arrow_output_adapter::chemin_de(
                self.prefixe(),
                "variante-results.csv"@,
            ),
    {
        crate::adapters::output_adapters::arrow_output_adapter::chemin_sortie(
            &self.output_prefix,
            "variante-results.csv",
        )
    }

    /// The name of the file of differences.
    pub fn chemin_diff(&self) -> (r: String)
        ensures
            r@ == crate::adapters::output_adapters::arrow_output_adapter::chemin_de(
                self.prefixe(),
                "diff-results.csv"@,
            ),
    {
        crate::adapters::output_adapters::arrow_output_adapter::chemin_sortie(
            &self.output_prefix,
            "diff-results.csv",
        )
    }

    /// The table of the baseline results of a session, with the components of the
    /// baseline policy.
    pub fn table_baseline<E, F: Fn(Reel) -> String>(
        &self,
        simulated: &SimulatorBuilder<ValidMenageInput, ValidBaselineInput, E>,
        formater: &F,
    ) -> (r: KalkotoResult<Vec<Vec<String>>>)
        requires
            formateur_total(formater),
            menages_wf(simulated.menage_input.0.liste_menage_valide@),
            simulated.results_baseline matches Some(tables) ==> tables_wf(tables@),
        ensures
            est_export_attendu(
                r,
                formater,
                simulated.policy_baseline.0.valid_policy.composantes_ordonnees@,
                simulated.menage_input.0.set_caracteristiques_valide.noms(),
                simulated.menage_input.0.liste_menage_valide@,
                match simulated.results_baseline {
                    Some(tables) => Some(tables@),
                    None => None,
                },
                texte_reel(formater),
            ),
    {
        match &simulated.results_baseline {
            Some(baseline_results) => {
                let text_results_dict = textes_resultats(baseline_results, formater);
                let text_caract_dict = textes_caracteristiques(
                    simulated.menage_input.0.liste_menage_valide.as_slice(),
                    formater,
                );
                construire_table(
                    &simulated.policy_baseline.0.valid_policy.composantes_ordonnees,
                    &simulated.menage_input.0.set_caracteristiques_valide,
                    &text_caract_dict,
                    &text_results_dict,
                )
            },
            None => Err(erreur_resultats_absents()),
        }
    }

    /// The bytes of the file of baseline results of a session.
    pub fn octets_baseline<E, F: Fn(Reel) -> String>(
        &self,
        simulated: &SimulatorBuilder<ValidMenageInput, ValidBaselineInput, E>,
        formater: &F,
    ) -> (r: KalkotoResult<Vec<u8>>)
        requires
            formateur_total(formater),
            menages_wf(simulated.menage_input.0.liste_menage_valide@),
            simulated.results_baseline matches Some(tables) ==> tables_wf(tables@),
        ensures
            exists|table: KalkotoResult<Vec<Vec<String>>>|
                {
                    &&& #[trigger] est_encodage(table, r)
                    &&& est_export_attendu(
                        table,
                        formater,
                        simulated.policy_baseline.0.valid_policy.composantes_ordonnees@,
                        simulated.menage_input.0.set_caracteristiques_valide.noms(),
                        simulated.menage_input.0.liste_menage_valide@,
                        match simulated.results_baseline {
                            Some(tables) => Some(tables@),
                            None => None,
                        },
                        texte_reel(formater),
                    )
                },
    {
        encoder_issue(self.table_baseline(simulated, formater))
    }

    /// The table of the variant results of a session, with the components of the
    /// variant policy.
    pub fn table_variante<F: Fn(Reel) -> String>(
        &self,
        simulated: &SimulatorBuilder<ValidMenageInput, ValidBaselineInput, ValidVarianteInput>,
        formater: &F,
    ) -> (r: KalkotoResult<Vec<Vec<String>>>)
        requires
            formateur_total(formater),
            menages_wf(simulated.menage_input.0.liste_menage_valide@),
            simulated.results_variante matches Some(tables) ==> tables_wf(tables@),
        ensures
            est_export_attendu(
                r,
                formater,
                simulated.policy_variante.0.valid_policy.composantes_ordonnees@,
                simulated.menage_input.0.set_caracteristiques_valide.noms(),
                simulated.menage_input.0.liste_menage_valide@,
                match simulated.results_variante {
                    Some(tables) => Some(tables@),
                    None => None,
                },
                texte_reel(formater),
            ),
    {
        match &simulated.results_variante {
            Some(variante_results) => {
                let text_results_dict = textes_resultats(variante_results, formater);
                let text_caract_dict = textes_caracteristiques(
                    simulated.menage_input.0.liste_menage_valide.as_slice(),
                    formater,
                );
                construire_table(
                    &simulated.policy_variante.0.valid_policy.composantes_ordonnees,
                    &simulated.menage_input.0.set_caracteristiques_valide,
                    &text_caract_dict,
                    &text_results_dict,
                )
            },
            None => Err(erreur_resultats_absents()),
        }
    }

    /// The bytes of the file of variant results of a session.
    pub fn octets_variante<F: Fn(Reel) -> String>(
        &self,
        simulated: &SimulatorBuilder<ValidMenageInput, ValidBaselineInput, ValidVarianteInput>,
        formater: &F,
    ) -> (r: KalkotoResult<Vec<u8>>)
        requires
            formateur_total(formater),
            menages_wf(simulated.menage_input.0.liste_menage_valide@),
            simulated.results_variante matches Some(tables) ==> tables_wf(tables@),
        ensures
            exists|table: KalkotoResult<Vec<Vec<String>>>|
                {
                    &&& #[trigger] est_encodage(table, r)
                    &&& est_export_attendu(
                        table,
                        formater,
                        simulated.policy_variante.0.valid_policy.composantes_ordonnees@,
                        simulated.menage_input.0.set_caracteristiques_valide.noms(),
                        simulated.menage_input.0.liste_menage_valide@,
                        match simulated.results_variante {
                            Some(tables) => Some(tables@),
                            None => None,
                        },
                        texte_reel(formater),
                    )
                },
    {
        encoder_issue(self.table_variante(simulated, formater))
    }

    /// The table of the differences of a session, with the components of the variant
    /// policy. An absent difference shows as an empty field.
    pub fn table_diff<F: Fn(Reel) -> String>(
        &self,
        simulated: &SimulatorBuilder<ValidMenageInput, ValidBaselineInput, ValidVarianteInput>,
        formater: &F,
    ) -> (r: KalkotoResult<Vec<Vec<String>>>)
        requires
            formateur_total(formater),
            menages_wf(simulated.menage_input.0.liste_menage_valide@),
            simulated.results_diff matches Some(tables) ==> tables_wf(tables@),
        ensures
            est_export_attendu(
                r,
                formater,
                simulated.policy_variante.0.valid_policy.composantes_ordonnees@,
                simulated.menage_input.0.set_caracteristiques_valide.noms(),
                simulated.menage_input.0.liste_menage_valide@,
                match simulated.results_diff {
                    Some(tables) => Some(tables@),
                    None => None,
                },
                texte_option(formater),
            ),
    {
        match &simulated.results_diff {
            Some(diff_results) => {
                let text_results_dict = textes_ecarts(diff_results, formater);
                let text_caract_dict = textes_caracteristiques(
                    simulated.menage_input.0.liste_menage_valide.as_slice(),
                    formater,
                );
                construire_table(
                    &simulated.policy_variante.0.valid_policy.composantes_ordonnees,
                    &simulated.menage_input.0.set_caracteristiques_valide,
                    &text_caract_dict,
                    &text_results_dict,
                )
            },
            None => Err(erreur_resultats_absents()),
        }
    }

    /// The bytes of the file of differences of a session.
    pub fn octets_diff<F: Fn(Reel) -> String>(
        &self,
        simulated: &SimulatorBuilder<ValidMenageInput, ValidBaselineInput, ValidVarianteInput>,
        formater: &F,
    ) -> (r: KalkotoResult<Vec<u8>>)
        requires
            formateur_total(formater),
            menages_wf(simulated.menage_input.0.liste_menage_valide@),
            simulated.results_diff matches Some(tables) ==> tables_wf(tables@),
        ensures
            exists|table: KalkotoResult<Vec<Vec<String>>>|
                {
                    &&& #[trigger] est_encodage(table, r)
                    &&& est_export_attendu(
                        table,
                        formater,
                        simulated.policy_variante.0.valid_policy.composantes_ordonnees@,
                        simulated.menage_input.0.set_caracteristiques_valide.noms(),
                        simulated.menage_input.0.liste_menage_valide@,
                        match simulated.results_diff {
                            Some(tables) => Some(tables@),
                            None => None,
                        },
                        texte_option(formater),
                    )
                },
    {
        encoder_issue(self.table_diff(simulated, formater))
    }
}

} // verus!
