//! Tables laid out by columns: named, typed columns of equal length.
//!
//! This is the shape in which households come in from, and results go out to, a
//! columnar file. Cells may be absent.

use crate::reel::Reel;
use vstd::prelude::*;

verus! {

/// The type of the cells of a column.
#[derive(Debug, Clone, Copy, PartialEq, Eq, Structural)]
pub enum TypeColonne {
    Int32,
    Float64,
    Utf8,
}

/// The name and type of a column.
#[derive(Debug, Clone, PartialEq)]
pub struct Champ {
    pub nom: String,
    pub type_colonne: TypeColonne,
    pub nullable: bool,
}

/// A field, with its name as a sequence of characters.
pub struct ChampVue {
    pub nom: Seq<char>,
    pub type_colonne: TypeColonne,
    pub nullable: bool,
}

impl View for Champ {
    type V = ChampVue;

    open spec fn view(&self) -> ChampVue {
        ChampVue { nom: self.nom@, type_colonne: self.type_colonne, nullable: self.nullable }
    }
}

/// The cells of a column, top to bottom. `Autre` stands for a column of a type that
/// households cannot hold.
#[derive(Debug, Clone, PartialEq)]
pub enum Colonne {
    Int32(Vec<Option<i32>>),
    Float64(Vec<Option<Reel>>),
    Utf8(Vec<Option<String>>),
    Autre,
}

/// A column, with its cells as a sequence and its texts as sequences of characters.
pub enum ColonneVue {
    Int32(Seq<Option<i32>>),
    Float64(Seq<Option<Reel>>),
    Utf8(Seq<Option<Seq<char>>>),
    Autre,
}

/// The views of a sequence of texts that may be absent.
pub open spec fn textes_vus(v: Seq<Option<String>>) -> Seq<Option<Seq<char>>> {
    Seq::new(
        v.len(),
        |i: int|
            match v[i] {
                Some(s) => Some(s@),
                None => None,
            },
    )
}

impl View for Colonne {
    type V = ColonneVue;

    open spec fn view(&self) -> ColonneVue {
        match self {
            Colonne::Int32(v) => ColonneVue::Int32(v@),
            Colonne::Float64(v) => ColonneVue::Float64(v@),
            Colonne::Utf8(v) => ColonneVue::Utf8(textes_vus(v@)),
            Colonne::Autre => ColonneVue::Autre,
        }
    }
}

impl ColonneVue {
    /// The number of cells.
    pub open spec fn longueur(self) -> nat {
        match self {
            ColonneVue::Int32(v) => v.len(),
            ColonneVue::Float64(v) => v.len(),
            ColonneVue::Utf8(v) => v.len(),
            ColonneVue::Autre => 0,
        }
    }

    /// The type of the cells, if households can hold it.
    pub open spec fn type_colonne(self) -> Option<TypeColonne> {
        match self {
            ColonneVue::Int32(_) => Some(TypeColonne::Int32),
            ColonneVue::Float64(_) => Some(TypeColonne::Float64),
            ColonneVue::Utf8(_) => Some(TypeColonne::Utf8),
            ColonneVue::Autre => None,
        }
    }
}

impl Colonne {
    /// The number of cells.
    pub fn len(&self) -> (n: usize)
        ensures
            n == self@.longueur(),
    {
        match self {
            Colonne::Int32(v) => v.len(),
            Colonne::Float64(v) => v.len(),
            Colonne::Utf8(v) => v.len(),
            Colonne::Autre => 0,
        }
    }
}

/// The views of a sequence of fields.
pub open spec fn champs_vus(v: Seq<Champ>) -> Seq<ChampVue> {
    Seq::new(v.len(), |i: int| v[i]@)
}

/// The views of a sequence of columns.
pub open spec fn colonnes_vues(v: Seq<Colonne>) -> Seq<ColonneVue> {
    Seq::new(v.len(), |i: int| v[i]@)
}

/// A table: fields, one column for each, and the number of rows.
#[derive(Debug, Clone, PartialEq)]
pub struct Lot {
    pub champs: Vec<Champ>,
    pub colonnes: Vec<Colonne>,
    pub nb_lignes: usize,
}

/// A table, with its fields and columns as sequences.
pub struct LotVue {
    pub champs: Seq<ChampVue>,
    pub colonnes: Seq<ColonneVue>,
    pub nb_lignes: nat,
}

impl View for Lot {
    type V = LotVue;

    open spec fn view(&self) -> LotVue {
        LotVue {
            champs: champs_vus(self.champs@),
            colonnes: colonnes_vues(self.colonnes@),
            nb_lignes: self.nb_lignes as nat,
        }
    }
}

impl LotVue {
    /// Whether fields and columns fit together: there is one column for each field,
    /// of the type of the field and with as many cells as the table has rows.
    pub open spec fn coherent(self) -> bool {
        &&& self.champs.len() == self.colonnes.len()
        &&& forall|k: int|
            0 <= k < self.colonnes.len() ==> (#[trigger] self.colonnes[k]).longueur()
                == self.nb_lignes && self.colonnes[k].type_colonne() == Some(
                self.champs[k].type_colonne,
            )
    }
}

impl Lot {
    /// The number of rows.
    pub fn num_rows(&self) -> (n: usize)
        ensures
            n == self@.nb_lignes,
    {
        self.nb_lignes
    }
}

} // verus!
