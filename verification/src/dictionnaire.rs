//! Tables and sets keyed by names.
//!
//! Both keep their entries in the order in which the names first came in, so that every
//! walk over them is reproducible, and both are viewed as mathematical maps and sets.

use crate::texte::egal_str;
use crate::texte::noms_tries;
use crate::texte::trier_noms;
use crate::texte::vues;
use vstd::prelude::*;
use vstd::seq_lib::seq_to_set_is_finite;
use vstd::set_lib::lemma_subset_equality;
use vstd::std_specs::cmp::PartialEqSpec;
use vstd::std_specs::cmp::PartialEqSpecImpl;

verus! {

/// A table from names to values. Each name occurs at most once; names keep the order in
/// which they were first inserted. Two tables compare equal when they bind the same
/// names to equal values, in whatever order.
#[derive(Debug)]
pub struct Dictionnaire<V> {
    entrees: Vec<(String, V)>,
}

impl<V> View for Dictionnaire<V> {
    type V = Map<Seq<char>, V>;

    /// The table as a map: each name of `cles()` bound to the value at the same place.
    open spec fn view(&self) -> Map<Seq<char>, V> {
        Map::new(
            |k: Seq<char>| self.cles().contains(k),
            |k: Seq<char>| self.valeurs()[self.cles().index_of(k)],
        )
    }
}

impl<V> Dictionnaire<V> {
    /// The names, in insertion order.
    pub closed spec fn cles(&self) -> Seq<Seq<char>> {
        Seq::new(self.entrees@.len(), |i: int| self.entrees@[i].0@)
    }

    /// The values, each at the place of its name in `cles()`.
    pub closed spec fn valeurs(&self) -> Seq<V> {
        Seq::new(self.entrees@.len(), |i: int| self.entrees@[i].1)
    }

    /// Well-formedness: no name occurs twice.
    pub open spec fn wf(&self) -> bool {
        &&& self.cles().no_duplicates()
        &&& self.cles().len() == self.valeurs().len()
    }

    /// How the map view relates to the ordered names and values.
    pub proof fn lemma_vue(&self)
        requires
            self.wf(),
        ensures
            self@.dom() == self.cles().to_set(),
            self@.dom().finite(),
            self@.dom().len() == self.cles().len(),
            forall|i: int|
                0 <= i < self.cles().len() ==> self@.contains_key(#[trigger] self.cles()[i])
                    && self@[self.cles()[i]] == self.valeurs()[i],
            forall|k: Seq<char>| self@.contains_key(k) <==> self.cles().contains(k),
    {
        let cles = self.cles();
        assert(self@.dom() =~= cles.to_set());
        seq_to_set_is_finite(cles);
        cles.unique_seq_to_set();
        assert forall|i: int| 0 <= i < cles.len() implies self@.contains_key(#[trigger] cles[i])
            && self@[cles[i]] == self.valeurs()[i] by {
            assert(cles.contains(cles[i]));
            let j = cles.index_of(cles[i]);
            assert(0 <= j < cles.len() && cles[j] == cles[i]);
        }
    }

    /// The empty table.
    pub fn new() -> (r: Self)
        ensures
            r.wf(),
            r.cles() == Seq::<Seq<char>>::empty(),
            r.valeurs() == Seq::<V>::empty(),
            r@ == Map::<Seq<char>, V>::empty(),
    {
        let r = Dictionnaire { entrees: Vec::new() };
        assert(r.cles() =~= Seq::<Seq<char>>::empty());
        assert(r.valeurs() =~= Seq::<V>::empty());
        assert(r@ =~= Map::<Seq<char>, V>::empty());
        r
    }

    /// The number of names.
    pub fn len(&self) -> (n: usize)
        ensures
            n == self.cles().len(),
            n == self.valeurs().len(),
    {
        self.entrees.len()
    }

    /// Whether the table holds no name.
    pub fn is_empty(&self) -> (b: bool)
        ensures
            b == (self.cles().len() == 0),
    {
        self.entrees.len() == 0
    }

    /// The place of `cle` among the names, if it is one of them.
    pub fn position(&self, cle: &str) -> (r: Option<usize>)
        ensures
            match r {
                Some(i) => i < self.cles().len() && self.cles()[i as int] == cle@ && forall|j: int|
                    0 <= j < i ==> self.cles()[j] != cle@,
                None => !self.cles().contains(cle@),
            },
    {
        let mut i: usize = 0;
        while i < self.entrees.len()
            invariant
                i <= self.entrees.len(),
                forall|j: int| 0 <= j < i ==> self.cles()[j] != cle@,
            decreases self.entrees.len() - i,
        {
            if egal_str(self.entrees[i].0.as_str(), cle) {
                return Some(i);
            }
            i += 1;
        }
        None
    }

    /// Whether `cle` is bound.
    pub fn contains_key(&self, cle: &str) -> (b: bool)
        ensures
            b == self@.contains_key(cle@),
            b == self.cles().contains(cle@),
    {
        self.position(cle).is_some()
    }

    /// The value bound to `cle`, if any.
    pub fn get(&self, cle: &str) -> (r: Option<&V>)
        requires
            self.wf(),
        ensures
            match r {
                Some(v) => self@.contains_key(cle@) && *v == self@[cle@],
                None => !self@.contains_key(cle@),
            },
    {
        match self.position(cle) {
            Some(i) => {
                proof {
                    self.lemma_vue();
                }
                Some(&self.entrees[i].1)
            },
            None => None,
        }
    }

    /// The names, in insertion order.
    pub fn keys(&self) -> (r: Vec<String>)
        ensures
            vues(r@) == self.cles(),
    {
        let mut noms: Vec<String> = Vec::new();
        let mut i: usize = 0;
        while i < self.entrees.len()
            invariant
                i <= self.entrees@.len(),
                noms@.len() == i,
                forall|j: int| 0 <= j < i ==> (#[trigger] noms@[j])@ == self.entrees@[j].0@,
            decreases self.entrees@.len() - i,
        {
            noms.push(self.entrees[i].0.clone());
            i += 1;
        }
        assert(vues(noms@) =~= self.cles());
        noms
    }

    /// The names, in ascending order.
    pub fn cles_triees(&self) -> (r: Vec<String>)
        ensures
            vues(r@) == noms_tries(self.cles()),
            r@.len() == self.cles().len(),
    {
        trier_noms(self.keys())
    }

    /// The name at place `i`.
    pub fn cle(&self, i: usize) -> (r: &String)
        requires
            i < self.cles().len(),
        ensures
            r@ == self.cles()[i as int],
    {
        &self.entrees[i].0
    }

    /// The value at place `i`.
    pub fn valeur(&self, i: usize) -> (r: &V)
        requires
            i < self.valeurs().len(),
        ensures
            *r == self.valeurs()[i as int],
    {
        &self.entrees[i].1
    }

    /// Binds `cle` to `valeur`. A name already present keeps its place and takes the new
    /// value; a new name goes to the end.
    pub fn insert(&mut self, cle: String, valeur: V)
        requires
            old(self).wf(),
        ensures
            final(self).wf(),
            final(self)@ == old(self)@.insert(cle@, valeur),
            old(self).cles().contains(cle@) ==> final(self).cles() == old(self).cles()
                && final(self).valeurs() == old(self).valeurs().update(
                old(self).cles().index_of(cle@),
                valeur,
            ),
            !old(self).cles().contains(cle@) ==> final(self).cles() == old(self).cles().push(cle@)
                && final(self).valeurs() == old(self).valeurs().push(valeur),
    {
        let ghost avant = *self;
        let ghost k = cle@;
        match self.position(cle.as_str()) {
            Some(i) => {
                self.entrees.set(i, (cle, valeur));
                proof {
                    let j = avant.cles().index_of(k);
                    assert(0 <= j < avant.cles().len() && avant.cles()[j] == k);
                    assert(j == i);
                    assert(self.cles() =~= avant.cles());
                    assert(self.valeurs() =~= avant.valeurs().update(j, valeur));
                    avant.lemma_vue();
                    self.lemma_vue();
                    assert forall|c: Seq<char>| self@.contains_key(c) implies #[trigger] self@[c]
                        == avant@.insert(k, valeur)[c] by {
                        let p = self.cles().index_of(c);
                        assert(0 <= p < self.cles().len() && self.cles()[p] == c);
                        if p != j {
                            assert(avant@[avant.cles()[p]] == avant.valeurs()[p]);
                        }
                    }
                    assert(self@ =~= avant@.insert(k, valeur));
                }
            },
            None => {
                self.entrees.push((cle, valeur));
                proof {
                    assert(self.cles() =~= avant.cles().push(k));
                    assert(self.valeurs() =~= avant.valeurs().push(valeur));
                    assert forall|a: int, b: int|
                        0 <= a < self.cles().len() && 0 <= b < self.cles().len() && a
                            != b implies self.cles()[a] != self.cles()[b] by {
                        if a < avant.cles().len() {
                            assert(avant.cles().contains(avant.cles()[a]));
                        }
                        if b < avant.cles().len() {
                            assert(avant.cles().contains(avant.cles()[b]));
                        }
                    }
                    avant.lemma_vue();
                    self.lemma_vue();
                    assert forall|c: Seq<char>| self@.contains_key(c) implies #[trigger] self@[c]
                        == avant@.insert(k, valeur)[c] by {
                        let p = self.cles().index_of(c);
                        assert(0 <= p < self.cles().len() && self.cles()[p] == c);
                        if p < avant.cles().len() {
                            assert(avant@[avant.cles()[p]] == avant.valeurs()[p]);
                        }
                    }
                    assert forall|c: Seq<char>|
                        self@.contains_key(c) <==> avant@.insert(k, valeur).contains_key(c) by {
                        if avant.cles().contains(c) {
                            let p = avant.cles().index_of(c);
                            assert(self.cles()[p] == c);
                        }
                        if c == k {
                            assert(self.cles()[avant.cles().len() as int] == k);
                        }
                    }
                    assert(self@ =~= avant@.insert(k, valeur));
                }
            },
        }
    }
}

/// The first place of `nom` in `cles`.
pub open spec fn premiere_place(cles: Seq<Seq<char>>, nom: Seq<char>) -> int {
    choose|j: int|
        0 <= j < cles.len() && cles[j] == nom && forall|k: int| 0 <= k < j ==> cles[k] != nom
}

/// Whether `==` on values is what their equality in contracts says.
pub open spec fn valeurs_comparables<V: PartialEq>() -> bool {
    V::obeys_eq_spec()
}

impl<V: PartialEq> Dictionnaire<V> {
    /// Whether `other` binds the name at place `i` of `self`, to a value equal to the
    /// one that `self` binds it to.
    pub open spec fn retrouve(&self, other: &Self, i: int) -> bool {
        other.cles().contains(self.cles()[i]) && self.valeurs()[i].eq_spec(
            &other.valeurs()[premiere_place(other.cles(), self.cles()[i])],
        )
    }
}

impl<V: PartialEq> Dictionnaire<V> {
    /// What `==` decides: whether both tables have as many names, and `other` binds
    /// each name of `self` to an equal value.
    pub open spec fn memes_entrees(&self, other: &Self) -> bool {
        &&& self.cles().len() == other.cles().len()
        &&& forall|i: int| 0 <= i < self.cles().len() ==> #[trigger] self.retrouve(other, i)
    }
}

impl<V: PartialEq> PartialEq for Dictionnaire<V> {
    /// Whether both tables have as many names, and `other` binds each name of `self`
    /// to an equal value.
    fn eq(&self, other: &Self) -> (r: bool) {
        if self.entrees.len() != other.entrees.len() {
            return false;
        }
        let mut i: usize = 0;
        while i < self.entrees.len()
            invariant
                i <= self.entrees@.len(),
                V::obeys_eq_spec() ==> forall|k: int| 0 <= k < i ==> #[trigger] self.retrouve(other, k),
            decreases self.entrees@.len() - i,
        {
            match other.position(self.entrees[i].0.as_str()) {
                Some(j) => {
                    proof {
                        assert(premiere_place(other.cles(), self.cles()[i as int]) == j);
                    }
                    if !(self.entrees[i].1 == other.entrees[j].1) {
                        proof {
                            assert(V::obeys_eq_spec() ==> !self.retrouve(other, i as int));
                        }
                        return false;
                    }
                },
                None => {
                    proof {
                        assert(!self.retrouve(other, i as int));
                    }
                    return false;
                },
            }
            i += 1;
        }
        true
    }
}

impl<V: PartialEq> PartialEqSpecImpl for Dictionnaire<V> {
    open spec fn obeys_eq_spec() -> bool {
        valeurs_comparables::<V>()
    }

    open spec fn eq_spec(&self, other: &Self) -> bool {
        self.memes_entrees(other)
    }
}

impl<V> Default for Dictionnaire<V> {
    /// The empty table.
    fn default() -> (r: Self)
        ensures
            r.wf(),
            r@ == Map::<Seq<char>, V>::empty(),
    {
        Dictionnaire::new()
    }
}

impl<V: Clone> Clone for Dictionnaire<V> {
    /// A table with the same names in the same order, each value cloned.
    fn clone(&self) -> (r: Self)
        ensures
            r.cles() == self.cles(),
            r.valeurs().len() == self.valeurs().len(),
            forall|i: int|
                0 <= i < self.valeurs().len() ==> cloned::<V>(
                    self.valeurs()[i],
                    #[trigger] r.valeurs()[i],
                ),
    {
        let mut entrees: Vec<(String, V)> = Vec::new();
        let mut i: usize = 0;
        while i < self.entrees.len()
            invariant
                i <= self.entrees.len(),
                entrees@.len() == i,
                forall|j: int| 0 <= j < i ==> (#[trigger] entrees@[j]).0@ == self.entrees@[j].0@,
                forall|j: int|
                    0 <= j < i ==> cloned::<V>(self.entrees@[j].1, (#[trigger] entrees@[j]).1),
            decreases self.entrees.len() - i,
        {
            let cle = self.entrees[i].0.clone();
            let valeur = self.entrees[i].1.clone();
            entrees.push((cle, valeur));
            i += 1;
        }
        let r = Dictionnaire { entrees };
        assert(r.cles() =~= self.cles());
        r
    }
}

/// A set of names, in the order in which they first came in. Two sets compare equal
/// when they hold the same names, in whatever order.
#[derive(Debug)]
pub struct EnsembleNoms {
    table: Dictionnaire<()>,
}

impl View for EnsembleNoms {
    type V = Set<Seq<char>>;

    /// The names as a set.
    open spec fn view(&self) -> Set<Seq<char>> {
        self.noms().to_set()
    }
}

impl EnsembleNoms {
    /// The names, in insertion order.
    pub closed spec fn noms(&self) -> Seq<Seq<char>> {
        self.table.cles()
    }

    /// Well-formedness: no name occurs twice.
    pub closed spec fn wf(&self) -> bool {
        self.table.wf()
    }

    /// What well-formedness means for the ordered names, and the size of the set.
    pub proof fn lemma_vue(&self)
        requires
            self.wf(),
        ensures
            self.noms().no_duplicates(),
            self@.finite(),
            self@.len() == self.noms().len(),
    {
        seq_to_set_is_finite(self.noms());
        self.noms().unique_seq_to_set();
    }

    /// The empty set.
    pub fn new() -> (r: Self)
        ensures
            r.wf(),
            r.noms() == Seq::<Seq<char>>::empty(),
            r@ == Set::<Seq<char>>::empty(),
    {
        let r = EnsembleNoms { table: Dictionnaire::new() };
        assert(r@ =~= Set::<Seq<char>>::empty());
        r
    }

    /// The number of names.
    pub fn len(&self) -> (n: usize)
        ensures
            n == self.noms().len(),
    {
        self.table.len()
    }

    /// Whether the set holds no name.
    pub fn is_empty(&self) -> (b: bool)
        ensures
            b == (self.noms().len() == 0),
            b == (self@ == Set::<Seq<char>>::empty()),
    {
        let b = self.table.is_empty();
        proof {
            if b {
                assert(self@ =~= Set::<Seq<char>>::empty());
            } else {
                assert(self.noms().contains(self.noms()[0]));
                assert(self@.contains(self.noms()[0]));
            }
        }
        b
    }

    /// Whether `nom` belongs to the set.
    pub fn contains(&self, nom: &str) -> (b: bool)
        ensures
            b == self@.contains(nom@),
    {
        self.table.contains_key(nom)
    }

    /// The name at place `i`.
    pub fn nom(&self, i: usize) -> (r: &String)
        requires
            i < self.noms().len(),
        ensures
            r@ == self.noms()[i as int],
    {
        self.table.cle(i)
    }

    /// Adds `nom`; says whether it was new. A new name goes to the end.
    pub fn insert(&mut self, nom: String) -> (nouveau: bool)
        requires
            old(self).wf(),
        ensures
            final(self).wf(),
            final(self)@ == old(self)@.insert(nom@),
            nouveau == !old(self)@.contains(nom@),
            nouveau ==> final(self).noms() == old(self).noms().push(nom@),
            !nouveau ==> final(self).noms() == old(self).noms(),
    {
        let ghost avant = *self;
        let nouveau = !self.table.contains_key(nom.as_str());
        self.table.insert(nom, ());
        proof {
            assert forall|c: Seq<char>| self@.contains(c) <==> avant@.insert(nom@).contains(c) by {
                if avant.noms().contains(c) {
                    let p = avant.noms().index_of(c);
                    assert(avant.noms()[p] == c);
                    assert(self.noms()[p] == c);
                }
                if nouveau && c == nom@ {
                    assert(self.noms()[avant.noms().len() as int] == c);
                }
                if self.noms().contains(c) {
                    let p = self.noms().index_of(c);
                    assert(self.noms()[p] == c);
                    if p < avant.noms().len() {
                        assert(avant.noms()[p] == c);
                    }
                }
            }
            assert(self@ =~= avant@.insert(nom@));
        }
        nouveau
    }
}

impl PartialEq for EnsembleNoms {
    /// Whether both sets have as many names, and `other` holds each name of `self`.
    fn eq(&self, other: &Self) -> (r: bool) {
        if self.table.len() != other.table.len() {
            return false;
        }
        let mut i: usize = 0;
        while i < self.table.len()
            invariant
                i <= self.noms().len(),
                forall|k: int| 0 <= k < i ==> other.noms().contains(#[trigger] self.noms()[k]),
            decreases self.noms().len() - i,
        {
            if !other.table.contains_key(self.table.cle(i).as_str()) {
                return false;
            }
            i += 1;
        }
        true
    }
}

impl PartialEqSpecImpl for EnsembleNoms {
    open spec fn obeys_eq_spec() -> bool {
        true
    }

    open spec fn eq_spec(&self, other: &Self) -> bool {
        self.memes_noms(other)
    }
}

impl EnsembleNoms {
    /// What `==` decides: whether both sets have as many names, and `other` holds
    /// each name of `self`.
    pub open spec fn memes_noms(&self, other: &Self) -> bool {
        &&& self.noms().len() == other.noms().len()
        &&& forall|i: int|
            0 <= i < self.noms().len() ==> other.noms().contains(#[trigger] self.noms()[i])
    }

    /// Well-formed sets compare equal exactly when they hold the same names.
    pub proof fn lemme_egalite(&self, other: &Self)
        requires
            self.wf(),
            other.wf(),
        ensures
            self.memes_noms(other) <==> self@ == other@,
    {
        self.lemma_vue();
        other.lemma_vue();
        if self.memes_noms(other) {
            assert forall|nom: Seq<char>| self@.contains(nom) implies other@.contains(nom) by {
                let i = self.noms().index_of(nom);
                assert(self.noms()[i] == nom);
            }
            lemma_subset_equality(self@, other@);
        }
        if self@ == other@ {
            assert forall|i: int| 0 <= i < self.noms().len() implies other.noms().contains(
                #[trigger] self.noms()[i],
            ) by {
                assert(self.noms().contains(self.noms()[i]));
                assert(self@.contains(self.noms()[i]));
            }
        }
    }
}

impl Default for EnsembleNoms {
    /// The empty set.
    fn default() -> (r: Self)
        ensures
            r.wf(),
            r@ == Set::<Seq<char>>::empty(),
    {
        EnsembleNoms::new()
    }
}

impl Clone for EnsembleNoms {
    /// The same names in the same order.
    fn clone(&self) -> (r: Self)
        ensures
            r.noms() == self.noms(),
            r@ == self@,
            self.wf() ==> r.wf(),
    {
        let r = EnsembleNoms { table: self.table.clone() };
        r
    }
}

} // verus!
