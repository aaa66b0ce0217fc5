//! Comparison, ordering and assembly of text, stated over sequences of characters.

use vstd::prelude::*;
use vstd::string::StringExecFns;
use vstd::string::StrSliceExecFns;
use vstd::string::StringSliceAdditionalSpecFns;
use vstd::relations::sorted_by;
use vstd::relations::total_ordering;
use vstd::seq_lib::lemma_sorted_unique;
use vstd::seq_lib::to_multiset_remove;
use vstd::utf8::encode_utf8;
use vstd::utf8::encode_utf8_decode_utf8;

verus! {

/// Whether two string slices hold the same characters.
pub fn egal_str(a: &str, b: &str) -> (r: bool)
    ensures
        r == (a@ == b@),
{
    let x = a.as_bytes();
    let y = b.as_bytes();
    if x.len() != y.len() {
        return false;
    }
    let mut i: usize = 0;
    while i < x.len()
        invariant
            i <= x.len(),
            x.len() == y.len(),
            x@ == a.spec_bytes(),
            y@ == b.spec_bytes(),
            forall|j: int| 0 <= j < i ==> x@[j] == y@[j],
        decreases x.len() - i,
    {
        if x[i] != y[i] {
            return false;
        }
        i += 1;
    }
    proof {
        assert(x@ =~= y@);
        encode_utf8_decode_utf8(a@);
        encode_utf8_decode_utf8(b@);
    }
    true
}

/// The texts of `parts` written one after another, `sep` between neighbours.
pub open spec fn joindre(parts: Seq<Seq<char>>, sep: Seq<char>) -> Seq<char>
    decreases parts.len(),
{
    if parts.len() == 0 {
        Seq::empty()
    } else if parts.len() == 1 {
        parts[0]
    } else {
        joindre(parts.drop_last(), sep) + sep + parts.last()
    }
}

/// A fresh `String` with the characters of `a` followed by those of `b`.
pub fn accoler(a: &str, b: &str) -> (r: String)
    ensures
        r@ == a@ + b@,
{
    let mut r = String::from_str(a);
    r.append(b);
    r
}

/// The views of a sequence of strings.
pub open spec fn vues(v: Seq<String>) -> Seq<Seq<char>> {
    Seq::new(v.len(), |i: int| v[i]@)
}

/// The views of a sequence with one more string are the views of the sequence with
/// one more view.
pub proof fn lemme_vues_push(v: Seq<String>, x: String)
    ensures
        vues(v.push(x)) == vues(v).push(x@),
{
    assert(vues(v.push(x)) =~= vues(v).push(x@));
}

/// Lexicographic order on bytes: whether `a` comes before `b` or equals it.
pub open spec fn precede(a: Seq<u8>, b: Seq<u8>) -> bool
    decreases a.len(),
{
    if a.len() == 0 {
        true
    } else if b.len() == 0 {
        false
    } else if a[0] != b[0] {
        a[0] < b[0]
    } else {
        precede(a.skip(1), b.skip(1))
    }
}

/// The order of names: lexicographic on their UTF-8 bytes.
pub open spec fn nom_precede(a: Seq<char>, b: Seq<char>) -> bool {
    precede(encode_utf8(a), encode_utf8(b))
}

/// Whether the names of `s` never go down.
pub open spec fn noms_croissants(s: Seq<Seq<char>>) -> bool {
    forall|i: int, j: int| 0 <= i < j < s.len() ==> nom_precede(s[i], s[j])
}

/// Of two byte sequences, one comes before the other or equals it.
pub proof fn lemme_precede_total(a: Seq<u8>, b: Seq<u8>)
    ensures
        precede(a, b) || precede(b, a),
    decreases a.len(),
{
    if a.len() > 0 && b.len() > 0 && a[0] == b[0] {
        lemme_precede_total(a.skip(1), b.skip(1));
    }
}

/// The order on byte sequences is transitive.
pub proof fn lemme_precede_transitif(a: Seq<u8>, b: Seq<u8>, c: Seq<u8>)
    requires
        precede(a, b),
        precede(b, c),
    ensures
        precede(a, c),
    decreases a.len(),
{
    if a.len() > 0 && b.len() > 0 && c.len() > 0 && a[0] == b[0] && b[0] == c[0] {
        lemme_precede_transitif(a.skip(1), b.skip(1), c.skip(1));
    }
}

/// Two byte sequences that come before each other are the same.
pub proof fn lemme_precede_antisymetrique(a: Seq<u8>, b: Seq<u8>)
    requires
        precede(a, b),
        precede(b, a),
    ensures
        a == b,
    decreases a.len(),
{
    if a.len() > 0 && b.len() > 0 {
        lemme_precede_antisymetrique(a.skip(1), b.skip(1));
        assert(a =~= seq![a[0]] + a.skip(1));
        assert(b =~= seq![b[0]] + b.skip(1));
    } else {
        assert(a =~= b);
    }
}

/// Whether `a` comes before `b`, or equals it, in the order of names.
pub fn precede_str(a: &str, b: &str) -> (r: bool)
    ensures
        r == nom_precede(a@, b@),
{
    let x = a.as_bytes();
    let y = b.as_bytes();
    let mut i: usize = 0;
    proof {
        assert(x@.skip(0) =~= x@);
        assert(y@.skip(0) =~= y@);
    }
    while i < x.len() && i < y.len()
        invariant
            i <= x@.len(),
            i <= y@.len(),
            x@ == encode_utf8(a@),
            y@ == encode_utf8(b@),
            precede(x@, y@) == precede(x@.skip(i as int), y@.skip(i as int)),
        decreases x@.len() - i,
    {
        proof {
            assert(x@.skip(i as int).skip(1) =~= x@.skip(i + 1));
            assert(y@.skip(i as int).skip(1) =~= y@.skip(i + 1));
            assert(x@.skip(i as int)[0] == x@[i as int]);
            assert(y@.skip(i as int)[0] == y@[i as int]);
        }
        if x[i] != y[i] {
            return x[i] < y[i];
        }
        i += 1;
    }
    i >= x.len()
}

/// The order of names, as a relation.
pub open spec fn ordre_noms() -> spec_fn(Seq<char>, Seq<char>) -> bool {
    |a: Seq<char>, b: Seq<char>| nom_precede(a, b)
}

/// The names of `s` in ascending order.
pub open spec fn noms_tries(s: Seq<Seq<char>>) -> Seq<Seq<char>> {
    s.sort_by(ordre_noms())
}

/// The order of names is a total order.
pub proof fn lemme_ordre_noms_total()
    ensures
        total_ordering(ordre_noms()),
{
    let r = ordre_noms();
    assert forall|x: Seq<char>| #[trigger] r(x, x) by {
        lemme_precede_total(encode_utf8(x), encode_utf8(x));
    }
    assert forall|x: Seq<char>, y: Seq<char>| #[trigger] r(x, y) && #[trigger] r(y, x) implies x
        == y by {
        lemme_precede_antisymetrique(encode_utf8(x), encode_utf8(y));
        encode_utf8_decode_utf8(x);
        encode_utf8_decode_utf8(y);
    }
    assert forall|x: Seq<char>, y: Seq<char>, z: Seq<char>| #[trigger]
        r(x, y) && #[trigger] r(y, z) implies r(x, z) by {
        lemme_precede_transitif(encode_utf8(x), encode_utf8(y), encode_utf8(z));
    }
    assert forall|x: Seq<char>, y: Seq<char>| #[trigger] r(x, y) || #[trigger] r(y, x) by {
        lemme_precede_total(encode_utf8(x), encode_utf8(y));
    }
}

/// Being in ascending order and holding the same names as `s`, each as often, is
/// being `noms_tries(s)`.
pub proof fn lemme_noms_tries(s: Seq<Seq<char>>, t: Seq<Seq<char>>)
    requires
        noms_croissants(t),
        t.to_multiset() == s.to_multiset(),
    ensures
        t == noms_tries(s),
{
    lemme_ordre_noms_total();
    s.lemma_sort_by_ensures(ordre_noms());
    assert(sorted_by(t, ordre_noms()));
    lemma_sorted_unique(t, s.sort_by(ordre_noms()), ordre_noms());
}

/// Sorts names in ascending order.
pub fn trier_noms(noms: Vec<String>) -> (r: Vec<String>)
    ensures
        vues(r@) == noms_tries(vues(noms@)),
        noms_croissants(vues(r@)),
        vues(r@).to_multiset() == vues(noms@).to_multiset(),
        r@.len() == noms@.len(),
{
    let ghost avant = noms@;
    let mut reste = noms;
    let mut tries: Vec<String> = Vec::new();
    let ghost mut k: int = 0;
    proof {
        assert(vues(tries@) =~= vues(avant.subrange(0, 0)));
        assert(reste@ =~= avant.subrange(0, avant.len() as int));
    }
    while reste.len() > 0
        invariant
            0 <= k <= avant.len(),
            reste@ == avant.subrange(k, avant.len() as int),
            tries@.len() == k,
            noms_croissants(vues(tries@)),
            vues(tries@).to_multiset() == vues(avant.subrange(0, k)).to_multiset(),
        decreases reste.len(),
    {
        let c = reste.remove(0);
        let mut pos: usize = tries.len();
        while pos > 0 && !precede_str(tries[pos - 1].as_str(), c.as_str())
            invariant
                pos <= tries.len(),
                forall|j: int| pos <= j < tries.len() ==> !nom_precede(tries@[j]@, c@),
            decreases pos,
        {
            pos -= 1;
        }
        let ghost t0 = tries@;
        tries.insert(pos, c);
        proof {
            let v0 = vues(t0);
            let v1 = vues(tries@);
            assert(c == avant[k]);
            assert(reste@ =~= avant.subrange(k + 1, avant.len() as int));
            assert(v1 =~= v0.insert(pos as int, c@));
            assert(v1.remove(pos as int) =~= v0);
            to_multiset_remove(v1, pos as int);
            v1.to_multiset_ensures();
            assert(v1[pos as int] == c@);
            assert(v1.contains(c@));
            assert(v1.to_multiset() =~= v0.to_multiset().insert(c@));
            assert(vues(avant.subrange(0, k + 1)) =~= vues(avant.subrange(0, k)).push(c@));
            vues(avant.subrange(0, k)).to_multiset_ensures();
            assert forall|i: int, j: int| 0 <= i < j < v1.len() implies nom_precede(
                v1[i],
                v1[j],
            ) by {
                if j < pos {
                    assert(v1[i] == v0[i] && v1[j] == v0[j]);
                } else if j == pos {
                    assert(v1[i] == v0[i]);
                    assert(nom_precede(v0[pos - 1], c@));
                    if i < pos - 1 {
                        assert(nom_precede(v0[i], v0[pos - 1]));
                        lemme_precede_transitif(
                            encode_utf8(v0[i]),
                            encode_utf8(v0[pos - 1]),
                            encode_utf8(c@),
                        );
                    }
                } else if i == pos {
                    assert(v1[j] == v0[j - 1]);
                    assert(!nom_precede(v0[j - 1], c@));
                    lemme_precede_total(encode_utf8(v0[j - 1]), encode_utf8(c@));
                } else if i < pos {
                    assert(v1[i] == v0[i] && v1[j] == v0[j - 1]);
                } else {
                    assert(v1[i] == v0[i - 1] && v1[j] == v0[j - 1]);
                }
            }
            k = k + 1;
        }
    }
    proof {
        assert(avant.subrange(0, k) =~= avant);
        lemme_noms_tries(vues(avant), vues(tries@));
    }
    tries
}

/// The character of a decimal digit.
pub open spec fn chiffre(d: int) -> char {
    if d == 0 {
        '0'
    } else if d == 1 {
        '1'
    } else if d == 2 {
        '2'
    } else if d == 3 {
        '3'
    } else if d == 4 {
        '4'
    } else if d == 5 {
        '5'
    } else if d == 6 {
        '6'
    } else if d == 7 {
        '7'
    } else if d == 8 {
        '8'
    } else {
        '9'
    }
}

/// The decimal writing of a natural number, without leading zeros.
pub open spec fn decimal(n: nat) -> Seq<char>
    decreases n,
{
    if n < 10 {
        seq![chiffre(n as int)]
    } else {
        decimal(n / 10).push(chiffre((n % 10) as int))
    }
}

/// The decimal writing of an integer: a minus sign before the digits of a negative
/// number.
pub open spec fn entier_decimal(i: int) -> Seq<char> {
    if i < 0 {
        seq!['-'] + decimal((-i) as nat)
    } else {
        decimal(i as nat)
    }
}

fn texte_chiffre(d: u64) -> (r: &'static str)
    requires
        d < 10,
    ensures
        r@ == seq![chiffre(d as int)],
{
    proof {
        reveal_strlit("0");
        reveal_strlit("1");
        reveal_strlit("2");
        reveal_strlit("3");
        reveal_strlit("4");
        reveal_strlit("5");
        reveal_strlit("6");
        reveal_strlit("7");
        reveal_strlit("8");
        reveal_strlit("9");
    }
    let r = if d == 0 {
        "0"
    } else if d == 1 {
        "1"
    } else if d == 2 {
        "2"
    } else if d == 3 {
        "3"
    } else if d == 4 {
        "4"
    } else if d == 5 {
        "5"
    } else if d == 6 {
        "6"
    } else if d == 7 {
        "7"
    } else if d == 8 {
        "8"
    } else {
        "9"
    };
    assert(r@ =~= seq![chiffre(d as int)]);
    r
}

/// Writes a natural number in decimal.
pub fn texte_decimal(n: u64) -> (r: String)
    ensures
        r@ == decimal(n as nat),
    decreases n,
{
    if n < 10 {
        String::from_str(texte_chiffre(n))
    } else {
        let mut r = texte_decimal(n / 10);
        r.append(texte_chiffre(n % 10));
        assert(r@ =~= decimal(n as nat));
        r
    }
}

/// Writes an integer in decimal.
pub fn texte_entier(i: i32) -> (r: String)
    ensures
        r@ == entier_decimal(i as int),
{
    if i < 0 {
        let n: u64 = (-(i as i64)) as u64;
        let chiffres = texte_decimal(n);
        proof {
            reveal_strlit("-");
            assert("-"@ =~= seq!['-']);
        }
        accoler("-", chiffres.as_str())
    } else {
        texte_decimal(i as u64)
    }
}

/// The value of a decimal digit, if `c` is one.
pub open spec fn valeur_chiffre(c: char) -> Option<int> {
    if '0' <= c <= '9' {
        Some(c as int - '0' as int)
    } else {
        None
    }
}

/// The number that a sequence of decimal digits writes, if `s` is one and is not
/// empty. Leading zeros are accepted.
pub open spec fn valeur_chiffres(s: Seq<char>) -> Option<int>
    decreases s.len(),
{
    if s.len() == 0 {
        None
    } else if s.len() == 1 {
        valeur_chiffre(s[0])
    } else {
        match (valeur_chiffres(s.drop_last()), valeur_chiffre(s.last())) {
            (Some(debut), Some(unite)) => Some(10 * debut + unite),
            _ => None,
        }
    }
}

/// The part of `s` where its digits are expected: what follows a leading sign, or `s`
/// itself if it starts with none.
pub open spec fn sans_signe(s: Seq<char>) -> Seq<char> {
    if s.len() > 0 && (s[0] == '-' || s[0] == '+') {
        s.skip(1)
    } else {
        s
    }
}

/// The integer that `s` writes, if it writes one that fits in 32 bits: an optional
/// sign, `+` or `-`, then at least one decimal digit and nothing else.
pub open spec fn entier_lu(s: Seq<char>) -> Option<i32> {
    match valeur_chiffres(sans_signe(s)) {
        Some(v) => {
            let n = if s[0] == '-' {
                -v
            } else {
                v
            };
            if i32::MIN <= n <= i32::MAX {
                Some(n as i32)
            } else {
                None
            }
        },
        None => None,
    }
}

/// A sequence that writes a number holds digits only, and each of its beginnings
/// writes a number that is not larger.
pub proof fn lemme_valeur_chiffres(s: Seq<char>, k: int)
    requires
        valeur_chiffres(s) is Some,
        0 < k <= s.len(),
    ensures
        valeur_chiffre(s[k - 1]) is Some,
        valeur_chiffres(s.subrange(0, k)) matches Some(debut) && 0 <= debut <= valeur_chiffres(
            s,
        )->Some_0,
    decreases s.len(),
{
    if s.len() == 1 {
        assert(s.subrange(0, 1) =~= s);
    } else if k == s.len() {
        assert(s.subrange(0, k) =~= s);
        lemme_valeur_chiffres(s.drop_last(), k - 1);
        assert(s.drop_last().subrange(0, k - 1) =~= s.drop_last());
    } else {
        lemme_valeur_chiffres(s.drop_last(), k);
        assert(s.drop_last().subrange(0, k) =~= s.subrange(0, k));
        assert(s.drop_last()[k - 1] == s[k - 1]);
    }
}

/// Reads an integer written in decimal, with an optional sign.
pub fn lire_entier(texte: &str) -> (r: Option<i32>)
    ensures
        r == entier_lu(texte@),
{
    if !texte.is_ascii() {
        proof {
            let s = texte@;
            let i = choose|i: int| 0 <= i < s.len() && !('\0' <= #[trigger] s[i] <= '\u{7f}');
            let chiffres = sans_signe(s);
            if valeur_chiffres(chiffres) is Some {
                if chiffres.len() == s.len() {
                    lemme_valeur_chiffres(chiffres, i + 1);
                } else {
                    assert(i > 0);
                    lemme_valeur_chiffres(chiffres, i);
                    assert(chiffres[i - 1] == s[i]);
                }
            }
        }
        return None;
    }
    let n = texte.unicode_len();
    if n == 0 {
        return None;
    }
    let premier = texte.get_ascii(0);
    let negatif = premier == 45;
    let debut: usize = if premier == 45 || premier == 43 {
        1
    } else {
        0
    };
    let ghost s = texte@;
    let ghost chiffres = sans_signe(s);
    proof {
        assert(s[0] as u8 == premier);
        assert(('-' as u8) == 45u8 && ('+' as u8) == 43u8);
        assert(negatif == (s[0] == '-'));
        assert(debut == 1 <==> (s[0] == '-' || s[0] == '+'));
        assert(chiffres =~= s.skip(debut as int));
    }
    if debut == n {
        return None;
    }
    let mut acc: i64 = 0;
    let mut i: usize = debut;
    while i < n
        invariant
            debut <= i <= n,
            n == s.len(),
            s == texte@,
            texte.is_ascii(),
            chiffres == s.skip(debut as int),
            chiffres == sans_signe(s),
            0 <= acc <= 2147483648,
            i == debut ==> acc == 0,
            i > debut ==> valeur_chiffres(chiffres.subrange(0, i - debut)) == Some(acc as int),
        decreases n - i,
    {
        let b = texte.get_ascii(i);
        proof {
            assert(s[i as int] as u8 == b);
            assert(chiffres[i - debut] == s[i as int]);
            assert(('0' as u8) == 48u8 && ('9' as u8) == 57u8);
        }
        if b < 48 || b > 57 {
            proof {
                if valeur_chiffres(chiffres) is Some {
                    lemme_valeur_chiffres(chiffres, i - debut + 1);
                }
            }
            return None;
        }
        let d: i64 = (b - 48) as i64;
        let suivant: i64 = acc * 10 + d;
        proof {
            let court = chiffres.subrange(0, i - debut);
            let long = chiffres.subrange(0, i - debut + 1);
            assert(long.drop_last() =~= court);
            assert(long.last() == s[i as int]);
            assert(valeur_chiffre(s[i as int]) == Some(d as int));
            assert(valeur_chiffres(long) == Some(suivant as int));
        }
        if suivant > 2147483648 {
            proof {
                if valeur_chiffres(chiffres) is Some {
                    lemme_valeur_chiffres(chiffres, i - debut + 1);
                }
            }
            return None;
        }
        acc = suivant;
        i += 1;
    }
    proof {
        assert(chiffres.subrange(0, n - debut) =~= chiffres);
    }
    if negatif {
        Some((-acc) as i32)
    } else if acc > 2147483647 {
        None
    } else {
        Some(acc as i32)
    }
}

} // verus!
