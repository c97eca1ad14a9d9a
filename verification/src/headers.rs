//! Header maps: lists of (name, value) pairs with each name at most once, kept in
//! the order names were first inserted.

use vstd::prelude::*;

verus! {

/// Name-value pairs, as character sequences.
pub type Pairs = Seq<(Seq<char>, Seq<char>)>;

/// The pairs of a list of string pairs.
pub open spec fn pairs_view(v: Seq<(String, String)>) -> Pairs {
    v.map_values(|p: (String, String)| (p.0@, p.1@))
}

/// The value stored under `k`, if any.
pub open spec fn lookup(hs: Pairs, k: Seq<char>) -> Option<Seq<char>>
    decreases hs.len(),
{
    if hs.len() == 0 {
        None
    } else if hs[0].0 == k {
        Some(hs[0].1)
    } else {
        lookup(hs.drop_first(), k)
    }
}

/// `hs` with `k` set to `v`: the value replaced where `k` is, otherwise appended.
pub open spec fn assoc_insert(hs: Pairs, k: Seq<char>, v: Seq<char>) -> Pairs
    decreases hs.len(),
{
    if hs.len() == 0 {
        seq![(k, v)]
    } else if hs[0].0 == k {
        seq![(k, v)] + hs.drop_first()
    } else {
        seq![hs[0]] + assoc_insert(hs.drop_first(), k, v)
    }
}

/// No name occurs twice.
pub open spec fn distinct_keys(hs: Pairs) -> bool {
    forall|i: int, j: int| 0 <= i < j < hs.len() ==> hs[i].0 != hs[j].0
}

/// Inserting at the first position holding `k` replaces that pair.
proof fn lemma_insert_at(hs: Pairs, k: Seq<char>, v: Seq<char>, i: int)
    requires
        0 <= i < hs.len(),
        hs[i].0 == k,
        forall|j: int| 0 <= j < i ==> hs[j].0 != k,
    ensures
        assoc_insert(hs, k, v) == hs.update(i, (k, v)),
    decreases i,
{
    if i == 0 {
        assert(seq![(k, v)] + hs.drop_first() =~= hs.update(0, (k, v)));
    } else {
        lemma_insert_at(hs.drop_first(), k, v, i - 1);
        assert(seq![hs[0]] + hs.drop_first().update(i - 1, (k, v)) =~= hs.update(i, (k, v)));
    }
}

/// Inserting a name that does not occur appends the pair.
pub proof fn lemma_insert_absent(hs: Pairs, k: Seq<char>, v: Seq<char>)
    requires
        forall|j: int| 0 <= j < hs.len() ==> hs[j].0 != k,
    ensures
        assoc_insert(hs, k, v) == hs.push((k, v)),
    decreases hs.len(),
{
    if hs.len() > 0 {
        lemma_insert_absent(hs.drop_first(), k, v);
        assert(seq![hs[0]] + hs.drop_first().push((k, v)) =~= hs.push((k, v)));
    }
}

/// Looking up the first position holding `k`.
proof fn lemma_lookup_at(hs: Pairs, k: Seq<char>, i: int)
    requires
        0 <= i <= hs.len(),
        i < hs.len() ==> hs[i].0 == k,
        forall|j: int| 0 <= j < i ==> hs[j].0 != k,
    ensures
        lookup(hs, k) == if i < hs.len() { Some(hs[i].1) } else { None::<Seq<char>> },
    decreases i,
{
    if i > 0 {
        lemma_lookup_at(hs.drop_first(), k, i - 1);
    }
}

/// After inserting, the name holds the new value and every other name keeps its value.
pub proof fn lemma_lookup_insert(hs: Pairs, k: Seq<char>, v: Seq<char>, q: Seq<char>)
    ensures
        q == k ==> lookup(assoc_insert(hs, k, v), q) == Some(v),
        q != k ==> lookup(assoc_insert(hs, k, v), q) == lookup(hs, q),
    decreases hs.len(),
{
    if hs.len() == 0 {
        assert(assoc_insert(hs, k, v)[0] == (k, v));
        assert(assoc_insert(hs, k, v).drop_first() =~= Seq::<(Seq<char>, Seq<char>)>::empty());
        assert(lookup(assoc_insert(hs, k, v).drop_first(), q) is None);
        assert(lookup(hs, q) is None);
    } else if hs[0].0 != k {
        lemma_lookup_insert(hs.drop_first(), k, v, q);
        let a = assoc_insert(hs, k, v);
        assert(a == seq![hs[0]] + assoc_insert(hs.drop_first(), k, v));
        assert(a[0] == hs[0]);
        assert(a.drop_first() =~= assoc_insert(hs.drop_first(), k, v));
        if hs[0].0 != q {
            assert(lookup(a, q) == lookup(a.drop_first(), q));
            assert(lookup(hs, q) == lookup(hs.drop_first(), q));
        }
    } else {
        let a = assoc_insert(hs, k, v);
        assert(a[0] == (k, v));
        assert(a.drop_first() =~= hs.drop_first());
        if q != k {
            assert(lookup(a, q) == lookup(a.drop_first(), q));
            assert(lookup(hs, q) == lookup(hs.drop_first(), q));
        }
    }
}

/// Inserting keeps names distinct.
pub proof fn lemma_insert_distinct(hs: Pairs, k: Seq<char>, v: Seq<char>)
    requires
        distinct_keys(hs),
    ensures
        distinct_keys(assoc_insert(hs, k, v)),
{
    if exists|i: int| 0 <= i < hs.len() && hs[i].0 == k {
        let i = choose|i: int| 0 <= i < hs.len() && hs[i].0 == k;
        lemma_insert_at(hs, k, v, i);
    } else {
        lemma_insert_absent(hs, k, v);
    }
}

/// The position of `k` in `v`, if any.
fn position_of(v: &Vec<(String, String)>, k: &str) -> (r: Option<usize>)
    ensures
        match r {
            Some(i) => i < v@.len() && pairs_view(v@)[i as int].0 == k@ && forall|j: int|
                0 <= j < i ==> pairs_view(v@)[j].0 != k@,
            None => forall|j: int| 0 <= j < v@.len() ==> pairs_view(v@)[j].0 != k@,
        },
{
    let mut i: usize = 0;
    while i < v.len()
        invariant
            i <= v@.len(),
            forall|j: int| 0 <= j < i ==> pairs_view(v@)[j].0 != k@,
        decreases v.len() - i,
    {
        if crate::text::str_eq(v[i].0.as_str(), k) {
            return Some(i);
        }
        i = i + 1;
    }
    None
}

/// Sets `k` to `val`.
pub fn pairs_insert(v: &mut Vec<(String, String)>, k: String, val: String)
    ensures
        pairs_view(final(v)@) == assoc_insert(pairs_view(old(v)@), k@, val@),
{
    let ghost before = pairs_view(v@);
    match position_of(v, k.as_str()) {
        Some(i) => {
            proof {
                lemma_insert_at(before, k@, val@, i as int);
            }
            v.set(i, (k, val));
            assert(pairs_view(v@) =~= before.update(i as int, (k@, val@)));
        },
        None => {
            proof {
                lemma_insert_absent(before, k@, val@);
            }
            v.push((k, val));
            assert(pairs_view(v@) =~= before.push((k@, val@)));
        },
    }
}

/// The value stored under `k`.
pub fn pairs_get<'a>(v: &'a Vec<(String, String)>, k: &str) -> (r: Option<&'a String>)
    ensures
        match r {
            Some(s) => lookup(pairs_view(v@), k@) == Some(s@),
            None => lookup(pairs_view(v@), k@) is None,
        },
{
    match position_of(v, k) {
        Some(i) => {
            proof {
                lemma_lookup_at(pairs_view(v@), k@, i as int);
            }
            Some(&v[i].1)
        },
        None => {
            proof {
                lemma_lookup_at(pairs_view(v@), k@, v@.len() as int);
            }
            None
        },
    }
}

/// A copy of a list of pairs.
pub fn clone_pairs(v: &Vec<(String, String)>) -> (r: Vec<(String, String)>)
    ensures
        pairs_view(r@) == pairs_view(v@),
{
    let mut r: Vec<(String, String)> = Vec::new();
    let mut i: usize = 0;
    while i < v.len()
        invariant
            i <= v@.len(),
            pairs_view(r@) == pairs_view(v@).take(i as int),
        decreases v.len() - i,
    {
        let ghost before = r@;
        r.push((v[i].0.clone(), v[i].1.clone()));
        assert(pairs_view(v@)[i as int] == (v@[i as int].0@, v@[i as int].1@));
        assert(pairs_view(r@) =~= pairs_view(before).push((v@[i as int].0@, v@[i as int].1@)));
        assert(pairs_view(r@) =~= pairs_view(v@).take(i + 1));
        i = i + 1;
    }
    assert(pairs_view(v@).take(i as int) =~= pairs_view(v@));
    r
}

} // verus!
