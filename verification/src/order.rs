//! Lexicographic order on strings and on (key, value) pairs, and sorting by it.
//!
//! Strings are compared character by character by code point, which is the order
//! in which `str`'s comparison puts UTF-8 strings.

use vstd::prelude::*;
use vstd::relations::*;

verus! {

broadcast use vstd::seq_lib::group_to_multiset_ensures;

/// `a` comes before `b` or equals it, comparing code points left to right.
pub open spec fn lex_le(a: Seq<char>, b: Seq<char>) -> bool
    decreases a.len(),
{
    if a.len() == 0 {
        true
    } else if b.len() == 0 {
        false
    } else if (a[0] as u32) < (b[0] as u32) {
        true
    } else if (a[0] as u32) > (b[0] as u32) {
        false
    } else {
        lex_le(a.drop_first(), b.drop_first())
    }
}

/// A (key, value) pair of strings.
pub type StrPair = (Seq<char>, Seq<char>);

/// Pairs ordered by key, then by value.
pub open spec fn pair_le(p: StrPair, q: StrPair) -> bool {
    (lex_le(p.0, q.0) && p.0 != q.0) || (p.0 == q.0 && lex_le(p.1, q.1))
}

/// `pair_le` as a relation value.
pub open spec fn pair_order() -> spec_fn(StrPair, StrPair) -> bool {
    |p: StrPair, q: StrPair| pair_le(p, q)
}

proof fn lemma_char_eq(a: char, b: char)
    requires
        a as u32 == b as u32,
    ensures
        a == b,
{
}

proof fn lemma_lex_reflexive(a: Seq<char>)
    ensures
        lex_le(a, a),
    decreases a.len(),
{
    if a.len() > 0 {
        lemma_lex_reflexive(a.drop_first());
    }
}

proof fn lemma_lex_antisymmetric(a: Seq<char>, b: Seq<char>)
    requires
        lex_le(a, b),
        lex_le(b, a),
    ensures
        a == b,
    decreases a.len(),
{
    if a.len() == 0 {
        assert(b.len() == 0);
        assert(a =~= b);
    } else {
        assert(b.len() > 0);
        lemma_char_eq(a[0], b[0]);
        lemma_lex_antisymmetric(a.drop_first(), b.drop_first());
        assert(a =~= seq![a[0]] + a.drop_first());
        assert(b =~= seq![b[0]] + b.drop_first());
    }
}

proof fn lemma_lex_transitive(a: Seq<char>, b: Seq<char>, c: Seq<char>)
    requires
        lex_le(a, b),
        lex_le(b, c),
    ensures
        lex_le(a, c),
    decreases a.len(),
{
    if a.len() > 0 && b.len() > 0 && c.len() > 0 {
        if (a[0] as u32) == (b[0] as u32) && (b[0] as u32) == (c[0] as u32) {
            lemma_lex_transitive(a.drop_first(), b.drop_first(), c.drop_first());
        }
    }
}

proof fn lemma_lex_total(a: Seq<char>, b: Seq<char>)
    ensures
        lex_le(a, b) || lex_le(b, a),
    decreases a.len(),
{
    if a.len() > 0 && b.len() > 0 {
        lemma_lex_total(a.drop_first(), b.drop_first());
    }
}

/// `pair_le` is a total order.
pub proof fn lemma_pair_order_total()
    ensures
        total_ordering(pair_order()),
{
    let r = pair_order();
    assert forall|x: StrPair| #[trigger] r(x, x) by {
        lemma_lex_reflexive(x.1);
    }
    assert forall|x: StrPair, y: StrPair| #[trigger] r(x, y) && #[trigger] r(y, x) implies x == y by {
        if x.0 == y.0 {
            lemma_lex_antisymmetric(x.1, y.1);
        } else {
            lemma_lex_antisymmetric(x.0, y.0);
        }
    }
    assert forall|x: StrPair, y: StrPair, z: StrPair| #[trigger] r(x, y) && #[trigger] r(y, z) implies r(x, z) by {
        if x.0 == y.0 && y.0 == z.0 {
            lemma_lex_transitive(x.1, y.1, z.1);
        } else if x.0 == y.0 {
        } else if y.0 == z.0 {
        } else {
            lemma_lex_transitive(x.0, y.0, z.0);
            if x.0 == z.0 {
                lemma_lex_antisymmetric(x.0, y.0);
            }
        }
    }
    assert forall|x: StrPair, y: StrPair| #[trigger] r(x, y) || #[trigger] r(y, x) by {
        lemma_lex_total(x.0, y.0);
        lemma_lex_total(x.1, y.1);
    }
}

/// A sequence sorted by a total order is determined by its elements: two sorted
/// arrangements of the same multiset are equal.
pub proof fn lemma_sorted_unique<A>(a: Seq<A>, b: Seq<A>, leq: spec_fn(A, A) -> bool)
    requires
        total_ordering(leq),
        sorted_by(a, leq),
        sorted_by(b, leq),
        a.to_multiset() == b.to_multiset(),
    ensures
        a == b,
    decreases a.len(),
{
    if a.len() == 0 {
        assert(b.to_multiset().len() == 0);
        assert(b =~= a);
    } else {
        assert(a.to_multiset().len() == a.len());
        assert(b.to_multiset().len() == b.len());
        assert(b.len() == a.len());
        assert(a.to_multiset().count(b[0]) > 0);
        assert(b.to_multiset().count(a[0]) > 0);
        let k = choose|k: int| 0 <= k < a.len() && a[k] == b[0];
        let m = choose|m: int| 0 <= m < b.len() && b[m] == a[0];
        if k > 0 {
            assert(leq(a[0], a[k]));
        } else {
            assert(leq(a[0], a[0]));
        }
        if m > 0 {
            assert(leq(b[0], b[m]));
        } else {
            assert(leq(b[0], b[0]));
        }
        assert(a[0] == b[0]);
        let a1 = a.drop_first();
        let b1 = b.drop_first();
        assert(a.remove(0) =~= a1);
        assert(b.remove(0) =~= b1);
        assert(a1.to_multiset() == a.to_multiset().remove(a[0]));
        assert(b1.to_multiset() == b.to_multiset().remove(b[0]));
        assert(sorted_by(a1, leq)) by {
            assert forall|i: int, j: int| 0 <= i < j < a1.len() implies #[trigger] leq(a1[i], a1[j]) by {
                assert(leq(a[i + 1], a[j + 1]));
            }
        }
        assert(sorted_by(b1, leq)) by {
            assert forall|i: int, j: int| 0 <= i < j < b1.len() implies #[trigger] leq(b1[i], b1[j]) by {
                assert(leq(b[i + 1], b[j + 1]));
            }
        }
        lemma_sorted_unique(a1, b1, leq);
        assert(a =~= seq![a[0]] + a1);
        assert(b =~= seq![b[0]] + b1);
    }
}

/// The sorted arrangement of a sequence of pairs.
pub open spec fn sorted_pairs(s: Seq<StrPair>) -> Seq<StrPair> {
    s.sort_by(pair_order())
}

/// Sorting depends only on the elements, not on their order.
pub proof fn lemma_sorted_pairs_permutation(a: Seq<StrPair>, b: Seq<StrPair>)
    requires
        a.to_multiset() == b.to_multiset(),
    ensures
        sorted_pairs(a) == sorted_pairs(b),
{
    lemma_pair_order_total();
    a.lemma_sort_by_ensures(pair_order());
    b.lemma_sort_by_ensures(pair_order());
    lemma_sorted_unique(sorted_pairs(a), sorted_pairs(b), pair_order());
}

/// Executable `lex_le`.
pub fn lex_le_exec(a: &[char], b: &[char]) -> (r: bool)
    ensures
        r == lex_le(a@, b@),
{
    let mut i: usize = 0;
    assert(a@.skip(0) =~= a@);
    assert(b@.skip(0) =~= b@);
    while i < a.len() && i < b.len()
        invariant
            i <= a.len(),
            i <= b.len(),
            lex_le(a@, b@) == lex_le(a@.skip(i as int), b@.skip(i as int)),
        decreases a.len() - i,
    {
        let x = a[i] as u32;
        let y = b[i] as u32;
        if x < y {
            return true;
        }
        if x > y {
            return false;
        }
        assert(a@.skip(i as int).drop_first() =~= a@.skip(i + 1));
        assert(b@.skip(i as int).drop_first() =~= b@.skip(i + 1));
        i = i + 1;
    }
    i == a.len()
}

/// An executable (key, value) pair of strings.
pub type CharPair = (Vec<char>, Vec<char>);

/// The strings of an executable pair.
pub open spec fn pair_view(p: CharPair) -> StrPair {
    (p.0@, p.1@)
}

/// The strings of a list of executable pairs.
pub open spec fn pairs_view(v: Seq<CharPair>) -> Seq<StrPair> {
    v.map_values(|p: CharPair| pair_view(p))
}

/// Executable `pair_le`.
pub fn pair_le_exec(p: &CharPair, q: &CharPair) -> (r: bool)
    ensures
        r == pair_le(pair_view(*p), pair_view(*q)),
{
    let keys_equal = crate::text::chars_eq(p.0.as_slice(), q.0.as_slice());
    if keys_equal {
        lex_le_exec(p.1.as_slice(), q.1.as_slice())
    } else {
        lex_le_exec(p.0.as_slice(), q.0.as_slice())
    }
}

/// Sorts pairs by key, then value (insertion sort).
pub fn sort_pairs(v: Vec<CharPair>) -> (r: Vec<CharPair>)
    ensures
        pairs_view(r@) == sorted_pairs(pairs_view(v@)),
{
    proof {
        lemma_pair_order_total();
    }
    let ghost leq = pair_order();
    let ghost input = pairs_view(v@);
    let mut r: Vec<CharPair> = Vec::new();
    let mut rest = v;
    while rest.len() > 0
        invariant
            total_ordering(leq),
            leq == pair_order(),
            sorted_by(pairs_view(r@), leq),
            pairs_view(r@).to_multiset().add(pairs_view(rest@).to_multiset()) == input.to_multiset(),
        decreases rest.len(),
    {
        let ghost before = rest@;
        let x = rest.pop().unwrap();
        proof {
            assert(pairs_view(before) =~= pairs_view(rest@).push(pair_view(x)));
        }
        // First position whose element is not below x.
        let mut p: usize = 0;
        while p < r.len() && !pair_le_exec(&x, &r[p])
            invariant
                p <= r.len(),
                forall|j: int| 0 <= j < p ==> !pair_le(pair_view(x), #[trigger] pair_view(r@[j])),
            decreases r.len() - p,
        {
            p = p + 1;
        }
        let ghost old_r = pairs_view(r@);
        proof {
            let xv = pair_view(x);
            assert forall|j: int| 0 <= j < p implies #[trigger] leq(old_r[j], xv) by {
                assert(!pair_le(xv, pair_view(r@[j])));
                assert(leq(xv, old_r[j]) || leq(old_r[j], xv));
            }
            if p < r.len() {
                assert(pair_le(xv, pair_view(r@[p as int])));
                assert(leq(xv, old_r[p as int]));
            }
        }
        r.insert(p, x);
        proof {
            let xv = pair_view(x);
            assert(pairs_view(r@) =~= old_r.insert(p as int, xv));
            assert forall|i: int, j: int| 0 <= i < j < pairs_view(r@).len() implies #[trigger] leq(
                pairs_view(r@)[i],
                pairs_view(r@)[j],
            ) by {
                let s = pairs_view(r@);
                if j < p {
                    assert(s[i] == old_r[i] && s[j] == old_r[j]);
                    assert(leq(old_r[i], old_r[j]));
                } else if j == p {
                    assert(s[i] == old_r[i] && s[j] == xv);
                    assert(leq(old_r[i], xv));
                } else if i == p {
                    assert(s[i] == xv && s[j] == old_r[j - 1]);
                    assert(leq(xv, old_r[p as int]));
                    if j - 1 > p {
                        assert(leq(old_r[p as int], old_r[j - 1]));
                    }
                } else if i < p {
                    assert(s[i] == old_r[i] && s[j] == old_r[j - 1]);
                    assert(leq(old_r[i], xv));
                    assert(leq(xv, old_r[p as int]));
                    if j - 1 > p {
                        assert(leq(old_r[p as int], old_r[j - 1]));
                    }
                } else {
                    assert(s[i] == old_r[i - 1] && s[j] == old_r[j - 1]);
                    assert(leq(old_r[i - 1], old_r[j - 1]));
                }
            }
        }
    }
    proof {
        assert(pairs_view(rest@) =~= Seq::<StrPair>::empty());
        assert(pairs_view(r@).to_multiset() =~= input.to_multiset());
        input.lemma_sort_by_ensures(leq);
        lemma_sorted_unique(pairs_view(r@), sorted_pairs(input), leq);
    }
    r
}

} // verus!
