//! Parsing URLs into the parts that matching looks at: the path, and the query
//! string with its parameters in sorted order.

use vstd::prelude::*;
use crate::order::{CharPair, StrPair, pair_view, pairs_view, sort_pairs, sorted_pairs};
use crate::text::{chars_of, find_char, find_char_in, find_sub, find_sub_in, occurs_at, owned, string_from_chars};

verus! {

/// `s` split at every occurrence of `c` (what `str::split` yields; an empty string gives one empty piece).
pub open spec fn split_on(s: Seq<char>, c: char) -> Seq<Seq<char>>
    decreases s.len(),
{
    if s.len() == 0 {
        seq![Seq::<char>::empty()]
    } else {
        let init = split_on(s.drop_last(), c);
        if s.last() == c {
            init.push(Seq::<char>::empty())
        } else {
            init.update(init.len() - 1, init.last().push(s.last()))
        }
    }
}

/// Splitting always yields at least one piece.
pub proof fn lemma_split_on_nonempty(s: Seq<char>, c: char)
    ensures
        split_on(s, c).len() >= 1,
    decreases s.len(),
{
    if s.len() > 0 {
        lemma_split_on_nonempty(s.drop_last(), c);
    }
}

/// Splits a character sequence at every occurrence of `c`.
pub fn split_chars(s: &[char], c: char) -> (r: Vec<Vec<char>>)
    ensures
        r@.map_values(|v: Vec<char>| v@) == split_on(s@, c),
{
    let mut done: Vec<Vec<char>> = Vec::new();
    let mut cur: Vec<char> = Vec::new();
    let mut i: usize = 0;
    assert(s@.take(0) =~= Seq::<char>::empty());
    assert(done@.map_values(|v: Vec<char>| v@).push(cur@) =~= split_on(s@.take(0), c));
    while i < s.len()
        invariant
            i <= s.len(),
            done@.map_values(|v: Vec<char>| v@).push(cur@) == split_on(s@.take(i as int), c),
        decreases s.len() - i,
    {
        let ch = s[i];
        let ghost prefix = s@.take(i + 1);
        assert(prefix.drop_last() =~= s@.take(i as int));
        assert(prefix.last() == ch);
        proof {
            lemma_split_on_nonempty(s@.take(i as int), c);
        }
        if ch == c {
            let piece = cur;
            done.push(piece);
            cur = Vec::new();
            assert(done@.map_values(|v: Vec<char>| v@).push(cur@) =~= split_on(prefix, c));
        } else {
            cur.push(ch);
            assert(done@.map_values(|v: Vec<char>| v@).push(cur@) =~= split_on(prefix, c));
        }
        i = i + 1;
    }
    assert(s@.take(s.len() as int) =~= s@);
    done.push(cur);
    done
}

/// A query parameter split at its first `=` into key and value (the value is empty without `=`).
pub open spec fn split_pair(p: Seq<char>) -> StrPair {
    match find_char(p, '=') {
        Some(k) => (p.take(k), p.skip(k + 1)),
        None => (p, Seq::<char>::empty()),
    }
}

/// Splits one query parameter into key and value.
pub fn split_pair_exec(p: &[char]) -> (r: CharPair)
    ensures
        pair_view(r) == split_pair(p@),
{
    proof {
        p@.index_of_first_ensures('=');
    }
    match find_char_in(p, '=') {
        Some(k) => {
            let key = vstd::slice::slice_to_vec(vstd::slice::slice_subrange(p, 0, k));
            let value = vstd::slice::slice_to_vec(vstd::slice::slice_subrange(p, k + 1, p.len()));
            assert(key@ =~= p@.take(k as int));
            assert(value@ =~= p@.skip(k + 1));
            (key, value)
        },
        None => (vstd::slice::slice_to_vec(p), Vec::new()),
    }
}

/// The (key, value) parameters of a query string, in their written order.
pub open spec fn query_pairs(q: Seq<char>) -> Seq<StrPair> {
    split_on(q, '&').map_values(|p: Seq<char>| split_pair(p))
}

/// One parameter written back: `key` alone when the value is empty, else `key=value`.
pub open spec fn render_pair(p: StrPair) -> Seq<char> {
    if p.1.len() == 0 {
        p.0
    } else {
        p.0 + seq!['='] + p.1
    }
}

/// Pieces joined with `&` between them.
pub open spec fn join_amp(parts: Seq<Seq<char>>) -> Seq<char>
    decreases parts.len(),
{
    if parts.len() == 0 {
        Seq::empty()
    } else if parts.len() == 1 {
        parts[0]
    } else {
        join_amp(parts.drop_last()) + seq!['&'] + parts.last()
    }
}

/// A URL with its query parameters sorted by key, then value. A URL without a
/// query, or with an empty one, is cut before its `?`.
pub open spec fn normalized_url(url: Seq<char>) -> Seq<char> {
    match find_char(url, '?') {
        None => url,
        Some(k) => {
            let base = url.take(k);
            let q = url.skip(k + 1);
            if q.len() == 0 {
                base
            } else {
                base + seq!['?'] + join_amp(sorted_pairs(query_pairs(q)).map_values(|p: StrPair| render_pair(p)))
            }
        },
    }
}

/// Appends one rendered parameter to `out`.
fn push_rendered(out: &mut Vec<char>, p: &CharPair)
    ensures
        final(out)@ == old(out)@ + render_pair(pair_view(*p)),
{
    let mut i: usize = 0;
    let ghost start = out@;
    while i < p.0.len()
        invariant
            i <= p.0.len(),
            out@ == start + p.0@.take(i as int),
        decreases p.0.len() - i,
    {
        out.push(p.0[i]);
        assert(p.0@.take(i + 1) =~= p.0@.take(i as int).push(p.0@[i as int]));
        i = i + 1;
    }
    assert(p.0@.take(p.0.len() as int) =~= p.0@);
    if p.1.len() > 0 {
        out.push('=');
        let ghost mid = out@;
        let mut j: usize = 0;
        while j < p.1.len()
            invariant
                j <= p.1.len(),
                out@ == mid + p.1@.take(j as int),
            decreases p.1.len() - j,
        {
            out.push(p.1[j]);
            assert(p.1@.take(j + 1) =~= p.1@.take(j as int).push(p.1@[j as int]));
            j = j + 1;
        }
        assert(p.1@.take(p.1.len() as int) =~= p.1@);
        assert(out@ =~= start + (p.0@ + seq!['='] + p.1@));
    } else {
        assert(out@ =~= start + p.0@);
    }
}

/// Normalizes a URL by sorting its query parameters (see `normalized_url`).
pub fn normalize_url(url: &str) -> (r: String)
    ensures
        r@ == normalized_url(url@),
{
    let chars = chars_of(url);
    match find_char_in(chars.as_slice(), '?') {
        None => owned(url),
        Some(k) => {
            let base = vstd::slice::slice_subrange(chars.as_slice(), 0, k);
            let q = vstd::slice::slice_subrange(chars.as_slice(), k + 1, chars.len());
            assert(base@ =~= url@.take(k as int));
            assert(q@ =~= url@.skip(k + 1));
            if q.len() == 0 {
                return string_from_chars(base);
            }
            let pieces = split_chars(q, '&');
            let mut pairs: Vec<CharPair> = Vec::new();
            let mut i: usize = 0;
            while i < pieces.len()
                invariant
                    i <= pieces.len(),
                    pieces@.map_values(|v: Vec<char>| v@) == split_on(q@, '&'),
                    pairs_view(pairs@) == split_on(q@, '&').take(i as int).map_values(
                        |p: Seq<char>| split_pair(p),
                    ),
                decreases pieces.len() - i,
            {
                let pr = split_pair_exec(pieces[i].as_slice());
                let ghost old_pairs = pairs@;
                proof {
                    assert(pieces@.map_values(|v: Vec<char>| v@)[i as int] == pieces@[i as int]@);
                }
                pairs.push(pr);
                proof {
                    let sp = split_on(q@, '&');
                    assert(pairs@ == old_pairs.push(pr));
                    assert(pairs_view(pairs@) =~= pairs_view(old_pairs).push(pair_view(pr)));
                    assert(sp.take(i + 1) =~= sp.take(i as int).push(sp[i as int]));
                    assert(sp.take(i + 1).map_values(|p: Seq<char>| split_pair(p)) =~= sp.take(
                        i as int,
                    ).map_values(|p: Seq<char>| split_pair(p)).push(split_pair(sp[i as int])));
                }
                i = i + 1;
            }
            assert(split_on(q@, '&').take(pieces.len() as int) =~= split_on(q@, '&'));
            let sorted = sort_pairs(pairs);
            let ghost rendered = sorted_pairs(query_pairs(q@)).map_values(|p: StrPair| render_pair(p));
            let mut out: Vec<char> = vstd::slice::slice_to_vec(base);
            out.push('?');
            let ghost head = out@;
            let mut j: usize = 0;
            while j < sorted.len()
                invariant
                    j <= sorted.len(),
                    pairs_view(sorted@) == sorted_pairs(query_pairs(q@)),
                    rendered == sorted_pairs(query_pairs(q@)).map_values(|p: StrPair| render_pair(p)),
                    out@ == head + join_amp(rendered.take(j as int)),
                decreases sorted.len() - j,
            {
                let ghost before = out@;
                if j > 0 {
                    out.push('&');
                }
                push_rendered(&mut out, &sorted[j]);
                proof {
                    let t = rendered.take(j + 1);
                    assert(pairs_view(sorted@)[j as int] == pair_view(sorted@[j as int]));
                    assert(t.last() == render_pair(pair_view(sorted@[j as int])));
                    assert(t.drop_last() =~= rendered.take(j as int));
                    if j == 0 {
                        assert(join_amp(t) == t[0]);
                        assert(out@ =~= head + join_amp(t));
                    } else {
                        assert(out@ =~= head + join_amp(t));
                    }
                }
                j = j + 1;
            }
            assert(rendered.take(sorted.len() as int) =~= rendered);
            proof {
                assert(pairs_view(sorted@).len() == sorted@.len());
                assert(rendered.len() == sorted.len());
            }
            assert(out@ =~= normalized_url(url@));
            string_from_chars(out.as_slice())
        },
    }
}

/// The path part of what follows `://`: from the first `/` up to the query, or `/`.
pub open spec fn path_after_scheme(rest: Seq<char>) -> Seq<char> {
    match find_char(rest, '/') {
        None => seq!['/'],
        Some(p) => {
            let path = rest.skip(p);
            match find_char(path, '?') {
                Some(q) => path.take(q),
                None => path,
            }
        },
    }
}

/// The path of a URL: what follows the host up to the query, `/` for a bare
/// host, and the whole text when there is no `://`.
pub open spec fn url_path(url: Seq<char>) -> Seq<char> {
    match find_sub(url, seq![':', '/', '/']) {
        None => url,
        Some(start) => path_after_scheme(url.skip(start + 3)),
    }
}

fn path_from_rest(rest: &[char]) -> (r: String)
    ensures
        r@ == path_after_scheme(rest@),
{
    match find_char_in(rest, '/') {
        None => {
            let slash: Vec<char> = vec!['/'];
            assert(slash@ =~= seq!['/']);
            string_from_chars(slash.as_slice())
        },
        Some(p) => {
            let path = vstd::slice::slice_subrange(rest, p, rest.len());
            assert(path@ =~= rest@.skip(p as int));
            match find_char_in(path, '?') {
                Some(q) => {
                    let cut = vstd::slice::slice_subrange(path, 0, q);
                    assert(cut@ =~= path@.take(q as int));
                    string_from_chars(cut)
                },
                None => string_from_chars(path),
            }
        },
    }
}

/// Extracts the path of a URL (see `url_path`).
pub fn extract_path(url: &str) -> (r: String)
    ensures
        r@ == url_path(url@),
{
    let chars = chars_of(url);
    let sep: Vec<char> = vec![':', '/', '/'];
    assert(sep@ =~= seq![':', '/', '/']);
    match find_sub_in(chars.as_slice(), sep.as_slice()) {
        None => owned(url),
        Some(start) => {
            let rest = vstd::slice::slice_subrange(chars.as_slice(), start + 3, chars.len());
            assert(rest@ =~= url@.skip(start + 3));
            path_from_rest(rest)
        },
    }
}

} // verus!

verus! {

/// Query parameter order does not matter: two URLs with the same base (without `?`)
/// and non-empty query strings holding the same parameters, in any order and with
/// repeats kept, normalize to the same URL.
pub proof fn lemma_normalized_url_order_independent(base: Seq<char>, q1: Seq<char>, q2: Seq<char>)
    requires
        !base.contains('?'),
        q1.len() > 0,
        q2.len() > 0,
        query_pairs(q1).to_multiset() == query_pairs(q2).to_multiset(),
    ensures
        normalized_url(base.push('?') + q1) == normalized_url(base.push('?') + q2),
{
    lemma_split_at_first_question(base, q1);
    lemma_split_at_first_question(base, q2);
    crate::order::lemma_sorted_pairs_permutation(query_pairs(q1), query_pairs(q2));
}

/// The first `?` of `base?q` is the one after `base` when `base` has none.
proof fn lemma_split_at_first_question(base: Seq<char>, q: Seq<char>)
    requires
        !base.contains('?'),
    ensures
        find_char(base.push('?') + q, '?') == Some(base.len() as int),
        (base.push('?') + q).take(base.len() as int) == base,
        (base.push('?') + q).skip(base.len() as int + 1) == q,
{
    let u = base.push('?') + q;
    u.index_of_first_ensures('?');
    assert(u[base.len() as int] == '?');
    assert forall|j: int| 0 <= j < base.len() implies u[j] != '?' by {
        assert(u[j] == base[j]);
    }
    assert(u.take(base.len() as int) =~= base);
    assert(u.skip(base.len() as int + 1) =~= q);
}

/// Splitting text that has no `c` onto the end of some text extends the last piece.
proof fn lemma_split_append_plain(s: Seq<char>, t: Seq<char>, c: char)
    requires
        !t.contains(c),
    ensures
        split_on(s + t, c) == split_on(s, c).update(
            split_on(s, c).len() - 1,
            split_on(s, c).last() + t,
        ),
    decreases t.len(),
{
    lemma_split_on_nonempty(s, c);
    let sp = split_on(s, c);
    if t.len() == 0 {
        assert(s + t =~= s);
        assert(sp.last() + t =~= sp.last());
        assert(sp.update(sp.len() - 1, sp.last()) =~= sp);
    } else {
        let t0 = t.drop_last();
        assert forall|i: int| 0 <= i < t0.len() implies t0[i] != c by {
            assert(t0[i] == t[i]);
        }
        lemma_split_append_plain(s, t0, c);
        assert((s + t).drop_last() =~= s + t0);
        assert((s + t).last() == t.last());
        assert(t.last() != c) by {
            assert(t[t.len() - 1] == t.last());
        }
        let init = split_on(s + t0, c);
        assert(init == sp.update(sp.len() - 1, sp.last() + t0));
        assert(init.last() == sp.last() + t0);
        assert((sp.last() + t0).push(t.last()) =~= sp.last() + t);
        assert(init.update(init.len() - 1, init.last().push(t.last())) =~= sp.update(sp.len() - 1, sp.last() + t));
    }
}

/// Joining pieces that hold no `&` with `&` and splitting at `&` gives the pieces back.
proof fn lemma_split_join(segs: Seq<Seq<char>>)
    requires
        segs.len() > 0,
        forall|k: int| 0 <= k < segs.len() ==> !(#[trigger] segs[k]).contains('&'),
    ensures
        split_on(join_amp(segs), '&') == segs,
    decreases segs.len(),
{
    if segs.len() == 1 {
        let e = Seq::<char>::empty();
        lemma_split_append_plain(e, segs[0], '&');
        assert(e + segs[0] =~= segs[0]);
        assert(split_on(e, '&') == seq![e]);
        assert(e + segs[0] =~= segs[0]);
        assert(seq![e].update(0, e + segs[0]) =~= segs);
    } else {
        let init = segs.drop_last();
        assert forall|k: int| 0 <= k < init.len() implies !(#[trigger] init[k]).contains('&') by {
            assert(init[k] == segs[k]);
        }
        lemma_split_join(init);
        let j = join_amp(init);
        let last = segs[segs.len() - 1];
        assert(!last.contains('&'));
        assert(join_amp(segs) == j + seq!['&'] + last);
        assert(j + seq!['&'] + last =~= j.push('&') + last);
        assert(j.push('&').drop_last() =~= j);
        assert(split_on(j.push('&'), '&') == init.push(Seq::<char>::empty()));
        lemma_split_append_plain(j.push('&'), last, '&');
        let e = Seq::<char>::empty();
        assert(e + last =~= last);
        assert(init.push(e).update(init.len() as int, e + last) =~= segs);
    }
}

/// Joined pieces are empty only for a single empty piece.
proof fn lemma_join_empty(segs: Seq<Seq<char>>)
    requires
        segs.len() > 0,
        join_amp(segs).len() == 0,
    ensures
        segs.len() == 1,
        segs[0].len() == 0,
{
    if segs.len() > 1 {
        assert((join_amp(segs.drop_last()) + seq!['&'] + segs.last()).len() > 0);
    }
}

/// Mapping keeps two sequences with the same elements the same as multisets.
proof fn lemma_map_multiset<A, B>(a: Seq<A>, b: Seq<A>, f: spec_fn(A) -> B)
    requires
        a.to_multiset() == b.to_multiset(),
    ensures
        a.map_values(f).to_multiset() == b.map_values(f).to_multiset(),
    decreases a.len(),
{
    broadcast use vstd::seq_lib::group_to_multiset_ensures;
    broadcast use vstd::multiset::group_multiset_axioms;

    if a.len() == 0 {
        assert(b.to_multiset().len() == 0);
        assert(b.len() == 0);
        assert(a.map_values(f) =~= b.map_values(f));
    } else {
        let x = a.last();
        let a1 = a.drop_last();
        assert(a.to_multiset().count(x) > 0) by {
            assert(a.contains(x)) by {
                assert(a[a.len() - 1] == x);
            }
        }
        assert(b.contains(x));
        let k = choose|k: int| 0 <= k < b.len() && b[k] == x;
        let b1 = b.remove(k);
        assert(a.remove(a.len() - 1) =~= a1);
        vstd::seq_lib::to_multiset_remove(a, a.len() - 1);
        vstd::seq_lib::to_multiset_remove(b, k);
        assert(a1.to_multiset() == b1.to_multiset());
        lemma_map_multiset(a1, b1, f);
        let ma = a.map_values(f);
        let mb = b.map_values(f);
        assert(ma =~= a1.map_values(f).push(f(x)));
        assert(mb.remove(k) =~= b1.map_values(f));
        vstd::seq_lib::to_multiset_remove(mb, k);
        assert(mb[k] == f(x));
        assert(mb.to_multiset().count(f(x)) > 0) by {
            assert(mb.contains(f(x)));
        }
        assert(mb.to_multiset() =~= mb.to_multiset().remove(f(x)).insert(f(x)));
        assert(ma.to_multiset() =~= a1.map_values(f).to_multiset().insert(f(x)));
    }
}

/// Query parameter order does not matter, as written: a URL (base without `?`) whose
/// query string is the pieces `segs` joined by `&` normalizes to the same URL as one
/// whose query string is any rearrangement of those pieces.
pub proof fn lemma_query_order_independent(base: Seq<char>, segs: Seq<Seq<char>>, perm: Seq<Seq<char>>)
    requires
        !base.contains('?'),
        segs.len() > 0,
        forall|k: int| 0 <= k < segs.len() ==> !(#[trigger] segs[k]).contains('&'),
        perm.to_multiset() == segs.to_multiset(),
    ensures
        normalized_url(base.push('?') + join_amp(segs)) == normalized_url(base.push('?') + join_amp(perm)),
{
    broadcast use vstd::seq_lib::group_to_multiset_ensures;

    assert(perm.to_multiset().len() == perm.len());
    assert(segs.to_multiset().len() == segs.len());
    assert(perm.len() == segs.len());
    assert forall|k: int| 0 <= k < perm.len() implies !(#[trigger] perm[k]).contains('&') by {
        assert(perm.contains(perm[k]));
        assert(perm.to_multiset().count(perm[k]) > 0);
        assert(segs.to_multiset().count(perm[k]) > 0);
        assert(segs.contains(perm[k]));
        let j = choose|j: int| 0 <= j < segs.len() && segs[j] == perm[k];
        assert(!segs[j].contains('&'));
    }
    let q1 = join_amp(segs);
    let q2 = join_amp(perm);
    if q1.len() == 0 || q2.len() == 0 {
        if q1.len() == 0 {
            lemma_join_empty(segs);
        } else {
            lemma_join_empty(perm);
        }
        assert(perm.contains(perm[0]));
        assert(perm.to_multiset().count(perm[0]) > 0);
        assert(segs.to_multiset().count(perm[0]) > 0);
        assert(segs.contains(perm[0]));
        assert(perm =~= segs);
    } else {
        lemma_split_join(segs);
        lemma_split_join(perm);
        let f = |p: Seq<char>| split_pair(p);
        lemma_map_multiset(segs, perm, f);
        assert(query_pairs(q1) =~= segs.map_values(f));
        assert(query_pairs(q2) =~= perm.map_values(f));
        lemma_normalized_url_order_independent(base, q1, q2);
    }
}

/// The path of `scheme://host` followed by a path is that path, character for
/// character: when the scheme has no `:`, the host no `/`, and the path starts with
/// `/` and has no query.
pub proof fn lemma_url_path_exact(scheme: Seq<char>, host: Seq<char>, path: Seq<char>)
    requires
        !scheme.contains(':'),
        !host.contains('/'),
        path.len() > 0,
        path[0] == '/',
        !path.contains('?'),
    ensures
        url_path(scheme + seq![':', '/', '/'] + host + path) == path,
{
    let sep = seq![':', '/', '/'];
    let url = scheme + sep + host + path;
    let n = scheme.len() as int;
    assert(url.subrange(n, n + 3) =~= sep);
    assert(occurs_at(url, sep, n));
    assert forall|j: int| 0 <= j < n implies !occurs_at(url, sep, j) by {
        if occurs_at(url, sep, j) {
            assert(url.subrange(j, j + 3)[0] == ':');
            assert(url[j] == scheme[j]);
            assert(scheme.contains(':'));
        }
    }
    let f = find_sub(url, sep);
    assert(f == Some(n)) by {
        let c = choose|i: int| occurs_at(url, sep, i) && forall|j: int| 0 <= j < i ==> !occurs_at(url, sep, j);
        assert(occurs_at(url, sep, n) && forall|j: int| 0 <= j < n ==> !occurs_at(url, sep, j));
        if c < n {
        } else if c > n {
            assert(!occurs_at(url, sep, n));
        }
    }
    let rest = url.skip(n + 3);
    assert(rest =~= host + path);
    rest.index_of_first_ensures('/');
    assert(rest[host.len() as int] == '/');
    assert forall|j: int| 0 <= j < host.len() implies rest[j] != '/' by {
        assert(rest[j] == host[j]);
    }
    assert(find_char(rest, '/') == Some(host.len() as int)) by {
        let k = rest.index_of_first('/');
        assert(rest.contains('/'));
        let kk = k.unwrap();
        if kk < host.len() {
            assert(rest[kk] == host[kk]);
        } else if kk > host.len() {
        }
    }
    assert(rest.skip(host.len() as int) =~= path);
    path.index_of_first_ensures('?');
}

/// The path matcher compares such URLs by their paths alone: two of them match exactly
/// when their paths are the same text.
pub proof fn lemma_path_match_exact(
    scheme1: Seq<char>,
    host1: Seq<char>,
    path1: Seq<char>,
    scheme2: Seq<char>,
    host2: Seq<char>,
    path2: Seq<char>,
)
    requires
        !scheme1.contains(':'),
        !host1.contains('/'),
        path1.len() > 0,
        path1[0] == '/',
        !path1.contains('?'),
        !scheme2.contains(':'),
        !host2.contains('/'),
        path2.len() > 0,
        path2[0] == '/',
        !path2.contains('?'),
    ensures
        (url_path(scheme1 + seq![':', '/', '/'] + host1 + path1) == url_path(scheme2 + seq![':', '/', '/'] + host2
            + path2)) == (path1 == path2),
{
    lemma_url_path_exact(scheme1, host1, path1);
    lemma_url_path_exact(scheme2, host2, path2);
}

} // verus!
