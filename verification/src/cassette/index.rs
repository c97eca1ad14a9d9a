//! A cassette with an index from (method, URL) to the positions of the
//! interactions recorded for them.

use vstd::prelude::*;
use crate::cassette::types::{Cassette, Interaction, InteractionView, interactions_view};
use crate::text::{to_uppercase, uppercase};

verus! {

/// A lookup key: an uppercased method and a URL.
pub type Key = (Seq<char>, Seq<char>);

/// The lookup key of an interaction: its request's method in upper case, and its URL.
pub open spec fn key_of(iv: InteractionView) -> Key {
    (uppercase(iv.request.method), iv.request.url)
}

/// The positions, in increasing order, of the interactions whose key is `k`.
pub open spec fn positions_of(s: Seq<InteractionView>, k: Key) -> Seq<usize>
    decreases s.len(),
{
    if s.len() == 0 {
        Seq::empty()
    } else {
        let p = positions_of(s.drop_last(), k);
        if key_of(s.last()) == k {
            p.push((s.len() - 1) as usize)
        } else {
            p
        }
    }
}

/// Appending an interaction appends its position to the positions of its key only.
pub proof fn lemma_positions_push(s: Seq<InteractionView>, iv: InteractionView, k: Key)
    ensures
        positions_of(s.push(iv), k) == if key_of(iv) == k {
            positions_of(s, k).push(s.len() as usize)
        } else {
            positions_of(s, k)
        },
{
    assert(s.push(iv).drop_last() =~= s);
}

/// `positions_of` lists exactly the positions of the interactions with key `k`,
/// each once, in increasing order.
pub proof fn lemma_positions_of(s: Seq<InteractionView>, k: Key)
    requires
        s.len() <= usize::MAX,
    ensures
        forall|j: int| 0 <= j < positions_of(s, k).len() ==> {
            &&& (#[trigger] positions_of(s, k)[j]) < s.len()
            &&& key_of(s[positions_of(s, k)[j] as int]) == k
        },
        forall|j1: int, j2: int|
            0 <= j1 < j2 < positions_of(s, k).len() ==> positions_of(s, k)[j1] < positions_of(s, k)[j2],
        forall|i: int|
            0 <= i < s.len() && key_of(#[trigger] s[i]) == k ==> positions_of(s, k).contains(i as usize),
    decreases s.len(),
{
    if s.len() > 0 {
        let init = s.drop_last();
        lemma_positions_of(init, k);
        let p = positions_of(init, k);
        let q = positions_of(s, k);
        let n = s.len() - 1;
        assert forall|j: int| 0 <= j < p.len() implies q[j] == p[j] && p[j] < n && key_of(s[p[j] as int]) == k by {
            assert(init[p[j] as int] == s[p[j] as int]);
        }
        if key_of(s.last()) == k {
            assert(q == p.push(n as usize));
            assert(q[p.len() as int] == n as usize);
        } else {
            assert(q == p);
        }
        assert forall|j: int| 0 <= j < q.len() implies {
            &&& (#[trigger] q[j]) < s.len()
            &&& key_of(s[q[j] as int]) == k
        } by {
            if j < p.len() {
            } else {
                assert(q[j] == n as usize);
            }
        }
        assert forall|j1: int, j2: int| 0 <= j1 < j2 < q.len() implies q[j1] < q[j2] by {
            if j2 < p.len() {
                assert(p[j1] < p[j2]);
            } else {
                assert(q[j2] == n as usize);
            }
        }
        assert forall|i: int| 0 <= i < s.len() && key_of(#[trigger] s[i]) == k implies q.contains(i as usize) by {
            if i < n {
                assert(init[i] == s[i]);
                assert(p.contains(i as usize));
                let w = choose|w: int| 0 <= w < p.len() && p[w] == i as usize;
                assert(q[w] == i as usize);
            } else {
                assert(q[p.len() as int] == n as usize);
            }
        }
    }
}

/// One entry of the index: a key and the positions recorded under it.
#[derive(Debug)]
struct IndexEntry {
    method: String,
    url: String,
    positions: Vec<usize>,
}

/// The key of an index entry.
spec fn entry_key(e: IndexEntry) -> Key {
    (e.method@, e.url@)
}

/// The index holds, for each key it has, the positions of that key; no key twice;
/// and every key it lacks has no positions.
spec fn index_wf(idx: Seq<IndexEntry>, s: Seq<InteractionView>) -> bool {
    &&& forall|j: int| 0 <= j < idx.len() ==> (#[trigger] idx[j]).positions@ == positions_of(s, entry_key(idx[j]))
    &&& forall|j1: int, j2: int|
        0 <= j1 < j2 < idx.len() ==> entry_key(#[trigger] idx[j1]) != entry_key(#[trigger] idx[j2])
    &&& forall|k: Key|
        (forall|j: int| 0 <= j < idx.len() ==> entry_key(#[trigger] idx[j]) != k) ==> (#[trigger] positions_of(
            s,
            k,
        )).len() == 0
}

/// The position in `idx` of the entry with key (`method`, `url`), if any.
fn find_entry(idx: &Vec<IndexEntry>, method: &String, url: &String) -> (r: Option<usize>)
    ensures
        match r {
            Some(j) => j < idx@.len() && entry_key(idx@[j as int]) == (method@, url@),
            None => forall|j: int| 0 <= j < idx@.len() ==> entry_key(#[trigger] idx@[j]) != (method@, url@),
        },
{
    let mut j: usize = 0;
    while j < idx.len()
        invariant
            j <= idx@.len(),
            forall|i: int| 0 <= i < j ==> entry_key(#[trigger] idx@[i]) != (method@, url@),
        decreases idx.len() - j,
    {
        if idx[j].method == *method && idx[j].url == *url {
            return Some(j);
        }
        j = j + 1;
    }
    None
}

/// Records position `pos` of an interaction with key (`method`, `url`) in the index.
fn index_insert(idx: &mut Vec<IndexEntry>, method: String, url: String, pos: usize, Ghost(s): Ghost<Seq<InteractionView>>, Ghost(iv): Ghost<InteractionView>)
    requires
        index_wf(old(idx)@, s),
        key_of(iv) == (method@, url@),
        pos == s.len(),
    ensures
        index_wf(final(idx)@, s.push(iv)),
{
    let ghost s2 = s.push(iv);
    proof {
        assert forall|k: Key| #[trigger] positions_of(s2, k) == if key_of(iv) == k {
            positions_of(s, k).push(pos)
        } else {
            positions_of(s, k)
        } by {
            lemma_positions_push(s, iv, k);
        }
    }
    match find_entry(idx, &method, &url) {
        Some(j) => {
            let ghost before = idx@;
            let mut e = idx.remove(j);
            e.positions.push(pos);
            idx.insert(j, e);
            proof {
                assert forall|i: int| 0 <= i < idx@.len() implies (#[trigger] idx@[i]).positions@ == positions_of(
                    s2,
                    entry_key(idx@[i]),
                ) by {
                    if i == j {
                        assert(entry_key(idx@[i]) == key_of(iv));
                    } else {
                        assert(idx@[i] == before[i]);
                        assert(entry_key(before[i]) != entry_key(before[j as int]));
                    }
                }
                assert forall|j1: int, j2: int| 0 <= j1 < j2 < idx@.len() implies entry_key(#[trigger] idx@[j1])
                    != entry_key(#[trigger] idx@[j2]) by {
                    assert(entry_key(idx@[j1]) == entry_key(before[j1]));
                    assert(entry_key(idx@[j2]) == entry_key(before[j2]));
                }
                assert forall|k: Key| (forall|i: int| 0 <= i < idx@.len() ==> entry_key(#[trigger] idx@[i]) != k)
                    implies (#[trigger] positions_of(s2, k)).len() == 0 by {
                    assert forall|i: int| 0 <= i < before.len() implies entry_key(#[trigger] before[i]) != k by {
                        assert(entry_key(idx@[i]) == entry_key(before[i]));
                    }
                    assert(entry_key(idx@[j as int]) != k);
                }
            }
        },
        None => {
            let ghost before = idx@;
            let mut positions: Vec<usize> = Vec::new();
            positions.push(pos);
            idx.push(IndexEntry { method, url, positions });
            proof {
                assert(positions_of(s, key_of(iv)).len() == 0);
                assert(positions_of(s, key_of(iv)).push(pos) =~= seq![pos]);
                assert forall|i: int| 0 <= i < idx@.len() implies (#[trigger] idx@[i]).positions@ == positions_of(
                    s2,
                    entry_key(idx@[i]),
                ) by {
                    if i < before.len() {
                        assert(idx@[i] == before[i]);
                    }
                }
                assert forall|j1: int, j2: int| 0 <= j1 < j2 < idx@.len() implies entry_key(#[trigger] idx@[j1])
                    != entry_key(#[trigger] idx@[j2]) by {
                    assert(idx@[j1] == before[j1]);
                    if j2 < before.len() {
                        assert(idx@[j2] == before[j2]);
                    }
                }
                assert forall|k: Key| (forall|i: int| 0 <= i < idx@.len() ==> entry_key(#[trigger] idx@[i]) != k)
                    implies (#[trigger] positions_of(s2, k)).len() == 0 by {
                    assert forall|i: int| 0 <= i < before.len() implies entry_key(#[trigger] before[i]) != k by {
                        assert(idx@[i] == before[i]);
                    }
                    assert(entry_key(idx@[before.len() as int]) != k);
                }
            }
        },
    }
}

/// Builds the index of a list of interactions.
fn build_index(items: &Vec<Interaction>) -> (idx: Vec<IndexEntry>)
    ensures
        index_wf(idx@, interactions_view(items@)),
{
    let mut idx: Vec<IndexEntry> = Vec::new();
    let ghost all = interactions_view(items@);
    let mut i: usize = 0;
    assert(all.take(0) =~= Seq::<InteractionView>::empty());
    while i < items.len()
        invariant
            i <= items@.len(),
            all == interactions_view(items@),
            index_wf(idx@, all.take(i as int)),
        decreases items.len() - i,
    {
        let method = to_uppercase(items[i].request.method.as_str());
        let url = items[i].request.url.clone();
        let ghost iv = items@[i as int]@;
        assert(all[i as int] == iv);
        index_insert(&mut idx, method, url, i, Ghost(all.take(i as int)), Ghost(iv));
        assert(all.take(i as int).push(iv) =~= all.take(i + 1));
        i = i + 1;
    }
    assert(all.take(i as int) =~= all);
    idx
}

/// A cassette indexed by method and URL, so that candidates for a request are
/// found without scanning every interaction.
#[derive(Debug)]
pub struct IndexedCassette {
    cassette: Cassette,
    index: Vec<IndexEntry>,
}

impl IndexedCassette {
    /// The underlying cassette.
    pub closed spec fn cassette_spec(&self) -> Cassette {
        self.cassette
    }

    /// The interactions, as views.
    pub open spec fn entries(&self) -> Seq<InteractionView> {
        interactions_view(self.cassette_spec().interactions@)
    }

    /// The index agrees with the interactions.
    pub closed spec fn wf(&self) -> bool {
        index_wf(self.index@, self.entries())
    }

    /// The keys and positions the index holds.
    pub closed spec fn index_spec(&self) -> Seq<(Key, Seq<usize>)> {
        self.index@.map_values(|e: IndexEntry| (entry_key(e), e.positions@))
    }

    /// Indexes a cassette.
    pub fn new(cassette: Cassette) -> (r: IndexedCassette)
        ensures
            r.wf(),
            r.cassette_spec() == cassette,
    {
        let index = build_index(&cassette.interactions);
        IndexedCassette { cassette, index }
    }

    /// The positions of the interactions whose method equals `method` up to case
    /// (both uppercased) and whose URL equals `url`, in recording order.
    pub fn find_by_method_url(&self, method: &str, url: &str) -> (r: &[usize])
        requires
            self.wf(),
        ensures
            r@ == positions_of(self.entries(), (uppercase(method@), url@)),
    {
        let m = to_uppercase(method);
        let u = crate::text::owned(url);
        match find_entry(&self.index, &m, &u) {
            Some(j) => self.index[j].positions.as_slice(),
            None => &[],
        }
    }

    /// The interaction at `index`, if there is one.
    pub fn get(&self, index: usize) -> (r: Option<&Interaction>)
        ensures
            match r {
                Some(i) => index < self.cassette_spec().interactions@.len() && *i
                    == self.cassette_spec().interactions@[index as int],
                None => index >= self.cassette_spec().interactions@.len(),
            },
    {
        if index < self.cassette.interactions.len() {
            Some(&self.cassette.interactions[index])
        } else {
            None
        }
    }

    /// All interactions, in recording order.
    pub fn interactions(&self) -> (r: &[Interaction])
        ensures
            r@ == self.cassette_spec().interactions@,
    {
        self.cassette.interactions.as_slice()
    }

    /// Appends an interaction (stamping the cassette's modification time) and indexes it.
    pub fn add(&mut self, interaction: Interaction)
        requires
            old(self).wf(),
        ensures
            final(self).wf(),
            final(self).cassette_spec().interactions@ == old(self).cassette_spec().interactions@.push(interaction),
            final(self).cassette_spec().version == old(self).cassette_spec().version,
            final(self).cassette_spec().created_at == old(self).cassette_spec().created_at,
            final(self).cassette_spec().recorded_with == old(self).cassette_spec().recorded_with,
            final(self).cassette_spec().metadata == old(self).cassette_spec().metadata,
            crate::clock::is_clock_reading(final(self).cassette_spec().modified_at),
    {
        let method = to_uppercase(interaction.request.method.as_str());
        let url = interaction.request.url.clone();
        let pos = self.cassette.interactions.len();
        let ghost s = self.entries();
        let ghost iv = interaction@;
        self.cassette.add(interaction);
        index_insert(&mut self.index, method, url, pos, Ghost(s), Ghost(iv));
        assert(self.entries() =~= s.push(iv));
    }

    /// The underlying cassette.
    pub fn cassette(&self) -> (c: &Cassette)
        ensures
            *c == self.cassette_spec(),
    {
        &self.cassette
    }

    /// The underlying cassette, for changes; call `rebuild_index` after changing
    /// its interactions.
    pub fn cassette_mut(&mut self) -> (c: &mut Cassette)
        ensures
            *c == old(self).cassette_spec(),
            final(self).cassette_spec() == *final(c),
            final(self).index_spec() == old(self).index_spec(),
    {
        &mut self.cassette
    }

    /// Gives back the underlying cassette.
    pub fn into_cassette(self) -> (c: Cassette)
        ensures
            c == self.cassette_spec(),
    {
        self.cassette
    }

    /// The number of interactions.
    pub fn len(&self) -> (n: usize)
        ensures
            n == self.cassette_spec().interactions@.len(),
    {
        self.cassette.len()
    }

    /// Whether there are no interactions.
    pub fn is_empty(&self) -> (b: bool)
        ensures
            b == (self.cassette_spec().interactions@.len() == 0),
    {
        self.cassette.is_empty()
    }

    /// Rebuilds the index from the interactions.
    pub fn rebuild_index(&mut self)
        ensures
            final(self).wf(),
            final(self).cassette_spec() == old(self).cassette_spec(),
    {
        self.index = build_index(&self.cassette.interactions);
    }
}

impl From<Cassette> for IndexedCassette {
    fn from(cassette: Cassette) -> (r: IndexedCassette) {
        IndexedCassette::new(cassette)
    }
}

impl vstd::std_specs::convert::FromSpecImpl<Cassette> for IndexedCassette {
    /// The index is computed, so no spec value is given here; `new` states the result.
    open spec fn obeys_from_spec() -> bool {
        false
    }

    open spec fn from_spec(v: Cassette) -> IndexedCassette {
        arbitrary()
    }
}

} // verus!
