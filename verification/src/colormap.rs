use vstd::prelude::*;
use std::collections::HashMap;
use crate::color::Rgb;
use vstd::seq_lib::lemma_seq_contains_after_push;
use vstd::std_specs::hash::spec_hash_map_iter;
use vstd::std_specs::iter::IteratorSpec;

verus! {

broadcast use vstd::std_specs::hash::group_hash_axioms;

/// The identity of a topological entity (a face, a solid) as the kernel
/// reports it: the address of its shared topology record.
pub type TShapeId = u64;

/// A per-face colour map: face identity to colour.
pub struct ColorMap {
    map: HashMap<TShapeId, Rgb>,
}

impl View for ColorMap {
    type V = Map<TShapeId, Rgb>;

    closed spec fn view(&self) -> Map<TShapeId, Rgb> {
        self.map@
    }
}

/// Pair `i` of a flat `[new, old, new, old, ...]` mapping carries a colour
/// from the old map to the new face `k`.
pub open spec fn pair_carries(mapping: Seq<u64>, old: Map<TShapeId, Rgb>, i: int, k: TShapeId) -> bool {
    &&& 0 <= i < mapping.len() / 2
    &&& mapping[2 * i] == k
    &&& old.contains_key(mapping[2 * i + 1])
}

/// Pair `i` is the first pair of the mapping that carries a colour to `k`.
pub open spec fn first_carrier(mapping: Seq<u64>, old: Map<TShapeId, Rgb>, i: int, k: TShapeId) -> bool {
    &&& pair_carries(mapping, old, i, k)
    &&& forall|j: int| 0 <= j < i ==> !pair_carries(mapping, old, j, k)
}

/// The number of faces that two enumerations have in common positions.
pub open spec fn common_len(before: Seq<u64>, after: Seq<u64>) -> int {
    if before.len() <= after.len() { before.len() as int } else { after.len() as int }
}

/// Position `i` of two face enumerations carries a colour from face
/// `before[i]` of the old map to face `k == after[i]`.
pub open spec fn order_carries(
    before: Seq<u64>,
    after: Seq<u64>,
    old: Map<TShapeId, Rgb>,
    i: int,
    k: TShapeId,
) -> bool {
    &&& 0 <= i < common_len(before, after)
    &&& after[i] == k
    &&& old.contains_key(before[i])
}

/// Among the first `p` positions, `i` is the last that carries a colour to `k`.
pub open spec fn last_carrier_before(
    before: Seq<u64>,
    after: Seq<u64>,
    old: Map<TShapeId, Rgb>,
    i: int,
    k: TShapeId,
    p: int,
) -> bool {
    &&& i < p
    &&& order_carries(before, after, old, i, k)
    &&& forall|j: int| i < j < p ==> !order_carries(before, after, old, j, k)
}

/// Position `i` is the last position that carries a colour to `k`.
pub open spec fn last_carrier(
    before: Seq<u64>,
    after: Seq<u64>,
    old: Map<TShapeId, Rgb>,
    i: int,
    k: TShapeId,
) -> bool {
    last_carrier_before(before, after, old, i, k, common_len(before, after))
}

/// Reading a face's colour after setting it gives back the colour that was
/// set, and setting one face's colour leaves every other face as it was.
pub proof fn law_get_after_set(m: Map<TShapeId, Rgb>, id: TShapeId, color: Rgb)
    ensures
        m.insert(id, color).contains_key(id),
        m.insert(id, color)[id] == color,
        forall|other: TShapeId| other != id ==> (#[trigger] m.insert(id, color).contains_key(other)
            <==> m.contains_key(other)),
        forall|other: TShapeId| other != id && m.contains_key(other)
            ==> #[trigger] m.insert(id, color)[other] == m[other],
{
}

/// In a flat `[new, old, new, old, ...]` mapping, every even position
/// whose following old face is coloured carries that colour to the new face
/// it names, and only such positions carry colours.
pub proof fn law_pairs_carry(mapping: Seq<u64>, old: Map<TShapeId, Rgb>)
    ensures
        forall|j: int| 0 <= j && j + 1 < mapping.len() && j % 2 == 0
            && old.contains_key(#[trigger] mapping[j + 1])
            ==> pair_carries(mapping, old, j / 2, mapping[j]) && 2 * (j / 2) == j,
        forall|i: int, k: TShapeId| #[trigger] pair_carries(mapping, old, i, k)
            ==> 0 <= 2 * i && 2 * i + 1 < mapping.len() && mapping[2 * i] == k
                && old.contains_key(mapping[2 * i + 1]),
{
}

/// Every position that both enumerations have, whatever their lengths,
/// carries the colour of its original face to its copied face; and a
/// position carries a colour only if both enumerations have it.
pub proof fn law_every_common_position_carries(before: Seq<u64>, after: Seq<u64>, old: Map<TShapeId, Rgb>)
    ensures
        forall|i: int| 0 <= i < before.len() && i < after.len() && old.contains_key(#[trigger] before[i])
            ==> order_carries(before, after, old, i, after[i]),
        forall|i: int, k: TShapeId| #[trigger] order_carries(before, after, old, i, k)
            ==> 0 <= i < before.len() && i < after.len() && after[i] == k && old.contains_key(before[i]),
{
}

/// Where some pair carries a colour to `k`, a first such pair exists.
pub proof fn lemma_first_carrier_exists(mapping: Seq<u64>, old: Map<TShapeId, Rgb>, i: int, k: TShapeId) -> (f: int)
    requires
        pair_carries(mapping, old, i, k),
    ensures
        first_carrier(mapping, old, f, k),
    decreases i,
{
    if exists|j: int| 0 <= j < i && pair_carries(mapping, old, j, k) {
        let j = choose|j: int| 0 <= j < i && pair_carries(mapping, old, j, k);
        lemma_first_carrier_exists(mapping, old, j, k)
    } else {
        i
    }
}

impl ColorMap {
    /// An empty colour map.
    pub fn new() -> (res: ColorMap)
        ensures
            res@ == Map::<TShapeId, Rgb>::empty(),
    {
        ColorMap { map: HashMap::new() }
    }

    /// The number of coloured faces.
    pub fn len(&self) -> (n: usize)
        ensures
            n == self@.len(),
    {
        self.map.len()
    }

    /// No face has a colour.
    pub fn is_empty(&self) -> (res: bool)
        ensures
            res == (self@.len() == 0),
            res == (self@ == Map::<TShapeId, Rgb>::empty()),
    {
        let res = self.map.is_empty();
        proof {
            if self@.len() == 0 {
                assert(self@.dom() =~= Set::<TShapeId>::empty());
                assert(self@ =~= Map::<TShapeId, Rgb>::empty());
            }
        }
        res
    }

    /// Forget the colour of face `id`, returning the colour it had.
    pub fn remove(&mut self, id: TShapeId) -> (res: Option<Rgb>)
        ensures
            final(self)@ == old(self)@.remove(id),
            match res {
                Some(c) => old(self)@.contains_key(id) && old(self)@[id] == c,
                None => !old(self)@.contains_key(id),
            },
    {
        self.map.remove(&id)
    }

    /// The coloured faces, each once, in no particular order.
    pub fn keys(&self) -> (res: Vec<TShapeId>)
        ensures
            res@.no_duplicates(),
            res@.len() == self@.len(),
            forall|k: TShapeId| #[trigger] res@.contains(k) <==> self@.contains_key(k),
    {
        let mut res: Vec<TShapeId> = Vec::new();
        let ghost sq = spec_hash_map_iter(&self.map).remaining();
        for (k, v) in it: self.map.iter()
            invariant
                it.seq() == sq,
                sq == spec_hash_map_iter(&self.map).remaining(),
                res@.len() == it.index(),
                forall|j: int| 0 <= j < it.index() ==> #[trigger] res@[j] == *sq[j].0,
        {
            res.push(*k);
        }
        proof {
            vstd::std_specs::hash::axiom_spec_hash_map_iter(&self.map);
            assert(res@.len() == sq.len());
            assert forall|a: int, b: int| 0 <= a < res@.len() && 0 <= b < res@.len() && a != b
                implies res@[a] != res@[b] by {
                if res@[a] == res@[b] {
                    assert(*sq[a].0 == *sq[b].0);
                    assert(self@[*sq[a].0] == *sq[a].1);
                    assert(self@[*sq[b].0] == *sq[b].1);
                    assert(sq[a] == sq[b]);
                }
            }
            assert forall|k: TShapeId| #[trigger] res@.contains(k) <==> self@.contains_key(k) by {
                if self@.contains_key(k) {
                    assert(sq.contains((&k, &self@[k])));
                    let j = choose|j: int| 0 <= j < sq.len() && sq[j] == (&k, &self@[k]);
                    assert(res@[j] == k);
                }
                if res@.contains(k) {
                    let j = choose|j: int| 0 <= j < res@.len() && res@[j] == k;
                    assert(self@.contains_key(*sq[j].0));
                }
            }
        }
        res
    }

    /// The colour of face `id`, if one was set.
    pub fn get(&self, id: TShapeId) -> (res: Option<Rgb>)
        ensures
            match res {
                Some(c) => self@.contains_key(id) && self@[id] == c,
                None => !self@.contains_key(id),
            },
    {
        match self.map.get(&id) {
            Some(c) => Some(*c),
            None => None,
        }
    }

    /// Set the colour of face `id`, replacing any colour it had.
    pub fn set(&mut self, id: TShapeId, color: Rgb)
        ensures
            final(self)@ == old(self)@.insert(id, color),
    {
        self.map.insert(id, color);
    }

    /// Give every face in `ids` the colour `color`; other faces keep theirs.
    pub fn paint(&mut self, ids: &[TShapeId], color: Rgb)
        ensures
            forall|k: TShapeId| #[trigger] final(self)@.contains_key(k)
                <==> (old(self)@.contains_key(k) || ids@.contains(k)),
            forall|k: TShapeId| ids@.contains(k) ==> #[trigger] final(self)@[k] == color,
            forall|k: TShapeId| !ids@.contains(k) && old(self)@.contains_key(k)
                ==> #[trigger] final(self)@[k] == old(self)@[k],
    {
        let n = ids.len();
        let mut i: usize = 0;
        while i < n
            invariant
                n == ids@.len(),
                0 <= i <= n,
                forall|k: TShapeId| #[trigger] self@.contains_key(k)
                    <==> (old(self)@.contains_key(k) || ids@.take(i as int).contains(k)),
                forall|k: TShapeId| ids@.take(i as int).contains(k) ==> #[trigger] self@[k] == color,
                forall|k: TShapeId| !ids@.take(i as int).contains(k) && old(self)@.contains_key(k)
                    ==> #[trigger] self@[k] == old(self)@[k],
            decreases n - i,
        {
            let id = ids[i];
            let ghost prev = self@;
            self.map.insert(id, color);
            proof {
                assert(self@ == prev.insert(id, color));
                assert(ids@.take(i + 1) =~= ids@.take(i as int).push(id));
                assert forall|k: TShapeId| ids@.take(i + 1).contains(k)
                    <==> (ids@.take(i as int).contains(k) || k == id) by {
                    lemma_seq_contains_after_push(ids@.take(i as int), id, k);
                }
                assert forall|k: TShapeId| #[trigger] self@.contains_key(k)
                    <==> (old(self)@.contains_key(k) || ids@.take(i + 1).contains(k)) by {
                    if k != id {
                        assert(self@.contains_key(k) == prev.contains_key(k));
                    }
                }
                assert forall|k: TShapeId| ids@.take(i + 1).contains(k) implies #[trigger] self@[k] == color by {
                    if k != id {
                        assert(ids@.take(i as int).contains(k));
                    }
                }
            }
            i = i + 1;
        }
        proof {
            assert(ids@.take(n as int) =~= ids@);
        }
    }

    /// The colour map of a shape after its same-domain faces were unified.
    ///
    /// `mapping` is flat: `[new_0, old_0, new_1, old_1, ...]`, each pair
    /// saying that new face `new_i` came from old face `old_i`. A new face
    /// takes the colour of the first old face it came from that had one.
    pub fn remap_after_clean(&self, mapping: &[u64]) -> (res: ColorMap)
        requires
            mapping@.len() % 2 == 0,
        ensures
            forall|k: TShapeId| #[trigger] res@.contains_key(k)
                <==> exists|i: int| pair_carries(mapping@, self@, i, k),
            forall|k: TShapeId, i: int| #[trigger] first_carrier(mapping@, self@, i, k)
                ==> res@[k] == self@[mapping@[2 * i + 1]],
            forall|k: TShapeId| #[trigger] res@.contains_key(k)
                ==> exists|o: TShapeId| self@.contains_key(o) && self@[o] == res@[k],
            forall|j: int| 0 <= j && j + 1 < mapping@.len() && j % 2 == 0
                && self@.contains_key(#[trigger] mapping@[j + 1])
                ==> res@.contains_key(mapping@[j]),
            forall|k: TShapeId| #[trigger] res@.contains_key(k) ==> exists|j: int|
                0 <= j && j + 1 < mapping@.len() && j % 2 == 0 && #[trigger] mapping@[j] == k
                && self@.contains_key(mapping@[j + 1]),
            forall|j: int| 0 <= j && j + 1 < mapping@.len() && j % 2 == 0
                && self@.contains_key(#[trigger] mapping@[j + 1])
                && (forall|e: int| 0 <= e < j && e % 2 == 0 && self@.contains_key(mapping@[e + 1])
                    ==> #[trigger] mapping@[e] != mapping@[j])
                ==> res@[mapping@[j]] == self@[mapping@[j + 1]],
    {
        let mut res = ColorMap::new();
        let pairs = mapping.len() / 2;
        let mut p: usize = 0;
        while p < pairs
            invariant
                pairs == mapping@.len() / 2,
                0 <= p <= pairs,
                forall|k: TShapeId| #[trigger] res@.contains_key(k)
                    <==> exists|i: int| 0 <= i < p && pair_carries(mapping@, self@, i, k),
                forall|k: TShapeId, i: int| 0 <= i < p && #[trigger] first_carrier(mapping@, self@, i, k)
                    ==> res@[k] == self@[mapping@[2 * i + 1]],
            decreases pairs - p,
        {
            assert(2 * p + 1 < mapping.len());
            let new_id = mapping[2 * p];
            let old_id = mapping[2 * p + 1];
            let ghost before = res@;
            match self.map.get(&old_id) {
                Some(c) => {
                    if !res.map.contains_key(&new_id) {
                        res.map.insert(new_id, *c);
                    }
                },
                None => {},
            }
            proof {
                assert(pair_carries(mapping@, self@, p as int, new_id) <==> self@.contains_key(old_id));
                assert forall|k: TShapeId| #[trigger] res@.contains_key(k)
                    <==> exists|i: int| 0 <= i < p + 1 && pair_carries(mapping@, self@, i, k) by {
                    if exists|i: int| 0 <= i < p + 1 && pair_carries(mapping@, self@, i, k) {
                        let i = choose|i: int| 0 <= i < p + 1 && pair_carries(mapping@, self@, i, k);
                        if i < p {
                            assert(before.contains_key(k));
                        }
                    }
                    if res@.contains_key(k) && !before.contains_key(k) {
                        assert(pair_carries(mapping@, self@, p as int, k));
                    }
                }
                assert forall|k: TShapeId, i: int| 0 <= i < p + 1 && #[trigger] first_carrier(mapping@, self@, i, k)
                    implies res@[k] == self@[mapping@[2 * i + 1]] by {
                    if i == p {
                        assert(!before.contains_key(k));
                    } else {
                        assert(before.contains_key(k));
                    }
                }
            }
            p = p + 1;
        }
        proof {
            assert forall|k: TShapeId| #[trigger] res@.contains_key(k)
                implies exists|o: TShapeId| self@.contains_key(o) && self@[o] == res@[k] by {
                let i = choose|i: int| pair_carries(mapping@, self@, i, k);
                let f = lemma_first_carrier_exists(mapping@, self@, i, k);
                assert(self@.contains_key(mapping@[2 * f + 1]));
            }
        }
        proof {
            law_pairs_carry(mapping@, self@);
            assert forall|j: int| 0 <= j && j + 1 < mapping@.len() && j % 2 == 0
                && self@.contains_key(#[trigger] mapping@[j + 1])
                && (forall|e: int| 0 <= e < j && e % 2 == 0 && self@.contains_key(mapping@[e + 1])
                    ==> #[trigger] mapping@[e] != mapping@[j])
                implies res@[mapping@[j]] == self@[mapping@[j + 1]] by {
                let p = j / 2;
                assert(pair_carries(mapping@, self@, p, mapping@[j]));
                assert forall|q: int| 0 <= q < p implies !pair_carries(mapping@, self@, q, mapping@[j]) by {
                    if pair_carries(mapping@, self@, q, mapping@[j]) {
                        let e = 2 * q;
                        assert(0 <= e < j && e % 2 == 0 && self@.contains_key(mapping@[e + 1]));
                    }
                }
                assert(first_carrier(mapping@, self@, p, mapping@[j]));
                assert(2 * p + 1 == j + 1);
            }
        }
        res
    }

    /// The colour map of a copy of a shape whose faces got new identities.
    ///
    /// `before` and `after` enumerate the faces of the original and of the
    /// copy in the same order; face `after[i]` takes the colour of
    /// `before[i]`, the last position winning where a face recurs.
    pub fn remap_by_order(&self, before: &[TShapeId], after: &[TShapeId]) -> (res: ColorMap)
        ensures
            forall|k: TShapeId| #[trigger] res@.contains_key(k)
                <==> exists|i: int| order_carries(before@, after@, self@, i, k),
            forall|k: TShapeId, i: int| #[trigger] last_carrier(before@, after@, self@, i, k)
                ==> res@[k] == self@[before@[i]],
            after@.no_duplicates() ==> forall|i: int| 0 <= i < common_len(before@, after@)
                && self@.contains_key(#[trigger] before@[i])
                ==> res@.contains_key(after@[i]) && res@[after@[i]] == self@[before@[i]],
            forall|i: int| 0 <= i < before@.len() && i < after@.len() && self@.contains_key(#[trigger] before@[i])
                ==> res@.contains_key(after@[i]),
            forall|k: TShapeId| #[trigger] res@.contains_key(k) ==> exists|i: int|
                0 <= i < before@.len() && i < after@.len() && after@[i] == k && self@.contains_key(before@[i]),
            forall|i: int|
                0 <= i < before@.len() && i < after@.len() && self@.contains_key(#[trigger] before@[i])
                && (forall|j: int| i < j < before@.len() && j < after@.len() && self@.contains_key(before@[j])
                    ==> after@[j] != after@[i])
                ==> res@[after@[i]] == self@[before@[i]],
    {
        let mut res = ColorMap::new();
        let n = if before.len() <= after.len() { before.len() } else { after.len() };
        let mut p: usize = 0;
        while p < n
            invariant
                n == common_len(before@, after@),
                n <= before@.len(),
                n <= after@.len(),
                0 <= p <= n,
                forall|k: TShapeId| #[trigger] res@.contains_key(k)
                    <==> exists|i: int| 0 <= i < p && order_carries(before@, after@, self@, i, k),
                forall|k: TShapeId, i: int| #[trigger] last_carrier_before(before@, after@, self@, i, k, p as int)
                    ==> res@[k] == self@[before@[i]],
            decreases n - p,
        {
            let ghost prev = res@;
            match self.map.get(&before[p]) {
                Some(c) => {
                    res.map.insert(after[p], *c);
                },
                None => {},
            }
            proof {
                assert(order_carries(before@, after@, self@, p as int, after@[p as int])
                    <==> self@.contains_key(before@[p as int]));
                assert forall|k: TShapeId| #[trigger] res@.contains_key(k)
                    <==> exists|i: int| 0 <= i < p + 1 && order_carries(before@, after@, self@, i, k) by {
                    if exists|i: int| 0 <= i < p + 1 && order_carries(before@, after@, self@, i, k) {
                        let i = choose|i: int| 0 <= i < p + 1 && order_carries(before@, after@, self@, i, k);
                        if i < p {
                            assert(prev.contains_key(k));
                        }
                    }
                    if res@.contains_key(k) && !prev.contains_key(k) {
                        assert(order_carries(before@, after@, self@, p as int, k));
                    }
                }
                assert forall|k: TShapeId, i: int| #[trigger] last_carrier_before(before@, after@, self@, i, k, p + 1)
                    implies res@[k] == self@[before@[i]] by {
                    if i < p {
                        assert(!order_carries(before@, after@, self@, p as int, k));
                        assert(last_carrier_before(before@, after@, self@, i, k, p as int));
                    }
                }
            }
            p = p + 1;
        }
        proof {
            if after@.no_duplicates() {
                assert forall|i: int| 0 <= i < common_len(before@, after@)
                    && self@.contains_key(#[trigger] before@[i])
                    implies res@.contains_key(after@[i]) && res@[after@[i]] == self@[before@[i]] by {
                    assert(order_carries(before@, after@, self@, i, after@[i]));
                    assert(last_carrier(before@, after@, self@, i, after@[i]));
                }
            }
        }
        proof {
            law_every_common_position_carries(before@, after@, self@);
            assert forall|i: int|
                0 <= i < before@.len() && i < after@.len() && self@.contains_key(#[trigger] before@[i])
                && (forall|j: int| i < j < before@.len() && j < after@.len() && self@.contains_key(before@[j])
                    ==> after@[j] != after@[i])
                implies res@[after@[i]] == self@[before@[i]] by {
                assert(order_carries(before@, after@, self@, i, after@[i]));
                assert(last_carrier(before@, after@, self@, i, after@[i]));
            }
        }
        res
    }

    /// Add every entry of `other`, its colours replacing those already set
    /// for the same faces.
    pub fn extend(&mut self, other: &ColorMap)
        ensures
            final(self)@ == old(self)@.union_prefer_right(other@),
    {
        let ghost start = self@;
        for (k, v) in it: other.map.iter()
            invariant
                it.seq() == spec_hash_map_iter(&other.map).remaining(),
                forall|key: TShapeId| #[trigger] self@.contains_key(key)
                    <==> (start.contains_key(key) || exists|j: int| 0 <= j < it.index() && *it.seq()[j].0 == key),
                forall|key: TShapeId| self@.contains_key(key) && (exists|j: int| 0 <= j < it.index() && *it.seq()[j].0 == key)
                    ==> #[trigger] self@[key] == other@[key],
                forall|key: TShapeId| self@.contains_key(key) && !(exists|j: int| 0 <= j < it.index() && *it.seq()[j].0 == key)
                    ==> #[trigger] self@[key] == start[key],
        {
            proof {
                vstd::std_specs::hash::axiom_spec_hash_map_iter(&other.map);
                assert((k, v) == it.seq()[it.index()]);
                assert(other@.contains_key(*k) && other@[*k] == *v);
            }
            let ghost prev = self@;
            self.map.insert(*k, *v);
            proof {
                assert(self@ == prev.insert(*k, *v));
                assert forall|key: TShapeId| #[trigger] self@.contains_key(key)
                    <==> (start.contains_key(key) || exists|j: int| 0 <= j < it.index() + 1 && *it.seq()[j].0 == key) by {
                    if key == *k {
                        assert(*it.seq()[it.index()].0 == key);
                    } else {
                        assert(self@.contains_key(key) == prev.contains_key(key));
                        if exists|j: int| 0 <= j < it.index() + 1 && *it.seq()[j].0 == key {
                            let j = choose|j: int| 0 <= j < it.index() + 1 && *it.seq()[j].0 == key;
                            assert(j < it.index());
                        }
                    }
                }
                assert forall|key: TShapeId| self@.contains_key(key) && (exists|j: int| 0 <= j < it.index() + 1 && *it.seq()[j].0 == key)
                    implies #[trigger] self@[key] == other@[key] by {
                    if key != *k {
                        let j = choose|j: int| 0 <= j < it.index() + 1 && *it.seq()[j].0 == key;
                        assert(j < it.index());
                        assert(prev.contains_key(key));
                    }
                }
            }
        }
        proof {
            assert(self@ =~= start.union_prefer_right(other@));
        }
    }
}

} // verus!
