//! The spatial index: which cell lives at which coordinate.

use crate::math::Coordinates;
use core::marker::PhantomData;
use std::collections::HashMap;
use vstd::prelude::*;

verus! {

broadcast use vstd::std_specs::hash::group_hash_axioms;

/// Maps coordinates to the ids of the cells that live there. Grids may be
/// sparse or unbounded, so the index is a hash map and not an array.
pub struct CellMap<K: Coordinates> {
    slots: HashMap<u128, usize>,
    coordinates: PhantomData<K>,
}

impl<K: Coordinates> View for CellMap<K> {
    type V = Map<K, usize>;

    /// The cell id filed under each occupied coordinate.
    closed spec fn view(&self) -> Map<K, usize> {
        Map::new(|c: K| self.slots@.contains_key(c.key()), |c: K| self.slots@[c.key()])
    }
}

/// The ids that `index` holds for `coords`, in the order of `coords`.
/// Coordinates at which no cell lives are passed over.
pub open spec fn found<K>(index: Map<K, usize>, coords: Seq<K>) -> Seq<usize> {
    coords.filter_map(
        |c: K|
            if index.contains_key(c) {
                Some(index[c])
            } else {
                None
            },
    )
}

/// The ids that an index finds lie below every bound on the ids it holds.
pub proof fn lemma_found_in_range<K>(index: Map<K, usize>, coords: Seq<K>, limit: int)
    requires
        forall|c: K| #[trigger] index.contains_key(c) ==> index[c] < limit,
    ensures
        forall|k: int| 0 <= k < found(index, coords).len() ==> #[trigger] found(index, coords)[k] < limit,
    decreases coords.len(),
{
    if coords.len() > 0 {
        lemma_found_in_range(index, coords.drop_last(), limit);
        let rest = found(index, coords.drop_last());
        let all = found(index, coords);
        if index.contains_key(coords.last()) {
            assert(all == rest + seq![index[coords.last()]]);
        } else {
            assert(all == rest);
        }
    }
}

impl<K: Coordinates> CellMap<K> {
    /// An index without any cell.
    pub fn new() -> (map: Self)
        ensures
            map@ == Map::<K, usize>::empty(),
    {
        let map = CellMap { slots: HashMap::new(), coordinates: PhantomData };
        assert(map@ =~= Map::<K, usize>::empty());
        map
    }

    /// Files `id` under `coordinates` and hands back the id that was filed
    /// there before, if there was one.
    pub fn insert_cell(&mut self, coordinates: K, id: usize) -> (previous: Option<usize>)
        ensures
            final(self)@ == old(self)@.insert(coordinates, id),
            previous == if old(self)@.contains_key(coordinates) {
                Some(old(self)@[coordinates])
            } else {
                None
            },
    {
        let key = coordinates.index_key();
        let previous = self.slots.insert(key, id);
        proof {
            assert forall|c: K| c.key() == coordinates.key() implies c == coordinates by {
                K::lemma_key_injective(c, coordinates);
            }
            assert(self@ =~= old(self)@.insert(coordinates, id));
        }
        previous
    }

    /// The id of the cell at `coordinates`, if one lives there.
    pub fn get_cell(&self, coordinates: &K) -> (id: Option<usize>)
        ensures
            id == if self@.contains_key(*coordinates) {
                Some(self@[*coordinates])
            } else {
                None
            },
    {
        let key = coordinates.index_key();
        match self.slots.get(&key) {
            Some(id) => Some(*id),
            None => None,
        }
    }

    /// The ids of the cells that live at `coords`, in the order of `coords`.
    /// Coordinates at which no cell lives are passed over.
    pub fn get_cell_entities(&self, coords: &[K]) -> (ids: Vec<usize>)
        ensures
            ids@ == found(self@, coords@),
    {
        let mut ids: Vec<usize> = Vec::new();
        let mut i: usize = 0;
        while i < coords.len()
            invariant
                i <= coords.len(),
                ids@ == found(self@, coords@.take(i as int)),
            decreases coords.len() - i,
        {
            proof {
                assert(coords@.take(i as int + 1).drop_last() =~= coords@.take(i as int));
            }
            match self.get_cell(&coords[i]) {
                Some(id) => {
                    ids.push(id);
                },
                None => {},
            }
            i = i + 1;
        }
        assert(coords@.take(coords.len() as int) =~= coords@);
        ids
    }
}

} // verus!
