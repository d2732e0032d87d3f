use vstd::prelude::*;
use std::collections::HashMap;
use crate::str_map::StrMap;

verus! {

/// The neighbours of each node, by name.
pub type Neighbors = StrMap<Vec<String>>;

/// A change of the topology: the neighbours of each node from then on.
#[derive(Debug)]
pub struct Update {
    pub new_neighbors: Neighbors,
}

/// The changes of the topology, each with the cycle in which it happens.
#[derive(Debug)]
pub struct RecTable {
    pub table: HashMap<u32, Update>,
}

/// A neighbour map as a mathematical value.
pub open spec fn neighbor_map(neighbors: Neighbors) -> Map<Seq<char>, Seq<Seq<char>>> {
    neighbors@.map_values(|names: Vec<String>| names.deep_view())
}

/// Copies a list of names.
pub fn copy_names(names: &Vec<String>) -> (r: Vec<String>)
    ensures
        r.deep_view() == names.deep_view(),
{
    let mut r: Vec<String> = Vec::new();
    let mut i: usize = 0;
    while i < names.len()
        invariant
            i <= names@.len(),
            r.deep_view() =~= names.deep_view().subrange(0, i as int),
        decreases names@.len() - i,
    {
        let ghost before = r.deep_view();
        r.push(names[i].clone());
        assert(r.deep_view() =~= before.push(names@[i as int]@));
        i = i + 1;
    }
    assert(names.deep_view().subrange(0, names@.len() as int) =~= names.deep_view());
    r
}

/// Copies a neighbour map.
pub fn copy_neighbors(neighbors: &Neighbors) -> (r: Neighbors)
    requires
        neighbors.wf(),
    ensures
        r.wf(),
        neighbor_map(r) == neighbor_map(*neighbors),
{
    let mut r: Neighbors = StrMap::new();
    let mut i: usize = 0;
    while i < neighbors.keys.len()
        invariant
            neighbors.wf(),
            r.wf(),
            i <= neighbors.keys@.len(),
            r.keys@.len() == i,
            forall|j: int| 0 <= j < i ==> #[trigger] r.keys@[j]@ == neighbors.keys@[j]@,
            forall|j: int|
                0 <= j < i ==> (#[trigger] r.vals@[j]).deep_view() == neighbors.vals@[j].deep_view(),
        decreases neighbors.keys@.len() - i,
    {
        proof {
            assert(neighbors.key_views()[i as int] == neighbors.keys@[i as int]@);
            if r@.contains_key(neighbors.keys@[i as int]@) {
                let j = r.key_views().index_of(neighbors.keys@[i as int]@);
                assert(r.key_views()[j] == neighbors.keys@[i as int]@);
                assert(r.keys@[j]@ == neighbors.keys@[j]@);
                assert(neighbors.key_views()[j] == neighbors.key_views()[i as int]);
                assert(false);
            }
        }
        let ghost before = r;
        r.insert(neighbors.keys[i].as_str(), copy_names(&neighbors.vals[i]));
        proof {
            assert forall|j: int| 0 <= j < i implies #[trigger] r.keys@[j]@
                == neighbors.keys@[j]@ by {
                assert(r.keys@.subrange(0, i as int)[j] == before.keys@[j]);
            }
            assert forall|j: int| 0 <= j < i implies (#[trigger] r.vals@[j]).deep_view()
                == neighbors.vals@[j].deep_view() by {
                assert(r.vals@[j] == before.vals@[j]);
            }
        }
        i = i + 1;
    }
    proof {
        assert(r.key_views() =~= neighbors.key_views());
        assert forall|k: Seq<char>| neighbor_map(r).contains_key(k) implies #[trigger]
            neighbor_map(r)[k] == neighbor_map(*neighbors)[k] by {
            let j = r.key_views().index_of(k);
            assert(r.key_views()[j] == k);
        }
        assert(neighbor_map(r) =~= neighbor_map(*neighbors));
    }
    r
}

} // verus!
