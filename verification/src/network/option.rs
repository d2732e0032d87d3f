use vstd::prelude::*;
use vstd::string::*;
use crate::error::SimError;
use crate::network::vid::{get_vid, VidTable};

verus! {

/// The neighbours that a node has lost in a change of the topology, by name
/// and by routing id.
#[derive(Debug)]
pub struct UpdateOption {
    pub pids: Vec<String>,
    pub vids: Vec<u32>,
}

/// Whether `names` holds `name`.
pub fn holds_name(names: &Vec<String>, name: &String) -> (b: bool)
    ensures
        b == names.deep_view().contains(name@),
{
    let mut i: usize = 0;
    while i < names.len()
        invariant
            i <= names@.len(),
            forall|j: int| 0 <= j < i ==> names.deep_view()[j] != name@,
        decreases names@.len() - i,
    {
        if names[i] == *name {
            assert(names.deep_view()[i as int] == name@);
            return true;
        }
        i = i + 1;
    }
    false
}

/// The names of `old_neighbors` that `new_neighbors` lacks, in their order.
pub open spec fn lost_names(old_neighbors: Seq<Seq<char>>, new_neighbors: Seq<Seq<char>>) -> Seq<
    Seq<char>,
>
    decreases old_neighbors.len(),
{
    if old_neighbors.len() == 0 {
        Seq::empty()
    } else {
        let rest = lost_names(old_neighbors.drop_last(), new_neighbors);
        if new_neighbors.contains(old_neighbors.last()) {
            rest
        } else {
            rest.push(old_neighbors.last())
        }
    }
}

impl UpdateOption {
    /// Lists the neighbours that are gone. Fails where one of them has no
    /// routing id.
    pub fn new(old_neighbors: &Vec<String>, new_neighbors: &Vec<String>, table: &VidTable) -> (r:
        Result<Self, SimError>)
        requires
            table.wf(),
        ensures
            ({
                let lost = lost_names(old_neighbors.deep_view(), new_neighbors.deep_view());
                let known = forall|i: int|
                    0 <= i < lost.len() ==> table.vids().contains_key(#[trigger] lost[i]);
                match r {
                    Ok(o) => {
                        &&& known
                        &&& o.pids.deep_view() == lost
                        &&& o.vids@.len() == lost.len()
                        &&& forall|i: int|
                            0 <= i < lost.len() ==> #[trigger] o.vids@[i] == table.vids()[lost[i]]
                    },
                    Err(e) => !known && e == SimError::UnknownNode,
                }
            }),
    {
        let mut pids: Vec<String> = Vec::new();
        let mut vids: Vec<u32> = Vec::new();
        let mut i: usize = 0;
        while i < old_neighbors.len()
            invariant
                table.wf(),
                i <= old_neighbors@.len(),
                pids.deep_view() == lost_names(
                    old_neighbors.deep_view().subrange(0, i as int),
                    new_neighbors.deep_view(),
                ),
                vids@.len() == pids@.len(),
                forall|j: int|
                    0 <= j < pids@.len() ==> table.vids().contains_key(
                        #[trigger] pids.deep_view()[j],
                    ) && vids@[j] == table.vids()[pids.deep_view()[j]],
            decreases old_neighbors@.len() - i,
        {
            let ghost before = pids.deep_view();
            proof {
                let next = old_neighbors.deep_view().subrange(0, i + 1);
                assert(next.drop_last() =~= old_neighbors.deep_view().subrange(0, i as int));
                assert(next.last() == old_neighbors@[i as int]@);
            }
            if !holds_name(new_neighbors, &old_neighbors[i]) {
                match get_vid(table, old_neighbors[i].as_str()) {
                    Some(v) => {
                        pids.push(old_neighbors[i].clone());
                        vids.push(v);
                        assert(pids.deep_view() =~= before.push(old_neighbors@[i as int]@));
                    },
                    None => {
                        proof {
                            let lost = lost_names(
                                old_neighbors.deep_view(),
                                new_neighbors.deep_view(),
                            );
                            lemma_lost_prefix(
                                old_neighbors.deep_view(),
                                new_neighbors.deep_view(),
                                i + 1,
                            );
                            let part = lost_names(
                                old_neighbors.deep_view().subrange(0, i + 1),
                                new_neighbors.deep_view(),
                            );
                            assert(part.last() == old_neighbors@[i as int]@);
                            assert(lost[part.len() - 1] == old_neighbors@[i as int]@);
                        }
                        return Err(SimError::UnknownNode);
                    },
                }
            }
            i = i + 1;
        }
        proof {
            assert(old_neighbors.deep_view().subrange(0, old_neighbors@.len() as int)
                =~= old_neighbors.deep_view());
        }
        Ok(UpdateOption { pids, vids })
    }
}

/// What is lost among the first `k` old neighbours begins what is lost among
/// all.
proof fn lemma_lost_prefix(old_neighbors: Seq<Seq<char>>, new_neighbors: Seq<Seq<char>>, k: int)
    requires
        0 <= k <= old_neighbors.len(),
    ensures
        lost_names(old_neighbors.subrange(0, k), new_neighbors).len() <= lost_names(
            old_neighbors,
            new_neighbors,
        ).len(),
        forall|j: int|
            0 <= j < lost_names(old_neighbors.subrange(0, k), new_neighbors).len()
                ==> #[trigger] lost_names(old_neighbors, new_neighbors)[j] == lost_names(
                old_neighbors.subrange(0, k),
                new_neighbors,
            )[j],
    decreases old_neighbors.len() - k,
{
    if k == old_neighbors.len() {
        assert(old_neighbors.subrange(0, k) =~= old_neighbors);
    } else {
        lemma_lost_prefix(old_neighbors, new_neighbors, k + 1);
        let next = old_neighbors.subrange(0, k + 1);
        assert(next.drop_last() =~= old_neighbors.subrange(0, k));
    }
}

} // verus!
