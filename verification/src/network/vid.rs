use vstd::prelude::*;
use vstd::string::*;
use std::collections::HashMap;
use crate::hardware::constants::BROADCAST_ID;
use crate::str_map::StrMap;

verus! {

/// The table that ties each routing id to the name of its node, in both
/// directions.
#[derive(Debug)]
pub struct VidTable {
    pub v_to_p: HashMap<u32, String>,
    pub p_to_v: StrMap<u32>,
    /// The routing id that the next coordinator gets.
    pub coordinator_cnt: u32,
}

/// What an id table holds.
pub struct VidTableView {
    pub pids: Map<u32, Seq<char>>,
    pub vids: Map<Seq<char>, u32>,
    pub coordinator_cnt: u32,
}

impl View for VidTable {
    type V = VidTableView;

    open spec fn view(&self) -> VidTableView {
        VidTableView {
            pids: self.pids(),
            vids: self.vids(),
            coordinator_cnt: self.coordinator_cnt,
        }
    }
}

impl VidTableView {
    /// Each routing id has one name and each name one routing id: the name
    /// of an id leads back to the id, and the id of a name back to the name.
    pub open spec fn bijective(self) -> bool {
        &&& forall|v: u32| #[trigger]
            self.pids.contains_key(v) ==> self.vids.contains_key(self.pids[v])
                && self.vids[self.pids[v]] == v
        &&& forall|p: Seq<char>| #[trigger]
            self.vids.contains_key(p) ==> self.pids.contains_key(self.vids[p])
                && self.pids[self.vids[p]] == p
    }

    /// The table without the ties of `vid` and of `pid`: each of the two
    /// leaves the table together with what it was tied to.
    pub open spec fn untied(self, vid: u32, pid: Seq<char>) -> VidTableView {
        let pids = if self.vids.contains_key(pid) {
            self.pids.remove(self.vids[pid])
        } else {
            self.pids
        };
        let vids = if self.pids.contains_key(vid) {
            self.vids.remove(self.pids[vid])
        } else {
            self.vids
        };
        VidTableView { pids: pids.remove(vid), vids: vids.remove(pid), ..self }
    }

    /// The table with `vid` and `pid` tied to each other, and to nothing
    /// else.
    pub open spec fn tied(self, vid: u32, pid: Seq<char>) -> VidTableView {
        let u = self.untied(vid, pid);
        VidTableView { pids: u.pids.insert(vid, pid), vids: u.vids.insert(pid, vid), ..u }
    }

    /// The table without its ties.
    pub open spec fn cleared(self) -> VidTableView {
        VidTableView { pids: Map::empty(), vids: Map::empty(), ..self }
    }
}

/// Untying and tying keep the table a bijection; after tying, each of the
/// two leads to the other, and every pair that holds neither is as before.
pub proof fn lemma_tied_is_bijective(t: VidTableView, vid: u32, pid: Seq<char>)
    requires
        t.bijective(),
    ensures
        t.untied(vid, pid).bijective(),
        t.tied(vid, pid).bijective(),
        t.tied(vid, pid).pids[vid] == pid,
        t.tied(vid, pid).vids[pid] == vid,
        forall|v: u32|
            v != vid && #[trigger] t.pids.contains_key(v) && t.pids[v] != pid ==> t.tied(
                vid,
                pid,
            ).pids.contains_key(v) && t.tied(vid, pid).pids[v] == t.pids[v],
        forall|p: Seq<char>|
            p != pid && #[trigger] t.vids.contains_key(p) && t.vids[p] != vid ==> t.tied(
                vid,
                pid,
            ).vids.contains_key(p) && t.tied(vid, pid).vids[p] == t.vids[p],
        t.untied(vid, pid).tied(vid, pid) == t.tied(vid, pid),
{
    let u = t.untied(vid, pid);
    assert forall|v: u32| #[trigger] u.pids.contains_key(v) implies u.vids.contains_key(
        u.pids[v],
    ) && u.vids[u.pids[v]] == v by {
        assert(t.pids.contains_key(v));
    }
    assert forall|p: Seq<char>| #[trigger] u.vids.contains_key(p) implies u.pids.contains_key(
        u.vids[p],
    ) && u.pids[u.vids[p]] == p by {
        assert(t.vids.contains_key(p));
    }
    let w = t.tied(vid, pid);
    assert forall|v: u32| #[trigger] w.pids.contains_key(v) implies w.vids.contains_key(
        w.pids[v],
    ) && w.vids[w.pids[v]] == v by {
        if v != vid {
            assert(u.pids.contains_key(v));
        }
    }
    assert forall|p: Seq<char>| #[trigger] w.vids.contains_key(p) implies w.pids.contains_key(
        w.vids[p],
    ) && w.pids[w.vids[p]] == p by {
        if p != pid {
            assert(u.vids.contains_key(p));
        }
    }
    let uu = u.untied(vid, pid);
    assert(uu.pids =~= u.pids);
    assert(uu.vids =~= u.vids);
}

impl VidTable {
    /// The lists behind the table are sound, and the table is a bijection.
    pub open spec fn wf(&self) -> bool {
        self.p_to_v.wf() && self@.bijective()
    }

    /// The name of each routing id.
    pub open spec fn pids(&self) -> Map<u32, Seq<char>> {
        self.v_to_p@.map_values(|s: String| s@)
    }

    /// The routing id of each name.
    pub open spec fn vids(&self) -> Map<Seq<char>, u32> {
        self.p_to_v@
    }

    pub fn new() -> (t: Self)
        ensures
            t.wf(),
            t.pids() == Map::<u32, Seq<char>>::empty(),
            t.vids() == Map::<Seq<char>, u32>::empty(),
            t.coordinator_cnt == 1,
    {
        let t = VidTable { v_to_p: HashMap::new(), p_to_v: StrMap::new(), coordinator_cnt: 1 };
        assert(t.pids() =~= Map::<u32, Seq<char>>::empty());
        t
    }

    /// Hands out the routing id of the next coordinator: 1, 2, and so on up to
    /// the number of channels, then 1 again.
    pub fn take_coordinator_id(&mut self, channel_num: u8) -> (id: u32)
        ensures
            id == old(self).coordinator_cnt,
            final(self).coordinator_cnt == next_coordinator(id, channel_num),
            final(self).v_to_p == old(self).v_to_p,
            final(self).p_to_v == old(self).p_to_v,
            old(self).wf() ==> final(self).wf(),
    {
        let id = self.coordinator_cnt;
        if id >= channel_num as u32 {
            self.coordinator_cnt = 1;
        } else {
            self.coordinator_cnt = id + 1;
        }
        proof {
            assert(self.pids() == old(self).pids());
            assert(self.vids() == old(self).vids());
            if old(self).wf() {
                let before = old(self)@;
                let after = self@;
                assert(after.pids == before.pids && after.vids == before.vids);
                assert forall|v: u32| #[trigger] after.pids.contains_key(v) implies after.vids.contains_key(
                    after.pids[v],
                ) && after.vids[after.pids[v]] == v by {
                    assert(before.pids.contains_key(v));
                }
                assert forall|p: Seq<char>| #[trigger]
                    after.vids.contains_key(p) implies after.pids.contains_key(after.vids[p])
                    && after.pids[after.vids[p]] == p by {
                    assert(before.vids.contains_key(p));
                }
            }
        }
        id
    }

    /// Takes the ties of `vid` and of `pid` out of the table.
    fn untie(&mut self, vid: u32, pid: &str)
        requires
            old(self).wf(),
        ensures
            final(self).wf(),
            final(self)@ == old(self)@.untied(vid, pid@),
    {
        let old_pid: Option<String> = match self.v_to_p.get(&vid) {
            Some(p) => Some(p.clone()),
            None => None,
        };
        let old_vid: Option<u32> = match self.p_to_v.get(pid) {
            Some(v) => Some(*v),
            None => None,
        };
        if let Some(p) = old_pid {
            self.p_to_v.remove(p.as_str());
        }
        if let Some(v) = old_vid {
            self.v_to_p.remove(&v);
        }
        self.v_to_p.remove(&vid);
        self.p_to_v.remove(pid);
        proof {
            assert(self.pids() =~= old(self)@.untied(vid, pid@).pids);
            assert(self.vids() =~= old(self)@.untied(vid, pid@).vids);
            lemma_tied_is_bijective(old(self)@, vid, pid@);
        }
    }
}

/// The routing id of the coordinator after the one with the id `id`: the
/// next number, or 1 again after the number of channels.
pub open spec fn next_coordinator(id: u32, channel_num: u8) -> u32 {
    if id >= channel_num {
        1u32
    } else {
        (id + 1) as u32
    }
}

/// Ties `vid` and `pid` to each other. What either was tied to before leaves
/// the table, so that the table stays a bijection.
pub fn add_to_vid_table(table: &mut VidTable, vid: u32, pid: &str)
    requires
        old(table).wf(),
    ensures
        final(table).wf(),
        final(table)@ == old(table)@.tied(vid, pid@),
{
    table.untie(vid, pid);
    table.v_to_p.insert(vid, String::from_str(pid));
    table.p_to_v.insert(pid, vid);
    proof {
        assert(table.pids() =~= old(table)@.tied(vid, pid@).pids);
        assert(table.vids() =~= old(table)@.tied(vid, pid@).vids);
        lemma_tied_is_bijective(old(table)@, vid, pid@);
    }
}

/// Takes `vid` and `pid` out of the table, each together with what it was
/// tied to.
pub fn remove_from_vid_table(table: &mut VidTable, vid: u32, pid: &str)
    requires
        old(table).wf(),
    ensures
        final(table).wf(),
        final(table)@ == old(table)@.untied(vid, pid@),
{
    table.untie(vid, pid);
}

/// Ties `vid` and `pid` to each other anew.
pub fn update_vid_table(table: &mut VidTable, vid: u32, pid: &str)
    requires
        old(table).wf(),
    ensures
        final(table).wf(),
        final(table)@ == old(table)@.tied(vid, pid@),
{
    remove_from_vid_table(table, vid, pid);
    add_to_vid_table(table, vid, pid);
    proof {
        lemma_tied_is_bijective(old(table)@, vid, pid@);
    }
}

/// Clearing a cleared table changes nothing.
pub proof fn lemma_clear_vid_table_idempotent(v: VidTableView)
    ensures
        v.cleared().cleared() == v.cleared(),
{
}

/// Forgets every tie.
pub fn clear_vid_table(table: &mut VidTable)
    ensures
        final(table).wf(),
        final(table)@ == old(table)@.cleared(),
        final(table).pids() == Map::<u32, Seq<char>>::empty(),
        final(table).vids() == Map::<Seq<char>, u32>::empty(),
{
    table.v_to_p.clear();
    table.p_to_v.clear();
    assert(table.pids() =~= Map::<u32, Seq<char>>::empty());
}

pub fn get_vid(table: &VidTable, pid: &str) -> (r: Option<u32>)
    requires
        table.wf(),
    ensures
        r == (if table.vids().contains_key(pid@) {
            Some(table.vids()[pid@])
        } else {
            None
        }),
{
    match table.p_to_v.get(pid) {
        Some(v) => Some(*v),
        None => None,
    }
}

pub fn get_pid(table: &VidTable, vid: u32) -> (r: Option<String>)
    ensures
        crate::network::flit::opt_str_view(r) == (if table.pids().contains_key(vid) {
            Some(table.pids()[vid])
        } else {
            None
        }),
{
    match table.v_to_p.get(&vid) {
        Some(p) => Some(p.clone()),
        None => None,
    }
}

/// Registers the name that addresses every neighbour under the id that does.
pub fn register_broadcast(table: &mut VidTable)
    requires
        old(table).wf(),
    ensures
        final(table).wf(),
        final(table)@ == old(table)@.tied(BROADCAST_ID, "broadcast"@),
{
    add_to_vid_table(table, BROADCAST_ID, "broadcast");
}

} // verus!
