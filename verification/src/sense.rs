//! Sensing: the Linux host probe and the peers a snapshot reports. Reading
//! `/proc`, sysfs and the mesh is the program's I/O; the probe itself holds
//! no state the readings depend on.

use vstd::prelude::*;
use crate::types::AgentId;
use crate::trades::agent_views;

verus! {

/// Reads real Linux host statistics from `/proc` and sysfs.
#[derive(Debug, Default)]
pub struct ProcfsHost {}

impl ProcfsHost {
    pub fn new() -> (h: Self) {
        ProcfsHost {}
    }
}

/// The identities in `ids` other than `self_id`, in order.
pub open spec fn others(ids: Seq<Seq<u8>>, self_id: Seq<u8>) -> Seq<Seq<u8>>
    decreases ids.len(),
{
    if ids.len() == 0 {
        ids
    } else if ids[0] == self_id {
        others(ids.drop_first(), self_id)
    } else {
        seq![ids[0]] + others(ids.drop_first(), self_id)
    }
}

/// The peers a snapshot reports: everyone discovered on the mesh except
/// this agent itself.
pub fn peers_other_than(self_id: &AgentId, discovered: Vec<AgentId>) -> (r: Vec<AgentId>)
    ensures
        agent_views(r@) == others(agent_views(discovered@), self_id@),
{
    let ghost all = agent_views(discovered@);
    let mut out: Vec<AgentId> = Vec::new();
    let mut i: usize = 0;
    assert(all.skip(0) =~= all);
    while i < discovered.len()
        invariant
            i <= discovered@.len(),
            all == agent_views(discovered@),
            agent_views(out@) + others(all.skip(i as int), self_id@) == others(all, self_id@),
        decreases discovered@.len() - i,
    {
        assert(all.skip(i as int).drop_first() =~= all.skip(i as int + 1));
        let id = discovered[i];
        if !(id == *self_id) {
            proof {
                assert(agent_views(out@.push(id)) =~= agent_views(out@).push(id@));
                assert(agent_views(out@).push(id@) + others(all.skip(i as int + 1), self_id@)
                    =~= agent_views(out@) + (seq![id@] + others(all.skip(i as int + 1), self_id@)));
            }
            out.push(id);
        }
        i = i + 1;
    }
    assert(all.skip(i as int) =~= Seq::<Seq<u8>>::empty());
    assert(agent_views(out@) =~= others(all, self_id@));
    out
}

} // verus!
