//! Block deletions that workers still have to carry out.

use vstd::prelude::*;

use crate::ids::{BlockIds, IdMap};
use crate::model::BlockLocation;

verus! {

/// What the master tells a worker in answer to a heartbeat.
#[derive(Debug, PartialEq, Eq)]
pub enum WorkerCommand {
    /// Delete these blocks.
    DeleteBlock { blocks: Vec<i64> },
}

/// The blocks that an operation discarded, with their last known locations.
pub struct DeleteResult {
    pub inodes: i64,
    pub bytes: i64,
    pub blocks: Vec<(i64, Vec<BlockLocation>)>,
}

impl DeleteResult {
    /// The replicas named by the result, as pairs of worker and block.
    pub open spec fn replicas(self) -> Set<(u32, i64)> {
        Set::new(|p: (u32, i64)| replica_listed(self.blocks@, p))
    }
}

/// Some entry of `blocks` is for the block of `p` and names its worker.
pub open spec fn replica_listed(blocks: Seq<(i64, Vec<BlockLocation>)>, p: (u32, i64)) -> bool {
    exists|i: int, j: int|
        0 <= i < blocks.len() && 0 <= j < blocks[i].1@.len() && blocks[i].0 == p.1
            && (#[trigger] blocks[i].1@[j]).worker_id == p.0
}

/// The deletions that are queued for each worker.
pub struct BlockMap {
    pending: IdMap<BlockIds>,
}

impl View for BlockMap {
    type V = Set<(u32, i64)>;

    /// The queued deletions as pairs of worker and block.
    closed spec fn view(&self) -> Set<(u32, i64)> {
        Set::new(
            |p: (u32, i64)| self.pending@.contains_key(p.0) && self.pending@[p.0].contains(p.1),
        )
    }
}

/// The blocks queued for one worker.
pub open spec fn queued_for(deletes: Set<(u32, i64)>, worker_id: u32) -> Set<i64> {
    Set::new(|b: i64| deletes.contains((worker_id, b)))
}

/// The commands as sequences of block ids.
pub open spec fn commands_of(c: Seq<WorkerCommand>) -> Seq<Seq<i64>> {
    c.map_values(
        |w: WorkerCommand|
            match w {
                WorkerCommand::DeleteBlock { blocks } => blocks@,
            },
    )
}

/// The answer to a heartbeat: nothing where nothing is queued, else one
/// command that lists the queued blocks in increasing order.
pub open spec fn delete_commands(deletes: Set<(u32, i64)>, worker_id: u32) -> Seq<Seq<i64>> {
    let queued = queued_for(deletes, worker_id);
    if queued == Set::<i64>::empty() {
        Seq::empty()
    } else {
        seq![crate::ids::in_order(queued)]
    }
}

impl BlockMap {
    pub fn new() -> (r: Self)
        ensures
            r@ == Set::<(u32, i64)>::empty(),
    {
        let r = BlockMap { pending: IdMap::new() };
        assert(r@ =~= Set::<(u32, i64)>::empty());
        r
    }

    /// The deletions that the worker has not confirmed yet.
    pub fn handle_heartbeat(&self, worker_id: u32) -> (r: Vec<WorkerCommand>)
        ensures
            commands_of(r@) == delete_commands(self@, worker_id),
    {
        let mut r: Vec<WorkerCommand> = Vec::new();
        match self.pending.get(worker_id) {
            Some(ids) => {
                assert(queued_for(self@, worker_id) =~= ids@);
                if !ids.is_empty() {
                    r.push(WorkerCommand::DeleteBlock { blocks: ids.to_vec() });
                }
            },
            None => {
                assert(queued_for(self@, worker_id) =~= Set::<i64>::empty());
            },
        }
        assert(commands_of(r@) =~= delete_commands(self@, worker_id));
        r
    }

    /// Queues the deletion of one replica.
    pub fn remove_block(&mut self, worker_id: u32, block_id: i64)
        ensures
            final(self)@ == old(self)@.insert((worker_id, block_id)),
    {
        let mut ids: BlockIds = match self.pending.remove(worker_id) {
            Some(ids) => ids,
            None => BlockIds::new(),
        };
        ids.insert(block_id);
        self.pending.insert(worker_id, ids);
        assert(self@ =~= old(self)@.insert((worker_id, block_id)));
    }

    /// Forgets a deletion that the worker has confirmed.
    pub fn deleted_block(&mut self, worker_id: u32, block_id: i64)
        ensures
            final(self)@ == old(self)@.remove((worker_id, block_id)),
    {
        if let Some(mut ids) = self.pending.remove(worker_id) {
            ids.remove(block_id);
            self.pending.insert(worker_id, ids);
        }
        assert(self@ =~= old(self)@.remove((worker_id, block_id)));
    }

    /// Queues the deletion of every replica that the result names.
    pub fn remove_blocks(&mut self, del_res: &DeleteResult)
        ensures
            final(self)@ == old(self)@.union(del_res.replicas()),
    {
        let ghost blocks = del_res.blocks@;
        let mut i: usize = 0;
        while i < del_res.blocks.len()
            invariant
                i <= del_res.blocks.len(),
                blocks == del_res.blocks@,
                forall|p: (u32, i64)|
                    #[trigger] self@.contains(p) == (old(self)@.contains(p) || replica_listed(
                        blocks.take(i as int),
                        p,
                    )),
            decreases del_res.blocks.len() - i,
        {
            let id: i64 = del_res.blocks[i].0;
            let locs: &Vec<BlockLocation> = &del_res.blocks[i].1;
            let ghost before = self@;
            let mut j: usize = 0;
            while j < locs.len()
                invariant
                    j <= locs.len(),
                    forall|p: (u32, i64)|
                        #[trigger] self@.contains(p) == (before.contains(p) || (p.1 == id && exists|
                            k: int,
                        |
                            0 <= k < j && (#[trigger] locs@[k]).worker_id == p.0)),
                decreases locs.len() - j,
            {
                let ghost inner = self@;
                self.remove_block(locs[j].worker_id, id);
                proof {
                    assert forall|p: (u32, i64)| #[trigger]
                        self@.contains(p) == (before.contains(p) || (p.1 == id && exists|k: int|
                            0 <= k < j + 1 && (#[trigger] locs@[k]).worker_id == p.0)) by {
                        assert(self@.contains(p) == (inner.contains(p) || p == (
                            locs@[j as int].worker_id,
                            id,
                        )));
                    }
                }
                j += 1;
            }
            proof {
                let next = blocks.take(i + 1);
                let prev = blocks.take(i as int);
                assert forall|p: (u32, i64)| #[trigger]
                    self@.contains(p) == (old(self)@.contains(p) || replica_listed(next, p)) by {
                    assert(before.contains(p) == (old(self)@.contains(p) || replica_listed(prev, p)));
                    if replica_listed(prev, p) {
                        let (a, b) = choose|a: int, b: int|
                            0 <= a < prev.len() && 0 <= b < prev[a].1@.len() && prev[a].0 == p.1 && (
                            #[trigger] prev[a].1@[b]).worker_id == p.0;
                        assert(next[a].1@[b].worker_id == p.0);
                    }
                    if p.1 == id && exists|k: int|
                        0 <= k < locs.len() && (#[trigger] locs@[k]).worker_id == p.0 {
                        let k = choose|k: int|
                            0 <= k < locs.len() && (#[trigger] locs@[k]).worker_id == p.0;
                        assert(next[i as int].1@[k].worker_id == p.0);
                    }
                    if replica_listed(next, p) && !replica_listed(prev, p) {
                        let (a, b) = choose|a: int, b: int|
                            0 <= a < next.len() && 0 <= b < next[a].1@.len() && next[a].0 == p.1 && (
                            #[trigger] next[a].1@[b]).worker_id == p.0;
                        if a < i {
                            assert(prev[a].1@[b].worker_id == p.0);
                        } else {
                            assert(locs@[b].worker_id == p.0);
                        }
                    }
                }
            }
            i += 1;
        }
        proof {
            assert(blocks.take(blocks.len() as int) =~= blocks);
            assert(self@ =~= old(self)@.union(del_res.replicas()));
        }
    }
}

} // verus!
