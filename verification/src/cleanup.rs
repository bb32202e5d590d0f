//! The removal of a worker's block locations, and of cached files that lost
//! blocks by it.
//!
//! The caller serializes the work on one worker and performs each bounded
//! chunk on the namespace; a chunk that fails leaves everything that a retry
//! needs.

use vstd::prelude::*;

use crate::block_map::DeleteResult;
use crate::block_report::BLOCK_REPORT_WRITE_CHUNK;
use crate::error::FsError;
use crate::ids::BlockIds;
use crate::master_filesystem::{CleanupView, FilesystemView, MasterFilesystem};
use crate::model::{add_saturating, BlockLocation, WorkerInfo};
use crate::manager_model::ManagerView;

verus! {

/// The most block ids that are inspected in one go.
pub const LOST_WORKER_INVALIDATION_CHUNK: usize = 4096;

/// What the cleanup of a worker's locations came to.
pub struct LostWorkerLocationCleanup {
    /// The blocks that lost their location on the worker.
    pub removed_block_ids: Vec<i64>,
    /// Those of them that still belong to a file and need another replica.
    pub replication_block_ids: Vec<i64>,
}

impl LostWorkerLocationCleanup {
    /// A cleanup that had nothing to do.
    pub fn empty() -> (r: Self)
        ensures
            r.removed_block_ids@.len() == 0,
            r.replication_block_ids@.len() == 0,
    {
        LostWorkerLocationCleanup {
            removed_block_ids: Vec::new(),
            replication_block_ids: Vec::new(),
        }
    }
}

/// The outcome of invalidating cached files: the blocks that no file holds any
/// more, and the replicas to delete.
pub struct CacheInvalidationResult {
    pub invalidated_block_ids: BlockIds,
    pub delete_result: DeleteResult,
}

impl CacheInvalidationResult {
    /// Blocks that earlier work already discarded, with their locations.
    pub fn discarded(ids: &Vec<i64>, blocks: Vec<(i64, Vec<BlockLocation>)>) -> (r: Self)
        ensures
            r.invalidated_block_ids@ == ids@.to_set(),
            r.delete_result.blocks == blocks,
            r.delete_result.inodes == 0,
            r.delete_result.bytes == 0,
    {
        let mut invalidated_block_ids: BlockIds = BlockIds::new();
        invalidated_block_ids.extend(ids);
        assert(invalidated_block_ids@ =~= ids@.to_set());
        CacheInvalidationResult {
            invalidated_block_ids,
            delete_result: DeleteResult { inodes: 0, bytes: 0, blocks },
        }
    }

    /// Adds the outcome of further work.
    pub fn extend(&mut self, other: CacheInvalidationResult)
        ensures
            final(self).invalidated_block_ids@ == old(self).invalidated_block_ids@.union(
                other.invalidated_block_ids@,
            ),
            final(self).delete_result.blocks@ == old(self).delete_result.blocks@
                + other.delete_result.blocks@,
            final(self).delete_result.inodes == crate::model::saturating_sum(
                old(self).delete_result.inodes,
                other.delete_result.inodes,
            ),
            final(self).delete_result.bytes == crate::model::saturating_sum(
                old(self).delete_result.bytes,
                other.delete_result.bytes,
            ),
    {
        let ids: Vec<i64> = other.invalidated_block_ids.to_vec();
        self.invalidated_block_ids.extend(&ids);
        self.delete_result.inodes = add_saturating(
            self.delete_result.inodes,
            other.delete_result.inodes,
        );
        self.delete_result.bytes = add_saturating(
            self.delete_result.bytes,
            other.delete_result.bytes,
        );
        let mut blocks = other.delete_result.blocks;
        self.delete_result.blocks.append(&mut blocks);
    }
}

/// The current blocks of the files that a chunk of blocks belongs to.
pub struct CurrentBlocks {
    /// For each block of the chunk, the id of the inode that it was made for.
    pub owners: Vec<i64>,
    /// The blocks of those inodes; none for an inode that is not a file.
    pub files: Vec<(i64, Vec<i64>)>,
}

/// The block is among the blocks of its inode.
pub open spec fn is_held(files: Seq<(i64, Vec<i64>)>, owner: i64, id: i64) -> bool {
    exists|i: int, j: int|
        0 <= i < files.len() && files[i].0 == owner && 0 <= j < files[i].1@.len()
            && #[trigger] files[i].1@[j] == id
}

/// The blocks of `ids` that their inodes do not hold, in order.
pub open spec fn not_held(ids: Seq<i64>, owners: Seq<i64>, files: Seq<(i64, Vec<i64>)>) -> Seq<i64>
    recommends
        ids.len() == owners.len(),
    decreases ids.len(),
{
    if ids.len() == 0 {
        Seq::empty()
    } else if is_held(files, owners[ids.len() - 1], ids.last()) {
        not_held(ids.drop_last(), owners, files)
    } else {
        not_held(ids.drop_last(), owners, files).push(ids.last())
    }
}

fn block_is_held(files: &Vec<(i64, Vec<i64>)>, owner: i64, id: i64) -> (r: bool)
    ensures
        r == is_held(files@, owner, id),
{
    let mut i: usize = 0;
    while i < files.len()
        invariant
            i <= files.len(),
            forall|a: int, b: int|
                0 <= a < i && files@[a].0 == owner && 0 <= b < files@[a].1@.len()
                    ==> #[trigger] files@[a].1@[b] != id,
        decreases files.len() - i,
    {
        if files[i].0 == owner {
            let blocks: &Vec<i64> = &files[i].1;
            let mut j: usize = 0;
            while j < blocks.len()
                invariant
                    i < files.len(),
                    blocks@ == files@[i as int].1@,
                    files@[i as int].0 == owner,
                    j <= blocks.len(),
                    forall|b: int| 0 <= b < j ==> #[trigger] blocks@[b] != id,
                decreases blocks.len() - j,
            {
                if blocks[j] == id {
                    assert(files@[i as int].1@[j as int] == id);
                    return true;
                }
                j += 1;
            }
        }
        i += 1;
    }
    false
}

/// The removal of locations from the index, chunk by chunk.
pub struct RemovalTask {
    pub worker_id: u32,
    pub block_ids: Vec<i64>,
    /// How many locations have been removed.
    pub removed: usize,
}

impl RemovalTask {
    pub open spec fn wf(self) -> bool {
        self.removed <= self.block_ids@.len()
    }

    pub open spec fn chunk_end(self) -> int {
        if self.removed + BLOCK_REPORT_WRITE_CHUNK < self.block_ids@.len() {
            self.removed + BLOCK_REPORT_WRITE_CHUNK
        } else {
            self.block_ids@.len() as int
        }
    }

    /// The next bounded batch of removals, or nothing once all are done. The
    /// batch counts as removed: where it fails, the cleanup as a whole starts
    /// anew from what the index still holds.
    pub fn next_batch(&mut self) -> (r: Option<Vec<(bool, i64, BlockLocation)>>)
        requires
            old(self).wf(),
        ensures
            final(self).wf(),
            *final(self) == (RemovalTask { removed: final(self).removed, ..*old(self) }),
            final(self).removed == old(self).chunk_end(),
            match r {
                Some(b) => old(self).removed < old(self).block_ids@.len() && b@
                    == old(self).block_ids@.subrange(
                    old(self).removed as int,
                    old(self).chunk_end(),
                ).map_values(
                    |id: i64|
                        (
                            false,
                            id,
                            BlockLocation {
                                worker_id: old(self).worker_id,
                                storage_type: crate::model::StorageType::Disk,
                            },
                        ),
                ),
                None => old(self).removed == old(self).block_ids@.len(),
            },
    {
        if self.removed == self.block_ids.len() {
            return None;
        }
        let start: usize = self.removed;
        let end: usize = if self.block_ids.len() - start > BLOCK_REPORT_WRITE_CHUNK {
            start + BLOCK_REPORT_WRITE_CHUNK
        } else {
            self.block_ids.len()
        };
        let mut batch: Vec<(bool, i64, BlockLocation)> = Vec::new();
        let mut i: usize = start;
        while i < end
            invariant
                start <= i <= end <= self.block_ids.len(),
                batch@.len() == i - start,
                *self == *old(self),
                forall|j: int|
                    0 <= j < batch@.len() ==> #[trigger] batch@[j] == (
                        false,
                        self.block_ids@[start + j],
                        BlockLocation {
                            worker_id: self.worker_id,
                            storage_type: crate::model::StorageType::Disk,
                        },
                    ),
            decreases end - i,
        {
            batch.push((false, self.block_ids[i], BlockLocation::with_id(self.worker_id)));
            i += 1;
        }
        self.removed = end;
        assert(batch@ =~= old(self).block_ids@.subrange(start as int, end as int).map_values(
            |id: i64|
                (
                    false,
                    id,
                    BlockLocation {
                        worker_id: old(self).worker_id,
                        storage_type: crate::model::StorageType::Disk,
                    },
                ),
        ));
        Some(batch)
    }
}

/// The invalidation of cached files that lost blocks, chunk by chunk.
pub struct InvalidationTask {
    pub worker_id: u32,
    pub affected: BlockIds,
    /// The blocks to inspect, in increasing order.
    pub block_ids: Vec<i64>,
    pub invalidated: BlockIds,
    /// How many blocks have been inspected.
    pub inspected: usize,
}

impl InvalidationTask {
    pub open spec fn wf(self) -> bool {
        self.inspected <= self.block_ids@.len()
    }

    pub open spec fn chunk_end(self) -> int {
        if self.inspected + LOST_WORKER_INVALIDATION_CHUNK < self.block_ids@.len() {
            self.inspected + LOST_WORKER_INVALIDATION_CHUNK
        } else {
            self.block_ids@.len() as int
        }
    }

    /// The next bounded chunk of blocks to inspect, or nothing once all are.
    pub fn next_chunk(&self) -> (r: Option<Vec<i64>>)
        requires
            self.wf(),
        ensures
            match r {
                Some(c) => self.inspected < self.block_ids@.len() && c@
                    == self.block_ids@.subrange(self.inspected as int, self.chunk_end()),
                None => self.inspected == self.block_ids@.len(),
            },
    {
        if self.inspected == self.block_ids.len() {
            return None;
        }
        let start: usize = self.inspected;
        let end: usize = if self.block_ids.len() - start > LOST_WORKER_INVALIDATION_CHUNK {
            start + LOST_WORKER_INVALIDATION_CHUNK
        } else {
            self.block_ids.len()
        };
        let mut chunk: Vec<i64> = Vec::new();
        let mut i: usize = start;
        while i < end
            invariant
                self.inspected == start <= i <= end <= self.block_ids.len(),
                chunk@ == self.block_ids@.subrange(start as int, i as int),
            decreases end - i,
        {
            chunk.push(self.block_ids[i]);
            i += 1;
            assert(chunk@ =~= self.block_ids@.subrange(start as int, i as int));
        }
        Some(chunk)
    }
}

impl FilesystemView {
    /// Blocks of a file whose cached data was discarded stay known for a
    /// retry.
    pub open spec fn retain_invalidation(self, worker_id: u32, ids: Set<i64>) -> FilesystemView {
        FilesystemView {
            cleanups: self.cleanups.insert(
                worker_id,
                CleanupView {
                    invalidation: self.cleanup_of(worker_id).invalidation.union(ids),
                    ..self.cleanup_of(worker_id)
                },
            ),
            ..self
        }
    }

    /// A chunk was invalidated: its blocks stay known as discarded, every
    /// replica that the result names is queued for deletion, and so is the
    /// worker's own copy of each discarded block.
    pub open spec fn apply_invalidation(
        self,
        worker_id: u32,
        affected: Set<i64>,
        invalidated: Set<i64>,
        replicas: Set<(u32, i64)>,
    ) -> FilesystemView {
        FilesystemView {
            manager: ManagerView {
                deletes: self.manager.deletes.union(replicas).union(
                    crate::block_report::replicas_on(worker_id, invalidated.intersect(affected)),
                ),
                ..self.manager
            },
            cleanups: self.cleanups.insert(
                worker_id,
                CleanupView {
                    invalidated: self.cleanup_of(worker_id).invalidated.union(invalidated),
                    ..self.cleanup_of(worker_id)
                },
            ),
            ..self
        }
    }
}

/// Those of `ids` that are not in `gone`, in order.
pub open spec fn without(ids: Seq<i64>, gone: Set<i64>) -> Seq<i64>
    decreases ids.len(),
{
    if ids.len() == 0 {
        Seq::empty()
    } else if gone.contains(ids.last()) {
        without(ids.drop_last(), gone)
    } else {
        without(ids.drop_last(), gone).push(ids.last())
    }
}

impl MasterFilesystem {
    /// Whether a cleanup of the worker has begun and not succeeded yet.
    pub fn has_pending_worker_cleanup(&self, worker_id: u32) -> (r: bool)
        ensures
            r == self@.cleanups.contains_key(worker_id),
    {
        self.lost_worker_cleanups.contains_key(worker_id)
    }

    /// Begins the cleanup of the given locations. All of them are captured
    /// before any is removed, so that a failure leaves what a retry needs.
    pub fn cleanup_worker_locations(&mut self, worker_id: u32, block_ids: Vec<i64>) -> (r:
        RemovalTask)
        ensures
            final(self)@ == old(self)@.retain_affected(worker_id, block_ids@.to_set()),
            r.wf(),
            r.worker_id == worker_id,
            r.block_ids == block_ids,
            r.removed == 0,
    {
        self.retain_affected_blocks(worker_id, &block_ids);
        RemovalTask { worker_id, block_ids, removed: 0 }
    }

    /// Begins the cleanup of all locations of a worker.
    pub fn delete_locations(&mut self, worker_id: u32, block_ids: Vec<i64>) -> (r: RemovalTask)
        ensures
            final(self)@ == old(self)@.retain_affected(worker_id, block_ids@.to_set()),
            r.wf(),
            r.worker_id == worker_id,
            r.block_ids == block_ids,
            r.removed == 0,
    {
        self.cleanup_worker_locations(worker_id, block_ids)
    }

    /// Begins the cleanup of a lost worker. One that has come back is left
    /// alone.
    pub fn delete_lost_worker_locations(&mut self, worker: &WorkerInfo, block_ids: Vec<i64>) -> (r:
        Option<RemovalTask>)
        ensures
            match r {
                Some(task) => old(self)@.manager.is_lost(worker@) && final(self)@
                    == old(self)@.retain_affected(
                    worker@.address.worker_id,
                    block_ids@.to_set(),
                ) && task.wf() && task.worker_id == worker@.address.worker_id && task.block_ids
                    == block_ids && task.removed == 0,
                None => !old(self)@.manager.is_lost(worker@) && final(self)@ == old(self)@,
            },
    {
        if !self.worker_manager.is_lost_worker(worker) {
            return None;
        }
        Some(self.cleanup_worker_locations(worker.worker_id(), block_ids))
    }

    /// Ends the cleanup of a lost worker with what came of it; nothing did
    /// where the worker had come back. A cleanup that succeeded is not
    /// scheduled any more, one that failed stays so.
    pub fn lost_worker_cleanup_ended(
        &mut self,
        worker: &WorkerInfo,
        outcome: Option<Result<LostWorkerLocationCleanup, FsError>>,
    ) -> (r: Result<LostWorkerLocationCleanup, FsError>)
        ensures
            match outcome {
                Some(Ok(cleanup)) => r == Ok::<LostWorkerLocationCleanup, FsError>(cleanup)
                    && final(self)@ == (FilesystemView {
                    manager: old(self)@.manager.finish_cleanup(worker@),
                    ..old(self)@
                }),
                Some(Err(e)) => r == Err::<LostWorkerLocationCleanup, FsError>(e) && final(self)@
                    == old(self)@,
                None => (r matches Ok(c) && c.removed_block_ids@.len() == 0
                    && c.replication_block_ids@.len() == 0) && final(self)@ == old(self)@,
            },
    {
        match outcome {
            Some(Ok(cleanup)) => {
                self.worker_manager.finish_offline_worker_cleanup(worker);
                Ok(cleanup)
            },
            Some(Err(e)) => Err(e),
            None => Ok(LostWorkerLocationCleanup::empty()),
        }
    }

    /// Begins to invalidate cached files that lost blocks with the worker.
    pub fn invalidate_lost_worker_cache(&self, worker_id: u32) -> (r: InvalidationTask)
        requires
            self@.cleanups.contains_key(worker_id),
        ensures
            r.wf(),
            r.worker_id == worker_id,
            r.inspected == 0,
            r.affected@ == self@.cleanups[worker_id].affected,
            r.invalidated@ == self@.cleanups[worker_id].invalidated,
            r.block_ids@ == crate::ids::in_order(
                self@.cleanups[worker_id].invalidation.union(self@.cleanups[worker_id].affected),
            ),
            r.block_ids@.to_set() == self@.cleanups[worker_id].invalidation.union(
                self@.cleanups[worker_id].affected,
            ),
            crate::ids::ascending(r.block_ids@),
    {
        let (affected, mut inspect, invalidated) = match self.lost_worker_cleanups.get(worker_id) {
            Some(state) => (
                state.affected_block_ids.clone(),
                state.invalidation_block_ids.clone(),
                state.invalidated_block_ids.clone(),
            ),
            None => (BlockIds::new(), BlockIds::new(), BlockIds::new()),
        };
        inspect.extend(&affected.to_vec());
        assert(inspect@ =~= self@.cleanups[worker_id].invalidation.union(
            self@.cleanups[worker_id].affected,
        ));
        InvalidationTask {
            worker_id,
            affected,
            block_ids: inspect.to_vec(),
            invalidated,
            inspected: 0,
        }
    }

    /// The blocks of a chunk that their files do not hold any more. An earlier
    /// chunk, or work that failed after it was done, may have discarded them:
    /// their deletion is found from what the files hold, never from the inode
    /// number alone.
    pub fn discarded_cleanup_blocks(block_ids: &Vec<i64>, current: &CurrentBlocks) -> (r: Vec<i64>)
        requires
            block_ids@.len() == current.owners@.len(),
        ensures
            r@ == not_held(block_ids@, current.owners@, current.files@),
    {
        let mut r: Vec<i64> = Vec::new();
        let mut i: usize = 0;
        while i < block_ids.len()
            invariant
                i <= block_ids.len() == current.owners.len(),
                r@ == not_held(block_ids@.take(i as int), current.owners@, current.files@),
            decreases block_ids.len() - i,
        {
            proof {
                crate::ids::take_step(block_ids@, i as int);
            }
            if !block_is_held(&current.files, current.owners[i], block_ids[i]) {
                r.push(block_ids[i]);
            }
            i += 1;
        }
        assert(block_ids@.take(block_ids@.len() as int) =~= block_ids@);
        r
    }

    /// Keeps the blocks of files whose cached data a chunk has discarded, also
    /// where the chunk goes on to fail: a retry has to find them again.
    pub fn retain_prepared_invalidation(&mut self, worker_id: u32, prepared: &Vec<i64>)
        requires
            old(self)@.cleanups.contains_key(worker_id),
        ensures
            final(self)@ == old(self)@.retain_invalidation(worker_id, prepared@.to_set()),
    {
        if let Some(mut state) = self.lost_worker_cleanups.remove(worker_id) {
            state.invalidation_block_ids.extend(prepared);
            self.lost_worker_cleanups.insert(worker_id, state);
        }
        assert(self@ =~= old(self)@.retain_invalidation(worker_id, prepared@.to_set()));
    }

    /// Takes in that a chunk was invalidated. Its deletions are queued at
    /// once: a later chunk can fail after the files have lost these blocks.
    pub fn invalidation_chunk_applied(
        &mut self,
        task: &mut InvalidationTask,
        result: CacheInvalidationResult,
    )
        requires
            old(task).wf(),
            old(self)@.cleanups.contains_key(old(task).worker_id),
        ensures
            final(self)@ == old(self)@.apply_invalidation(
                old(task).worker_id,
                old(task).affected@,
                result.invalidated_block_ids@,
                result.delete_result.replicas(),
            ),
            final(task).wf(),
            final(task).worker_id == old(task).worker_id,
            final(task).affected@ == old(task).affected@,
            final(task).block_ids == old(task).block_ids,
            final(task).inspected == old(task).chunk_end(),
            final(task).invalidated@ == old(task).invalidated@.union(
                result.invalidated_block_ids@,
            ),
    {
        let worker_id: u32 = task.worker_id;
        let ids: Vec<i64> = result.invalidated_block_ids.to_vec();
        if let Some(mut state) = self.lost_worker_cleanups.remove(worker_id) {
            state.invalidated_block_ids.extend(&ids);
            self.lost_worker_cleanups.insert(worker_id, state);
        }
        let ghost expected = old(self)@.apply_invalidation(
            worker_id,
            task.affected@,
            result.invalidated_block_ids@,
            result.delete_result.replicas(),
        );
        assert(self@.cleanups =~= expected.cleanups);
        self.worker_manager.remove_blocks(&result.delete_result);
        let ghost base = self@;
        let mut i: usize = 0;
        while i < ids.len()
            invariant
                i <= ids.len(),
                worker_id == task.worker_id,
                *task == *old(task),
                self@ == (FilesystemView {
                    manager: ManagerView { deletes: self@.manager.deletes, ..base.manager },
                    ..base
                }),
                forall|p: (u32, i64)| #[trigger]
                    self@.manager.deletes.contains(p) == (base.manager.deletes.contains(p) || (p.0
                        == worker_id && task.affected@.contains(p.1) && ids@.take(i as int).contains(
                        p.1,
                    ))),
            decreases ids.len() - i,
        {
            let ghost before = self@.manager.deletes;
            proof {
                crate::ids::take_step(ids@, i as int);
            }
            // The worker is not among the known locations by now; its copies
            // have to go all the same, should it return.
            if task.affected.contains(ids[i]) {
                self.worker_manager.remove_block(worker_id, ids[i]);
            }
            assert forall|p: (u32, i64)| #[trigger]
                self@.manager.deletes.contains(p) == (base.manager.deletes.contains(p) || (p.0
                    == worker_id && task.affected@.contains(p.1) && ids@.take(i + 1).contains(
                    p.1,
                ))) by {
                assert(before.contains(p) == (base.manager.deletes.contains(p) || (p.0 == worker_id
                    && task.affected@.contains(p.1) && ids@.take(i as int).contains(p.1))));
            }
            i += 1;
        }
        proof {
            assert(ids@.take(ids@.len() as int) =~= ids@);
            assert forall|id: i64| ids@.contains(id) == result.invalidated_block_ids@.contains(
                id,
            ) by {
                assert(ids@.to_set().contains(id) == result.invalidated_block_ids@.contains(id));
            }
            assert(self@.manager.deletes =~= expected.manager.deletes);
            assert(self@ =~= expected);
        }
        let total: usize = task.block_ids.len();
        let next: usize = if total - task.inspected > LOST_WORKER_INVALIDATION_CHUNK {
            task.inspected + LOST_WORKER_INVALIDATION_CHUNK
        } else {
            total
        };
        task.inspected = next;
        task.invalidated.extend(&ids);
    }

    /// Ends a cleanup whose chunks have all been applied.
    pub fn finish_invalidation(&mut self, task: InvalidationTask) -> (r: LostWorkerLocationCleanup)
        requires
            task.inspected == task.block_ids@.len(),
        ensures
            final(self)@ == (FilesystemView {
                cleanups: old(self)@.cleanups.remove(task.worker_id),
                ..old(self)@
            }),
            r.removed_block_ids@ == crate::ids::in_order(task.affected@),
            r.removed_block_ids@.to_set() == task.affected@,
            crate::ids::ascending(r.removed_block_ids@),
            r.replication_block_ids@ == without(r.removed_block_ids@, task.invalidated@),
    {
        let removed_block_ids: Vec<i64> = task.affected.to_vec();
        let mut replication_block_ids: Vec<i64> = Vec::new();
        let mut i: usize = 0;
        while i < removed_block_ids.len()
            invariant
                i <= removed_block_ids.len(),
                replication_block_ids@ == without(
                    removed_block_ids@.take(i as int),
                    task.invalidated@,
                ),
            decreases removed_block_ids.len() - i,
        {
            proof {
                crate::ids::take_step(removed_block_ids@, i as int);
            }
            if !task.invalidated.contains(removed_block_ids[i]) {
                replication_block_ids.push(removed_block_ids[i]);
            }
            i += 1;
        }
        assert(removed_block_ids@.take(removed_block_ids@.len() as int) =~= removed_block_ids@);
        self.lost_worker_cleanups.remove(task.worker_id);
        LostWorkerLocationCleanup { removed_block_ids, replication_block_ids }
    }
}

} // verus!
