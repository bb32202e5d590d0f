//! Block reports: how chunks of a worker's inventory add up, and how an
//! inventory waits for its reconciliation.

use vstd::prelude::*;

use crate::error::FsError;
use crate::ids::{BlockFlags, BlockIds};
use crate::master_filesystem::{FilesystemView, LostWorkerCleanupState, MasterFilesystem};
use crate::model::{BlockLocation, StorageType, WorkerInfo};

verus! {

/// How long an unfinished inventory is kept.
pub const FULL_BLOCK_REPORT_TTL_MS: u64 = 3_600_000;

/// The most block locations that are written in one go.
pub const BLOCK_REPORT_WRITE_CHUNK: usize = 4096;

#[derive(Clone, Copy, Debug, PartialEq, Eq, Structural)]
pub enum BlockReportStatus {
    Finalized,
    Writing,
    Deleted,
}

/// One block of a report.
#[derive(Clone, Copy, Debug, PartialEq, Eq, Structural)]
pub struct BlockReportInfo {
    pub id: i64,
    pub status: BlockReportStatus,
    pub storage_type: StorageType,
    pub block_size: i64,
}

impl BlockReportInfo {
    pub fn new(
        id: i64,
        status: BlockReportStatus,
        storage_type: StorageType,
        block_size: i64,
    ) -> (r: Self)
        ensures
            r == (BlockReportInfo { id, status, storage_type, block_size }),
    {
        BlockReportInfo { id, status, storage_type, block_size }
    }
}

/// A worker's report: a chunk of its whole inventory, or changes since.
pub struct BlockReportList {
    pub cluster_id: String,
    pub worker_id: u32,
    pub worker_session_id: String,
    pub full_report: bool,
    pub total_len: u64,
    pub blocks: Vec<BlockReportInfo>,
}

/// A finalized block of 128 bytes on disk.
pub fn finalized(id: i64) -> (r: BlockReportInfo)
    ensures
        r == (BlockReportInfo {
            id,
            status: BlockReportStatus::Finalized,
            storage_type: StorageType::Disk,
            block_size: 128,
        }),
{
    BlockReportInfo::new(id, BlockReportStatus::Finalized, StorageType::Disk, 128)
}

/// A report of the worker's current process that stands for itself.
pub fn report(worker: &WorkerInfo, full_report: bool, blocks: Vec<BlockReportInfo>) -> (r:
    BlockReportList)
    ensures
        r.cluster_id@ == "curvine"@,
        r.worker_id == worker@.address.worker_id,
        r.worker_session_id@ == worker@.worker_session_id,
        r.full_report == full_report,
        r.total_len == blocks@.len(),
        r.blocks == blocks,
{
    BlockReportList {
        cluster_id: "curvine".to_owned(),
        worker_id: worker.worker_id(),
        worker_session_id: worker.worker_session_id.clone(),
        full_report,
        total_len: blocks.len() as u64,
        blocks,
    }
}

/// The ids of the reported blocks.
pub open spec fn reported_ids(blocks: Seq<BlockReportInfo>) -> Set<i64> {
    Set::new(|id: i64| exists|i: int| 0 <= i < blocks.len() && (#[trigger] blocks[i]).id == id)
}

/// The ids of the blocks that are reported as deleted.
pub open spec fn deleted_ids(blocks: Seq<BlockReportInfo>) -> Set<i64> {
    Set::new(
        |id: i64|
            exists|i: int|
                0 <= i < blocks.len() && (#[trigger] blocks[i]).id == id && blocks[i].status
                    == BlockReportStatus::Deleted,
    )
}

/// The flags after the changes: the last word on a block counts.
pub open spec fn flagged(m: Map<i64, bool>, blocks: Seq<BlockReportInfo>) -> Map<i64, bool>
    decreases blocks.len(),
{
    if blocks.len() == 0 {
        m
    } else {
        flagged(m, blocks.drop_last()).insert(
            blocks.last().id,
            blocks.last().status != BlockReportStatus::Deleted,
        )
    }
}

/// The inventory after the changes: the last word on a block counts.
pub open spec fn patched(s: Set<i64>, blocks: Seq<BlockReportInfo>) -> Set<i64>
    decreases blocks.len(),
{
    if blocks.len() == 0 {
        s
    } else if blocks.last().status == BlockReportStatus::Deleted {
        patched(s, blocks.drop_last()).remove(blocks.last().id)
    } else {
        patched(s, blocks.drop_last()).insert(blocks.last().id)
    }
}

/// The chunks of an inventory that have arrived so far.
pub struct FullBlockReportState {
    pub total_len: u64,
    pub update_time_ms: u64,
    pub reported_blocks: BlockIds,
    pub deleted_blocks: BlockIds,
    pub incremental_updates: BlockFlags,
}

#[verifier::ext_equal]
pub struct ReportView {
    pub total_len: u64,
    pub update_time_ms: u64,
    pub reported: Set<i64>,
    pub deleted: Set<i64>,
    /// Changes since the inventory began: whether the block is present.
    pub incremental: Map<i64, bool>,
}

impl View for FullBlockReportState {
    type V = ReportView;

    open spec fn view(&self) -> ReportView {
        ReportView {
            total_len: self.total_len,
            update_time_ms: self.update_time_ms,
            reported: self.reported_blocks@,
            deleted: self.deleted_blocks@,
            incremental: self.incremental_updates@,
        }
    }
}

impl ReportView {
    /// An inventory of which nothing has arrived.
    pub open spec fn fresh(total_len: u64, now_ms: u64) -> ReportView {
        ReportView {
            total_len,
            update_time_ms: now_ms,
            reported: Set::empty(),
            deleted: Set::empty(),
            incremental: Map::empty(),
        }
    }

    /// One more chunk has arrived.
    pub open spec fn with_chunk(self, blocks: Seq<BlockReportInfo>, now_ms: u64) -> ReportView {
        ReportView {
            update_time_ms: now_ms,
            reported: self.reported.union(reported_ids(blocks)),
            deleted: self.deleted.union(deleted_ids(blocks)),
            ..self
        }
    }

    /// All announced blocks have arrived. Changes since do not count.
    pub open spec fn is_complete(self) -> bool {
        self.reported.len() >= self.total_len
    }

    /// The blocks that the worker holds: those reported and not deleted, with
    /// the changes since applied.
    pub open spec fn inventory(self) -> Set<i64> {
        Set::new(
            |id: i64|
                if self.incremental.contains_key(id) {
                    self.incremental[id]
                } else {
                    self.reported.contains(id) && !self.deleted.contains(id)
                },
        )
    }
}

/// An inventory that is complete and waits to be reconciled.
pub struct FullBlockReconcileJob {
    pub generation: u64,
    pub reported_blocks: BlockIds,
    pub worker_session_id: String,
    /// Whether blocks that lose a replica are to be replicated again.
    pub replicate: bool,
}

#[verifier::ext_equal]
pub struct JobView {
    pub generation: u64,
    pub reported: Set<i64>,
    pub session: Seq<char>,
    pub replicate: bool,
}

impl View for FullBlockReconcileJob {
    type V = JobView;

    open spec fn view(&self) -> JobView {
        JobView {
            generation: self.generation,
            reported: self.reported_blocks@,
            session: self.worker_session_id@,
            replicate: self.replicate,
        }
    }
}

/// The view of a job that may be absent.
pub open spec fn job_of(j: Option<FullBlockReconcileJob>) -> Option<JobView> {
    match j {
        Some(v) => Some(v@),
        None => None,
    }
}

/// The reconciliation of one worker.
pub struct FullBlockReconcileState {
    pub running: bool,
    pub retry_at_ms: u64,
    pub generation: u64,
    pub pending: Option<FullBlockReconcileJob>,
}

#[verifier::ext_equal]
pub struct ReconcileView {
    pub running: bool,
    pub retry_at_ms: u64,
    pub generation: u64,
    pub pending: Option<JobView>,
}

impl View for FullBlockReconcileState {
    type V = ReconcileView;

    open spec fn view(&self) -> ReconcileView {
        ReconcileView {
            running: self.running,
            retry_at_ms: self.retry_at_ms,
            generation: self.generation,
            pending: job_of(self.pending),
        }
    }
}

/// The generation after `g`; the last one repeats.
pub open spec fn next_generation(g: u64) -> u64 {
    if g == u64::MAX {
        u64::MAX
    } else {
        (g + 1) as u64
    }
}

impl FilesystemView {
    /// The unfinished inventories that are recent enough at `now_ms`.
    pub open spec fn recent_reports(self, now_ms: u64) -> Map<u32, ReportView> {
        self.reports.remove_keys(
            Set::new(
                |k: u32|
                    self.reports.contains_key(k) && now_ms - self.reports[k].update_time_ms
                        > FULL_BLOCK_REPORT_TTL_MS,
            ),
        )
    }

    /// The inventory that a chunk belongs to. One of another length, or one
    /// that was left too long, starts anew.
    pub open spec fn inventory_with_chunk(
        self,
        worker_id: u32,
        total_len: u64,
        blocks: Seq<BlockReportInfo>,
        now_ms: u64,
    ) -> ReportView {
        let recent = self.recent_reports(now_ms);
        let base = if recent.contains_key(worker_id) && recent[worker_id].total_len == total_len {
            recent[worker_id]
        } else {
            ReportView::fresh(total_len, now_ms)
        };
        base.with_chunk(blocks, now_ms)
    }

    /// The state after a chunk of an inventory has arrived.
    pub open spec fn collect(
        self,
        worker_id: u32,
        total_len: u64,
        blocks: Seq<BlockReportInfo>,
        now_ms: u64,
    ) -> FilesystemView {
        let report = self.inventory_with_chunk(worker_id, total_len, blocks, now_ms);
        FilesystemView {
            reports: if report.is_complete() {
                self.recent_reports(now_ms).remove(worker_id)
            } else {
                self.recent_reports(now_ms).insert(worker_id, report)
            },
            ..self
        }
    }

    /// Changes of a worker's blocks reach its unfinished inventory and the
    /// inventory that waits for reconciliation.
    pub open spec fn merge_incremental(
        self,
        worker_id: u32,
        blocks: Seq<BlockReportInfo>,
        now_ms: u64,
    ) -> FilesystemView {
        FilesystemView {
            reports: if self.reports.contains_key(worker_id) {
                self.reports.insert(
                    worker_id,
                    ReportView {
                        update_time_ms: now_ms,
                        incremental: flagged(self.reports[worker_id].incremental, blocks),
                        ..self.reports[worker_id]
                    },
                )
            } else {
                self.reports
            },
            reconciles: if self.reconciles.contains_key(worker_id)
                && self.reconciles[worker_id].pending is Some {
                let job = self.reconciles[worker_id].pending->0;
                self.reconciles.insert(
                    worker_id,
                    ReconcileView {
                        pending: Some(JobView { reported: patched(job.reported, blocks), ..job }),
                        ..self.reconciles[worker_id]
                    },
                )
            } else {
                self.reconciles
            },
            ..self
        }
    }

    /// A queued inventory is dropped, and one that is being reconciled becomes
    /// outdated.
    pub open spec fn invalidate_reconcile(self, worker_id: u32) -> FilesystemView {
        FilesystemView {
            reconciles: if !self.reconciles.contains_key(worker_id) {
                self.reconciles
            } else if self.reconciles[worker_id].running {
                self.reconciles.insert(
                    worker_id,
                    ReconcileView {
                        generation: next_generation(self.reconciles[worker_id].generation),
                        pending: None,
                        ..self.reconciles[worker_id]
                    },
                )
            } else {
                self.reconciles.remove(worker_id)
            },
            ..self
        }
    }

    /// Everything reported so far is forgotten.
    pub open spec fn reset_report(self, worker_id: u32) -> FilesystemView {
        (FilesystemView { reports: self.reports.remove(worker_id), ..self }).invalidate_reconcile(
            worker_id,
        )
    }

    /// The reconciliation state of a worker, idle where there is none.
    pub open spec fn reconcile_of(self, worker_id: u32) -> ReconcileView {
        if self.reconciles.contains_key(worker_id) {
            self.reconciles[worker_id]
        } else {
            ReconcileView { running: false, retry_at_ms: 0, generation: 0, pending: None }
        }
    }

    /// A complete inventory is queued under a new generation, in place of any
    /// inventory that still waits.
    pub open spec fn submit(
        self,
        worker_id: u32,
        session: Seq<char>,
        reported: Set<i64>,
        replicate: bool,
    ) -> FilesystemView {
        let generation = next_generation(self.reconcile_of(worker_id).generation);
        FilesystemView {
            reconciles: self.reconciles.insert(
                worker_id,
                ReconcileView {
                    running: true,
                    retry_at_ms: 0,
                    generation,
                    pending: Some(JobView { generation, reported, session, replicate }),
                },
            ),
            ..self
        }
    }

    /// The job is for the newest inventory of the worker.
    pub open spec fn is_current(self, worker_id: u32, generation: u64) -> bool {
        self.reconciles.contains_key(worker_id) && self.reconciles[worker_id].generation
            == generation
    }

    /// The next check after `now_ms`.
    pub open spec fn retry_at(self, now_ms: u64) -> u64 {
        let wait = if self.conf.worker_check_interval_ms == 0 {
            1
        } else {
            self.conf.worker_check_interval_ms as int
        };
        if now_ms + wait > u64::MAX {
            u64::MAX
        } else {
            (now_ms + wait) as u64
        }
    }
}

fn insert_ids(ids: &mut BlockIds, blocks: &Vec<BlockReportInfo>)
    ensures
        final(ids)@ == old(ids)@.union(reported_ids(blocks@)),
{
    let mut i: usize = 0;
    while i < blocks.len()
        invariant
            i <= blocks.len(),
            forall|id: i64| #[trigger]
                ids@.contains(id) == (old(ids)@.contains(id) || exists|j: int|
                    0 <= j < i && (#[trigger] blocks@[j]).id == id),
        decreases blocks.len() - i,
    {
        let ghost before = ids@;
        ids.insert(blocks[i].id);
        assert forall|id: i64| #[trigger]
            ids@.contains(id) == (old(ids)@.contains(id) || exists|j: int|
                0 <= j < i + 1 && (#[trigger] blocks@[j]).id == id) by {
            assert(before.contains(id) == (old(ids)@.contains(id) || exists|j: int|
                0 <= j < i && (#[trigger] blocks@[j]).id == id));
            assert(blocks@[i as int].id == blocks@[i as int].id);
        }
        i += 1;
    }
    assert(ids@ =~= old(ids)@.union(reported_ids(blocks@)));
}

fn insert_deleted(ids: &mut BlockIds, blocks: &Vec<BlockReportInfo>)
    ensures
        final(ids)@ == old(ids)@.union(deleted_ids(blocks@)),
{
    let mut i: usize = 0;
    while i < blocks.len()
        invariant
            i <= blocks.len(),
            forall|id: i64| #[trigger]
                ids@.contains(id) == (old(ids)@.contains(id) || exists|j: int|
                    0 <= j < i && (#[trigger] blocks@[j]).id == id && blocks@[j].status
                        == BlockReportStatus::Deleted),
        decreases blocks.len() - i,
    {
        let ghost before = ids@;
        if blocks[i].status == BlockReportStatus::Deleted {
            ids.insert(blocks[i].id);
        }
        assert forall|id: i64| #[trigger]
            ids@.contains(id) == (old(ids)@.contains(id) || exists|j: int|
                0 <= j < i + 1 && (#[trigger] blocks@[j]).id == id && blocks@[j].status
                    == BlockReportStatus::Deleted) by {
            assert(before.contains(id) == (old(ids)@.contains(id) || exists|j: int|
                0 <= j < i && (#[trigger] blocks@[j]).id == id && blocks@[j].status
                    == BlockReportStatus::Deleted));
            assert(blocks@[i as int].id == blocks@[i as int].id);
        }
        i += 1;
    }
    assert(ids@ =~= old(ids)@.union(deleted_ids(blocks@)));
}

impl MasterFilesystem {
    /// Adds a chunk to the worker's inventory, and hands the inventory out
    /// once it is complete.
    pub fn collect_full_block_report(
        &mut self,
        worker_id: u32,
        full_report: bool,
        total_len: u64,
        blocks: &Vec<BlockReportInfo>,
        now_ms: u64,
    ) -> (r: Option<BlockIds>)
        ensures
            !full_report ==> r is None && final(self)@ == old(self)@,
            full_report ==> {
                let report = old(self)@.inventory_with_chunk(worker_id, total_len, blocks@, now_ms);
                &&& final(self)@ == old(self)@.collect(worker_id, total_len, blocks@, now_ms)
                &&& r is Some == report.is_complete()
                &&& r matches Some(ids) ==> ids@ == report.inventory()
            },
    {
        if !full_report {
            return None;
        }
        self.drop_outdated_reports(now_ms);
        assert(self@ == (FilesystemView {
            reports: old(self)@.recent_reports(now_ms),
            ..old(self)@
        }));
        let known: Option<FullBlockReportState> = self.full_block_reports.remove(worker_id);
        let mut report: FullBlockReportState = match known {
            Some(report) => {
                if report.total_len == total_len {
                    report
                } else {
                    FullBlockReportState {
                        total_len,
                        update_time_ms: now_ms,
                        reported_blocks: BlockIds::new(),
                        deleted_blocks: BlockIds::new(),
                        incremental_updates: BlockFlags::new(),
                    }
                }
            },
            None => FullBlockReportState {
                total_len,
                update_time_ms: now_ms,
                reported_blocks: BlockIds::new(),
                deleted_blocks: BlockIds::new(),
                incremental_updates: BlockFlags::new(),
            },
        };
        report.update_time_ms = now_ms;
        insert_ids(&mut report.reported_blocks, blocks);
        insert_deleted(&mut report.deleted_blocks, blocks);
        let ghost whole = old(self)@.inventory_with_chunk(worker_id, total_len, blocks@, now_ms);
        assert(report@ =~= whole);
        // Changes since the inventory began must not count toward its length.
        if report.reported_blocks.len() as u64 >= report.total_len {
            let mut ids: BlockIds = report.reported_blocks;
            let deleted: Vec<i64> = report.deleted_blocks.to_vec();
            let mut i: usize = 0;
            while i < deleted.len()
                invariant
                    i <= deleted.len(),
                    forall|id: i64| #[trigger]
                        ids@.contains(id) == (report@.reported.contains(id) && !deleted@.take(
                            i as int,
                        ).contains(id)),
                decreases deleted.len() - i,
            {
                let ghost before = ids@;
                ids.remove(deleted[i]);
                proof {
                    let t0 = deleted@.take(i as int);
                    let t1 = deleted@.take(i + 1);
                    assert forall|id: i64| #[trigger]
                        ids@.contains(id) == (report@.reported.contains(id) && !t1.contains(id)) by {
                        assert(before.contains(id) == (report@.reported.contains(id)
                            && !t0.contains(id)));
                        assert(t1[i as int] == deleted@[i as int]);
                        if t0.contains(id) {
                            let j = choose|j: int| 0 <= j < t0.len() && t0[j] == id;
                            assert(t1[j] == id);
                        }
                        if t1.contains(id) && id != deleted@[i as int] {
                            let j = choose|j: int| 0 <= j < t1.len() && t1[j] == id;
                            assert(t0[j] == id);
                        }
                    }
                }
                i += 1;
            }
            proof {
                assert(deleted@.take(deleted@.len() as int) =~= deleted@);
                assert forall|id: i64| deleted@.contains(id) == report@.deleted.contains(id) by {
                    assert(deleted@.to_set().contains(id) == report@.deleted.contains(id));
                }
            }
            report.incremental_updates.patch(&mut ids);
            assert(ids@ =~= whole.inventory());
            assert(self@ =~= old(self)@.collect(worker_id, total_len, blocks@, now_ms));
            Some(ids)
        } else {
            self.full_block_reports.insert(worker_id, report);
            assert(self@.reports =~= old(self)@.collect(
                worker_id,
                total_len,
                blocks@,
                now_ms,
            ).reports);
            None
        }
    }

    fn drop_outdated_reports(&mut self, now_ms: u64)
        ensures
            final(self)@ == (FilesystemView {
                reports: old(self)@.recent_reports(now_ms),
                ..old(self)@
            }),
    {
        let ids: Vec<u32> = self.full_block_reports.ids();
        let mut i: usize = 0;
        while i < ids.len()
            invariant
                i <= ids.len(),
                ids@.to_set() == old(self)@.reports.dom(),
                self@ == (FilesystemView { reports: self@.reports, ..old(self)@ }),
                forall|k: u32| #[trigger]
                    self@.reports.contains_key(k) <==> old(self)@.reports.contains_key(k) && (
                    old(self)@.recent_reports(now_ms).contains_key(k) || !ids@.take(
                        i as int,
                    ).contains(k)),
                forall|k: u32| #[trigger]
                    self@.reports.contains_key(k) ==> self@.reports[k] == old(self)@.reports[k],
            decreases ids.len() - i,
        {
            let id: u32 = ids[i];
            let ghost before = self@.reports;
            let outdated: bool = match self.full_block_reports.get(id) {
                Some(report) => now_ms.saturating_sub(report.update_time_ms)
                    > FULL_BLOCK_REPORT_TTL_MS,
                None => false,
            };
            if outdated {
                self.full_block_reports.remove(id);
            }
            proof {
                let t0 = ids@.take(i as int);
                let t1 = ids@.take(i + 1);
                assert forall|k: u32| t1.contains(k) == (t0.contains(k) || k == id) by {
                    assert(t1[i as int] == id);
                    if t0.contains(k) {
                        let j = choose|j: int| 0 <= j < t0.len() && t0[j] == k;
                        assert(t1[j] == k);
                    }
                    if t1.contains(k) && k != id {
                        let j = choose|j: int| 0 <= j < t1.len() && t1[j] == k;
                        assert(t0[j] == k);
                    }
                }
            }
            i += 1;
        }
        proof {
            assert(ids@.take(ids@.len() as int) =~= ids@);
            assert forall|k: u32| #[trigger] old(self)@.reports.contains_key(k) implies ids@.contains(
                k,
            ) by {
                assert(ids@.to_set().contains(k));
            }
            assert(self@.reports =~= old(self)@.recent_reports(now_ms));
        }
    }

    /// Brings changes of a worker's blocks into its unfinished inventory and
    /// into the inventory that waits for reconciliation.
    pub fn merge_incremental_block_report(
        &mut self,
        worker_id: u32,
        blocks: &Vec<BlockReportInfo>,
        now_ms: u64,
    )
        ensures
            final(self)@ == old(self)@.merge_incremental(worker_id, blocks@, now_ms),
    {
        if let Some(mut report) = self.full_block_reports.remove(worker_id) {
            report.update_time_ms = now_ms;
            let ghost base = report.incremental_updates@;
            let mut i: usize = 0;
            while i < blocks.len()
                invariant
                    i <= blocks.len(),
                    report.incremental_updates@ == flagged(base, blocks@.take(i as int)),
                    report@ == (ReportView { incremental: report@.incremental, ..report@ }),
                    report.total_len == old(self)@.reports[worker_id].total_len,
                    report.update_time_ms == now_ms,
                    report.reported_blocks@ == old(self)@.reports[worker_id].reported,
                    report.deleted_blocks@ == old(self)@.reports[worker_id].deleted,
                decreases blocks.len() - i,
            {
                assert(blocks@.take(i + 1).drop_last() =~= blocks@.take(i as int));
                report.incremental_updates.insert(
                    blocks[i].id,
                    blocks[i].status != BlockReportStatus::Deleted,
                );
                i += 1;
            }
            assert(blocks@.take(blocks@.len() as int) =~= blocks@);
            self.full_block_reports.insert(worker_id, report);
        }
        assert(self@.reports =~= old(self)@.merge_incremental(worker_id, blocks@, now_ms).reports);
        assert(self@.reconciles == old(self)@.reconciles);
        if let Some(mut state) = self.full_block_reconciles.remove(worker_id) {
            let ghost was = state@;
            if let Some(mut job) = state.pending.take() {
                let ghost base = job@;
                let mut i: usize = 0;
                while i < blocks.len()
                    invariant
                        i <= blocks.len(),
                        job@ == (JobView {
                            reported: patched(base.reported, blocks@.take(i as int)),
                            ..base
                        }),
                    decreases blocks.len() - i,
                {
                    assert(blocks@.take(i + 1).drop_last() =~= blocks@.take(i as int));
                    if blocks[i].status == BlockReportStatus::Deleted {
                        job.reported_blocks.remove(blocks[i].id);
                    } else {
                        job.reported_blocks.insert(blocks[i].id);
                    }
                    i += 1;
                }
                assert(blocks@.take(blocks@.len() as int) =~= blocks@);
                state.pending = Some(job);
            }
            self.full_block_reconciles.insert(worker_id, state);
        }
        assert(self@.reconciles =~= old(self)@.merge_incremental(
            worker_id,
            blocks@,
            now_ms,
        ).reconciles);
        assert(self@ =~= old(self)@.merge_incremental(worker_id, blocks@, now_ms));
    }

    /// Forgets everything that the worker has reported so far.
    pub fn reset_full_block_report(&mut self, worker_id: u32)
        ensures
            final(self)@ == old(self)@.reset_report(worker_id),
    {
        self.full_block_reports.remove(worker_id);
        self.invalidate_full_block_reconcile(worker_id);
    }

    /// Drops a queued inventory and outdates one that is being reconciled.
    pub fn invalidate_full_block_reconcile(&mut self, worker_id: u32)
        ensures
            final(self)@ == old(self)@.invalidate_reconcile(worker_id),
    {
        if let Some(mut state) = self.full_block_reconciles.remove(worker_id) {
            if state.running {
                state.generation = state.generation.saturating_add(1);
                state.pending = None;
                self.full_block_reconciles.insert(worker_id, state);
            }
        }
        assert(self@ =~= old(self)@.invalidate_reconcile(worker_id));
    }

    /// Queues a complete inventory for reconciliation. The result says whether
    /// a reconciliation has to be started: one that runs takes the job up.
    pub fn submit_full_block_reconcile(
        &mut self,
        worker_id: u32,
        worker_session_id: String,
        reported_blocks: BlockIds,
        replicate: bool,
    ) -> (should_spawn: bool)
        ensures
            final(self)@ == old(self)@.submit(
                worker_id,
                worker_session_id@,
                reported_blocks@,
                replicate,
            ),
            should_spawn == !old(self)@.reconcile_of(worker_id).running,
    {
        let mut state: FullBlockReconcileState = match self.full_block_reconciles.remove(
            worker_id,
        ) {
            Some(state) => state,
            None => FullBlockReconcileState {
                running: false,
                retry_at_ms: 0,
                generation: 0,
                pending: None,
            },
        };
        let should_spawn: bool = !state.running;
        state.generation = state.generation.saturating_add(1);
        state.retry_at_ms = 0;
        state.pending = Some(
            FullBlockReconcileJob {
                generation: state.generation,
                reported_blocks,
                worker_session_id,
                replicate,
            },
        );
        state.running = true;
        self.full_block_reconciles.insert(worker_id, state);
        assert(self@ =~= old(self)@.submit(
            worker_id,
            worker_session_id@,
            reported_blocks@,
            replicate,
        ));
        should_spawn
    }

    /// When a reconciliation that failed now is tried again.
    pub fn full_block_reconcile_retry_at(&self, now_ms: u64) -> (r: u64)
        ensures
            r == self@.retry_at(now_ms),
    {
        let wait: u64 = if self.conf.worker_check_interval_ms == 0 {
            1
        } else {
            self.conf.worker_check_interval_ms
        };
        now_ms.saturating_add(wait)
    }

    /// Whether the generation is the newest of the worker.
    pub fn is_full_block_reconcile_current(&self, worker_id: u32, generation: u64) -> (r: bool)
        ensures
            r == self@.is_current(worker_id, generation),
    {
        match self.full_block_reconciles.get(worker_id) {
            Some(state) => state.generation == generation,
            None => false,
        }
    }
}

/// A block report that is being applied chunk by chunk. The caller writes the
/// locations of each chunk and hands back what became of it.
pub struct BlockReportTask {
    pub worker_id: u32,
    pub worker_session_id: String,
    pub full_report: bool,
    pub total_len: u64,
    pub replicate: bool,
    pub blocks: Vec<BlockReportInfo>,
    /// How many blocks have been applied.
    pub applied: usize,
    /// The blocks that the worker holds and that no file needs any more.
    pub delete_blocks: Vec<i64>,
}

impl BlockReportTask {
    pub open spec fn wf(self) -> bool {
        self.applied <= self.blocks@.len()
    }

    /// The end of the chunk that is applied next.
    pub open spec fn chunk_end(self) -> int {
        if self.applied + BLOCK_REPORT_WRITE_CHUNK < self.blocks@.len() {
            self.applied + BLOCK_REPORT_WRITE_CHUNK
        } else {
            self.blocks@.len() as int
        }
    }

    /// The blocks that are applied next.
    pub open spec fn chunk(self) -> Seq<BlockReportInfo> {
        self.blocks@.subrange(self.applied as int, self.chunk_end())
    }

    /// The next bounded chunk, or nothing once all blocks are applied.
    pub fn next_chunk(&self) -> (r: Option<Vec<BlockReportInfo>>)
        requires
            self.wf(),
        ensures
            match r {
                Some(c) => self.applied < self.blocks@.len() && c@ == self.chunk(),
                None => self.applied == self.blocks@.len(),
            },
    {
        if self.applied == self.blocks.len() {
            return None;
        }
        let end: usize = if self.blocks.len() - self.applied > BLOCK_REPORT_WRITE_CHUNK {
            self.applied + BLOCK_REPORT_WRITE_CHUNK
        } else {
            self.blocks.len()
        };
        let mut chunk: Vec<BlockReportInfo> = Vec::new();
        let mut i: usize = self.applied;
        while i < end
            invariant
                self.applied <= i <= end <= self.blocks.len(),
                chunk@ == self.blocks@.subrange(self.applied as int, i as int),
            decreases end - i,
        {
            chunk.push(self.blocks[i]);
            i += 1;
            assert(chunk@ =~= self.blocks@.subrange(self.applied as int, i as int));
        }
        Some(chunk)
    }
}

/// The changes of the location index that a chunk of reported blocks makes.
pub struct ReportedChanges {
    /// Locations to add (`true`) or to remove, to be applied in order.
    pub edits: Vec<(bool, i64, BlockLocation)>,
    /// Blocks that no file holds: the worker is to delete them.
    pub obsolete: Vec<i64>,
}

/// What stands at the inode that a reported block was made for.
#[derive(Clone, Copy, Debug, PartialEq, Eq, Structural)]
pub enum BlockOwner {
    /// Nobody looked: a deleted block is gone whoever owned it.
    Unread,
    Missing,
    NotFile,
    /// A file, and whether it holds the block now.
    File { holds: bool },
}

impl BlockOwner {
    pub open spec fn holds_block(self) -> bool {
        self == (BlockOwner::File { holds: true })
    }
}

/// For each owner, whether it holds the block.
pub open spec fn held_by(owners: Seq<BlockOwner>) -> Seq<bool> {
    owners.map_values(|o: BlockOwner| o.holds_block())
}

impl BlockReportInfo {
    /// Whether the owner of the block has to be read.
    pub fn needs_owner(&self) -> (r: bool)
        ensures
            r == (self.status != BlockReportStatus::Deleted),
    {
        self.status != BlockReportStatus::Deleted
    }
}

/// What a reported block means for the index.
pub enum ReportedMeaning {
    /// The worker holds a replica.
    Present,
    /// The worker holds no replica any more.
    Gone,
    /// The worker holds a replica that no file needs.
    Obsolete,
    /// Nothing yet: a block that is being written may still be attached to
    /// its file.
    Deferred,
}

/// The meaning of a reported block. A file may attach a block only after the
/// worker begins to write it, so that a mere change is no proof against it;
/// a whole inventory is.
pub open spec fn meaning(info: BlockReportInfo, held: bool, full_report: bool) -> ReportedMeaning {
    if info.status == BlockReportStatus::Deleted {
        ReportedMeaning::Gone
    } else if held {
        ReportedMeaning::Present
    } else if info.status == BlockReportStatus::Writing && !full_report {
        ReportedMeaning::Deferred
    } else {
        ReportedMeaning::Obsolete
    }
}

/// The edits for a chunk of reported blocks.
pub open spec fn location_edits(
    worker_id: u32,
    full_report: bool,
    chunk: Seq<BlockReportInfo>,
    held: Seq<bool>,
) -> Seq<(bool, i64, BlockLocation)>
    decreases chunk.len(),
{
    if chunk.len() == 0 {
        Seq::empty()
    } else {
        let rest = location_edits(worker_id, full_report, chunk.drop_last(), held);
        let info = chunk.last();
        let loc = BlockLocation { worker_id, storage_type: info.storage_type };
        match meaning(info, held[chunk.len() - 1], full_report) {
            ReportedMeaning::Present => rest.push((true, info.id, loc)),
            ReportedMeaning::Deferred => rest,
            _ => rest.push((false, info.id, loc)),
        }
    }
}

/// The blocks of a chunk that no file needs, in order.
pub open spec fn obsolete_blocks(
    full_report: bool,
    chunk: Seq<BlockReportInfo>,
    held: Seq<bool>,
) -> Seq<i64>
    decreases chunk.len(),
{
    if chunk.len() == 0 {
        Seq::empty()
    } else {
        let rest = obsolete_blocks(full_report, chunk.drop_last(), held);
        if meaning(chunk.last(), held[chunk.len() - 1], full_report) is Obsolete {
            rest.push(chunk.last().id)
        } else {
            rest
        }
    }
}

/// The changes that a chunk of reported blocks makes, given what stands at
/// the inode of each block.
pub fn apply_reported_blocks(
    worker_id: u32,
    full_report: bool,
    chunk: &Vec<BlockReportInfo>,
    owners: &Vec<BlockOwner>,
) -> (r: ReportedChanges)
    requires
        chunk@.len() == owners@.len(),
    ensures
        r.edits@ == location_edits(worker_id, full_report, chunk@, held_by(owners@)),
        r.obsolete@ == obsolete_blocks(full_report, chunk@, held_by(owners@)),
{
    let mut edits: Vec<(bool, i64, BlockLocation)> = Vec::new();
    let mut obsolete: Vec<i64> = Vec::new();
    let mut i: usize = 0;
    while i < chunk.len()
        invariant
            i <= chunk.len() == owners.len(),
            edits@ == location_edits(worker_id, full_report, chunk@.take(i as int), held_by(owners@)),
            obsolete@ == obsolete_blocks(full_report, chunk@.take(i as int), held_by(owners@)),
        decreases chunk.len() - i,
    {
        proof {
            crate::ids::take_step(chunk@, i as int);
        }
        assert(held_by(owners@)[i as int] == owners@[i as int].holds_block());
        let info: BlockReportInfo = chunk[i];
        let loc = BlockLocation { worker_id, storage_type: info.storage_type };
        if info.status == BlockReportStatus::Deleted {
            edits.push((false, info.id, loc));
        } else if owners[i] == (BlockOwner::File { holds: true }) {
            edits.push((true, info.id, loc));
        } else if info.status != BlockReportStatus::Writing || full_report {
            edits.push((false, info.id, loc));
            obsolete.push(info.id);
        }
        i += 1;
    }
    assert(chunk@.take(chunk@.len() as int) =~= chunk@);
    ReportedChanges { edits, obsolete }
}

/// What a worker is told in answer to a block report.
pub struct BlockReportResult {
    pub delete_blocks: Vec<i64>,
}

/// The replicas of `ids` on one worker.
pub open spec fn replicas_on(worker_id: u32, ids: Set<i64>) -> Set<(u32, i64)> {
    Set::new(|p: (u32, i64)| p.0 == worker_id && ids.contains(p.1))
}

impl FilesystemView {
    /// A cleanup that already runs, or an empty one.
    pub open spec fn cleanup_of(self, worker_id: u32) -> crate::master_filesystem::CleanupView {
        if self.cleanups.contains_key(worker_id) {
            self.cleanups[worker_id]
        } else {
            crate::master_filesystem::CleanupView {
                affected: Set::empty(),
                invalidation: Set::empty(),
                invalidated: Set::empty(),
            }
        }
    }

    /// The blocks are part of the worker's cleanup.
    pub open spec fn retain_affected(self, worker_id: u32, ids: Set<i64>) -> FilesystemView {
        FilesystemView {
            cleanups: self.cleanups.insert(
                worker_id,
                crate::master_filesystem::CleanupView {
                    affected: self.cleanup_of(worker_id).affected.union(ids),
                    ..self.cleanup_of(worker_id)
                },
            ),
            ..self
        }
    }

    /// An inventory of the worker is being collected or reconciled.
    pub open spec fn is_reconciling(self, worker_id: u32) -> bool {
        self.reports.contains_key(worker_id) || self.reconciles.contains_key(worker_id)
    }

    /// The state when a report begins to be applied: a lost worker has a
    /// cleanup deadline, and blocks that are reported as deleted while an
    /// inventory is under way stay known to the cleanup.
    pub open spec fn begin_report(
        self,
        worker_id: u32,
        full_report: bool,
        blocks: Seq<BlockReportInfo>,
        now_ms: u64,
    ) -> FilesystemView {
        let s = FilesystemView {
            manager: self.manager.ensure_cleanup(worker_id, now_ms),
            ..self
        };
        if full_report || self.is_reconciling(worker_id) {
            s.retain_affected(worker_id, deleted_ids(blocks))
        } else {
            s
        }
    }

    /// The state when the locations of a chunk have been written: confirmed
    /// deletions are forgotten, and obsolete replicas are queued for deletion.
    pub open spec fn apply_chunk(
        self,
        worker_id: u32,
        full_report: bool,
        chunk: Seq<BlockReportInfo>,
        obsolete: Seq<i64>,
        now_ms: u64,
    ) -> FilesystemView {
        let s = if full_report {
            self
        } else {
            self.merge_incremental(worker_id, chunk, now_ms)
        };
        FilesystemView {
            manager: crate::manager_model::ManagerView {
                deletes: s.manager.deletes.difference(
                    replicas_on(worker_id, deleted_ids(chunk)),
                ).union(replicas_on(worker_id, obsolete.to_set())),
                ..s.manager
            },
            ..s
        }
    }

    /// The state when all chunks of a report have been applied.
    pub open spec fn finish_report(
        self,
        worker_id: u32,
        session: Seq<char>,
        full_report: bool,
        total_len: u64,
        blocks: Seq<BlockReportInfo>,
        replicate: bool,
        now_ms: u64,
    ) -> FilesystemView {
        if !full_report {
            self
        } else {
            let report = self.inventory_with_chunk(worker_id, total_len, blocks, now_ms);
            let s = self.collect(worker_id, total_len, blocks, now_ms);
            if report.is_complete() {
                s.submit(worker_id, session, report.inventory(), replicate)
            } else {
                s
            }
        }
    }

    /// Applying the report completes an inventory, and no reconciliation runs
    /// that would take it up.
    pub open spec fn report_starts_reconcile(
        self,
        worker_id: u32,
        full_report: bool,
        total_len: u64,
        blocks: Seq<BlockReportInfo>,
        now_ms: u64,
    ) -> bool {
        full_report && self.inventory_with_chunk(
            worker_id,
            total_len,
            blocks,
            now_ms,
        ).is_complete() && !self.reconcile_of(worker_id).running
    }
}

impl MasterFilesystem {
    /// Begins to apply a block report. A report of another process than the
    /// worker's current one is refused and changes nothing.
    pub fn block_report(&mut self, list: BlockReportList, replicate: bool, now_ms: u64) -> (r:
        Result<BlockReportTask, FsError>)
        ensures
            match r {
                Ok(task) => old(self)@.manager.accepts_report(
                    list.worker_id,
                    list.worker_session_id@,
                ) && final(self)@ == old(self)@.begin_report(
                    list.worker_id,
                    list.full_report,
                    list.blocks@,
                    now_ms,
                ) && task.wf() && task.worker_id == list.worker_id && task.worker_session_id
                    == list.worker_session_id && task.full_report == list.full_report
                    && task.total_len == list.total_len && task.replicate == replicate
                    && task.blocks == list.blocks && task.applied == 0
                    && task.delete_blocks@.len() == 0,
                Err(e) => !old(self)@.manager.accepts_report(
                    list.worker_id,
                    list.worker_session_id@,
                ) && final(self)@ == old(self)@ && e == (FsError::StaleReportSession {
                    worker_id: list.worker_id,
                }),
            },
    {
        if !self.worker_manager.block_report_session_matches(
            list.worker_id,
            list.worker_session_id.as_str(),
        ) {
            return Err(FsError::StaleReportSession { worker_id: list.worker_id });
        }
        self.worker_manager.ensure_report_cleanup(list.worker_id, now_ms);
        let reconciling: bool = list.full_report || self.full_block_reports.contains_key(
            list.worker_id,
        ) || self.full_block_reconciles.contains_key(list.worker_id);
        if reconciling {
            // A deletion can remove a location before the comparison with the
            // full inventory sees it. Keep the id for the cleanup too.
            let mut deleted: BlockIds = BlockIds::new();
            insert_deleted(&mut deleted, &list.blocks);
            assert(deleted@ =~= deleted_ids(list.blocks@));
            self.retain_affected_blocks(list.worker_id, &deleted.to_vec());
        }
        Ok(
            BlockReportTask {
                worker_id: list.worker_id,
                worker_session_id: list.worker_session_id,
                full_report: list.full_report,
                total_len: list.total_len,
                replicate,
                blocks: list.blocks,
                applied: 0,
                delete_blocks: Vec::new(),
            },
        )
    }

    /// Makes the blocks part of the worker's cleanup.
    pub fn retain_affected_blocks(&mut self, worker_id: u32, ids: &Vec<i64>)
        ensures
            final(self)@ == old(self)@.retain_affected(worker_id, ids@.to_set()),
    {
        let mut state: LostWorkerCleanupState = match self.lost_worker_cleanups.remove(worker_id) {
            Some(state) => state,
            None => LostWorkerCleanupState {
                affected_block_ids: BlockIds::new(),
                invalidation_block_ids: BlockIds::new(),
                invalidated_block_ids: BlockIds::new(),
            },
        };
        state.affected_block_ids.extend(ids);
        self.lost_worker_cleanups.insert(worker_id, state);
        assert(self@ =~= old(self)@.retain_affected(worker_id, ids@.to_set()));
    }

    /// Takes in that the locations of the next chunk have been written, with
    /// the blocks of it that turned out to be obsolete. What a later chunk
    /// does cannot undo this.
    pub fn block_report_chunk_applied(
        &mut self,
        task: &mut BlockReportTask,
        obsolete: Vec<i64>,
        now_ms: u64,
    )
        requires
            old(task).wf(),
        ensures
            final(self)@ == old(self)@.apply_chunk(
                old(task).worker_id,
                old(task).full_report,
                old(task).chunk(),
                obsolete@,
                now_ms,
            ),
            *final(task) == (BlockReportTask {
                applied: final(task).applied,
                delete_blocks: final(task).delete_blocks,
                ..*old(task)
            }),
            final(task).wf(),
            final(task).applied == old(task).chunk_end(),
            final(task).delete_blocks@ == old(task).delete_blocks@ + obsolete@,
    {
        let worker_id: u32 = task.worker_id;
        let chunk: Vec<BlockReportInfo> = match task.next_chunk() {
            Some(chunk) => chunk,
            None => Vec::new(),
        };
        assert(chunk@ =~= task.chunk());
        assert(chunk@.len() == task.chunk_end() - task.applied);
        assert(task.applied + chunk@.len() <= task.blocks.len());
        let applied: usize = task.applied + chunk.len();
        if !task.full_report {
            self.merge_incremental_block_report(worker_id, &chunk, now_ms);
        }
        let ghost merged = self@;
        let ghost gone = replicas_on(worker_id, deleted_ids(chunk@));
        let mut i: usize = 0;
        while i < chunk.len()
            invariant
                i <= chunk.len(),
                self@ == (FilesystemView {
                    manager: crate::manager_model::ManagerView {
                        deletes: self@.manager.deletes,
                        ..merged.manager
                    },
                    ..merged
                }),
                forall|p: (u32, i64)| #[trigger]
                    self@.manager.deletes.contains(p) == (merged.manager.deletes.contains(p) && !(
                    p.0 == worker_id && exists|j: int|
                        0 <= j < i && (#[trigger] chunk@[j]).id == p.1 && chunk@[j].status
                            == BlockReportStatus::Deleted)),
            decreases chunk.len() - i,
        {
            let ghost before = self@.manager.deletes;
            if chunk[i].status == BlockReportStatus::Deleted {
                self.worker_manager.deleted_block(worker_id, chunk[i].id);
            }
            assert forall|p: (u32, i64)| #[trigger]
                self@.manager.deletes.contains(p) == (merged.manager.deletes.contains(p) && !(p.0
                    == worker_id && exists|j: int|
                    0 <= j < i + 1 && (#[trigger] chunk@[j]).id == p.1 && chunk@[j].status
                        == BlockReportStatus::Deleted)) by {
                assert(before.contains(p) == (merged.manager.deletes.contains(p) && !(p.0
                    == worker_id && exists|j: int|
                    0 <= j < i && (#[trigger] chunk@[j]).id == p.1 && chunk@[j].status
                        == BlockReportStatus::Deleted)));
                assert(chunk@[i as int].id == chunk@[i as int].id);
            }
            i += 1;
        }
        assert(self@.manager.deletes =~= merged.manager.deletes.difference(gone));
        let ghost kept = self@;
        let mut k: usize = 0;
        while k < obsolete.len()
            invariant
                k <= obsolete.len(),
                self@ == (FilesystemView {
                    manager: crate::manager_model::ManagerView {
                        deletes: self@.manager.deletes,
                        ..kept.manager
                    },
                    ..kept
                }),
                self@.manager.deletes == kept.manager.deletes.union(
                    replicas_on(worker_id, obsolete@.take(k as int).to_set()),
                ),
            decreases obsolete.len() - k,
        {
            let ghost before = self@.manager.deletes;
            self.worker_manager.remove_block(worker_id, obsolete[k]);
            proof {
                let t0 = obsolete@.take(k as int);
                let t1 = obsolete@.take(k + 1);
                assert forall|id: i64| t1.contains(id) == (t0.contains(id) || id
                    == obsolete@[k as int]) by {
                    assert(t1[k as int] == obsolete@[k as int]);
                    if t0.contains(id) {
                        let j = choose|j: int| 0 <= j < t0.len() && t0[j] == id;
                        assert(t1[j] == id);
                    }
                    if t1.contains(id) && id != obsolete@[k as int] {
                        let j = choose|j: int| 0 <= j < t1.len() && t1[j] == id;
                        assert(t0[j] == id);
                    }
                }
                assert(self@.manager.deletes =~= kept.manager.deletes.union(
                    replicas_on(worker_id, t1.to_set()),
                ));
            }
            k += 1;
        }
        assert(obsolete@.take(obsolete@.len() as int) =~= obsolete@);
        assert(self@ =~= old(self)@.apply_chunk(
            task.worker_id,
            task.full_report,
            chunk@,
            obsolete@,
            now_ms,
        ));
        let mut obsolete = obsolete;
        task.applied = applied;
        task.delete_blocks.append(&mut obsolete);
    }

    /// Ends a report whose chunks have all been applied. Progress of a full
    /// inventory is not taken in before: a chunk that is sent again adds
    /// nothing. The result also says whether a reconciliation has to be
    /// started.
    pub fn finish_block_report(&mut self, task: BlockReportTask, now_ms: u64) -> (r: (
        BlockReportResult,
        bool,
    ))
        requires
            task.applied == task.blocks@.len(),
        ensures
            final(self)@ == old(self)@.finish_report(
                task.worker_id,
                task.worker_session_id@,
                task.full_report,
                task.total_len,
                task.blocks@,
                task.replicate,
                now_ms,
            ),
            r.0.delete_blocks == task.delete_blocks,
            r.1 == old(self)@.report_starts_reconcile(
                task.worker_id,
                task.full_report,
                task.total_len,
                task.blocks@,
                now_ms,
            ),
    {
        let mut should_spawn: bool = false;
        let collected: Option<BlockIds> = self.collect_full_block_report(
            task.worker_id,
            task.full_report,
            task.total_len,
            &task.blocks,
            now_ms,
        );
        if let Some(reported_blocks) = collected {
            should_spawn = self.submit_full_block_reconcile(
                task.worker_id,
                task.worker_session_id,
                reported_blocks,
                task.replicate,
            );
        }
        (BlockReportResult { delete_blocks: task.delete_blocks }, should_spawn)
    }
}

} // verus!
