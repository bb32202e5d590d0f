//! What holds of block reports, reconciliations and cleanups across their
//! steps.

use vstd::prelude::*;

use crate::block_report::{BlockOwner, BlockReportInfo, BlockReportStatus, JobView, ReportView};
use crate::master_filesystem::FilesystemView;
use crate::model::BlockLocation;
use crate::worker_laws::ManagerEvent;

verus! {

/// One step of the file system service.
pub enum FsEvent {
    BeginReport { worker_id: u32, full: bool, blocks: Seq<BlockReportInfo>, now_ms: u64 },
    ApplyChunk {
        worker_id: u32,
        full: bool,
        blocks: Seq<BlockReportInfo>,
        obsolete: Seq<i64>,
        now_ms: u64,
    },
    FinishReport {
        worker_id: u32,
        session: Seq<char>,
        full: bool,
        total_len: u64,
        blocks: Seq<BlockReportInfo>,
        replicate: bool,
        now_ms: u64,
    },
    ResetReport { worker_id: u32 },
    SpawnFailed { worker_id: u32, now_ms: u64 },
    Retry { now_ms: u64 },
    TakeJob { worker_id: u32 },
    CompleteJob { worker_id: u32, job: JobView },
    FailJob { worker_id: u32, job: JobView, now_ms: u64 },
    RetainAffected { worker_id: u32, ids: Set<i64> },
    RetainInvalidation { worker_id: u32, ids: Set<i64> },
    ApplyInvalidation {
        worker_id: u32,
        affected: Set<i64>,
        ids: Set<i64>,
        replicas: Set<(u32, i64)>,
    },
    FinishCleanup { worker_id: u32 },
    Manager { event: ManagerEvent },
}

impl FilesystemView {
    /// The state after a step.
    pub open spec fn step(self, e: FsEvent) -> FilesystemView {
        match e {
            FsEvent::BeginReport { worker_id, full, blocks, now_ms } => self.begin_report(
                worker_id,
                full,
                blocks,
                now_ms,
            ),
            FsEvent::ApplyChunk { worker_id, full, blocks, obsolete, now_ms } => self.apply_chunk(
                worker_id,
                full,
                blocks,
                obsolete,
                now_ms,
            ),
            FsEvent::FinishReport {
                worker_id,
                session,
                full,
                total_len,
                blocks,
                replicate,
                now_ms,
            } => self.finish_report(
                worker_id,
                session,
                full,
                total_len,
                blocks,
                replicate,
                now_ms,
            ),
            FsEvent::ResetReport { worker_id } => self.reset_report(worker_id),
            FsEvent::SpawnFailed { worker_id, now_ms } => self.spawn_failed(worker_id, now_ms),
            FsEvent::Retry { now_ms } => self.mark_running(self.reconciles_due(now_ms)),
            FsEvent::TakeJob { worker_id } => self.take_job(worker_id),
            FsEvent::CompleteJob { worker_id, job } => self.complete_job(worker_id, job),
            FsEvent::FailJob { worker_id, job, now_ms } => self.fail_job(worker_id, job, now_ms),
            FsEvent::RetainAffected { worker_id, ids } => self.retain_affected(worker_id, ids),
            FsEvent::RetainInvalidation { worker_id, ids } => self.retain_invalidation(
                worker_id,
                ids,
            ),
            FsEvent::ApplyInvalidation { worker_id, affected, ids, replicas } =>
                self.apply_invalidation(worker_id, affected, ids, replicas),
            FsEvent::FinishCleanup { worker_id } => FilesystemView {
                cleanups: self.cleanups.remove(worker_id),
                ..self
            },
            FsEvent::Manager { event } => FilesystemView {
                manager: self.manager.step(event),
                ..self
            },
        }
    }
}

impl FilesystemView {
    /// The state after a series of steps.
    pub open spec fn run(self, events: Seq<FsEvent>) -> FilesystemView
        decreases events.len(),
    {
        if events.len() == 0 {
            self
        } else {
            self.run(events.drop_last()).step(events.last())
        }
    }

    /// The manager is sound, and an inventory that waits is always the newest
    /// one.
    pub open spec fn sound(self) -> bool {
        &&& self.manager.sound()
        &&& forall|w: u32| #[trigger]
            self.reconciles.contains_key(w) && self.reconciles[w].pending is Some
                ==> self.reconciles[w].pending->0.generation == self.reconciles[w].generation
    }
}

/// Every step keeps a sound service sound.
pub proof fn step_keeps_sound(s: FilesystemView, e: FsEvent)
    requires
        s.sound(),
    ensures
        s.step(e).sound(),
{
    match e {
        FsEvent::Manager { event } => {
            crate::worker_laws::step_keeps_sound(s.manager, event);
        },
        FsEvent::BeginReport { worker_id, now_ms, .. } => {
            crate::worker_laws::step_keeps_sound(
                s.manager,
                ManagerEvent::EnsureCleanup { id: worker_id, now_ms },
            );
        },
        FsEvent::CompleteJob { worker_id, job } => {
            crate::worker_laws::step_keeps_sound(
                s.manager,
                ManagerEvent::CompleteReport { id: worker_id, session: job.session },
            );
        },
        _ => {},
    }
}

/// Every series of steps keeps a sound service sound.
pub proof fn run_keeps_sound(s: FilesystemView, events: Seq<FsEvent>)
    requires
        s.sound(),
    ensures
        s.run(events).sound(),
    decreases events.len(),
{
    if events.len() > 0 {
        run_keeps_sound(s, events.drop_last());
        step_keeps_sound(s.run(events.drop_last()), events.last());
    }
}

/// A report of a worker that is not live leaves a cleanup scheduled: the
/// locations that it adds are bounded in time, also after an earlier cleanup.
pub proof fn late_report_bounds_its_cleanup(
    s: FilesystemView,
    worker_id: u32,
    full: bool,
    blocks: Seq<BlockReportInfo>,
    now_ms: u64,
)
    requires
        s.manager.wf(),
        !s.manager.workers.contains_key(worker_id),
        s.manager.lost.contains_key(worker_id),
    ensures
        ({
            let t = s.begin_report(worker_id, full, blocks, now_ms).manager;
            &&& t.lost == s.manager.lost
            &&& t.is_scheduled(t.lost[worker_id])
        }),
{
}

/// What a cleanup has to deal with is kept through every step until the
/// cleanup succeeds.
pub proof fn cleanup_work_is_retained(s: FilesystemView, e: FsEvent, worker_id: u32)
    requires
        !(e matches FsEvent::FinishCleanup { worker_id: w } && w == worker_id),
    ensures
        s.cleanup_of(worker_id).affected.subset_of(s.step(e).cleanup_of(worker_id).affected),
        s.cleanup_of(worker_id).invalidation.subset_of(
            s.step(e).cleanup_of(worker_id).invalidation,
        ),
        s.cleanup_of(worker_id).invalidated.subset_of(
            s.step(e).cleanup_of(worker_id).invalidated,
        ),
        s.cleanups.contains_key(worker_id) ==> s.step(e).cleanups.contains_key(worker_id),
{
}

/// Only a reconciliation that succeeded lets a recovering process become
/// ready.
pub proof fn readiness_needs_a_reconciliation(s: FilesystemView, e: FsEvent, worker_id: u32)
    requires
        s.manager.wf(),
        s.manager.recovering.contains_key(worker_id),
        !s.manager.recovering[worker_id].report_complete,
        !(e is CompleteJob),
        !(e matches FsEvent::Manager { event: ManagerEvent::CompleteReport { .. } }),
    ensures
        s.step(e).manager.recovering.contains_key(worker_id) ==> !s.step(
            e,
        ).manager.recovering[worker_id].report_complete,
{
}

/// Until all chunks of a full report are applied, neither the inventory nor
/// the queue takes notice of it.
pub proof fn inventory_waits_for_all_chunks(
    s: FilesystemView,
    worker_id: u32,
    blocks: Seq<BlockReportInfo>,
    chunk: Seq<BlockReportInfo>,
    obsolete: Seq<i64>,
    now_ms: u64,
)
    ensures
        s.begin_report(worker_id, true, blocks, now_ms).reports == s.reports,
        s.begin_report(worker_id, true, blocks, now_ms).reconciles == s.reconciles,
        s.apply_chunk(worker_id, true, chunk, obsolete, now_ms).reports == s.reports,
        s.apply_chunk(worker_id, true, chunk, obsolete, now_ms).reconciles == s.reconciles,
{
}

/// Changes since an inventory began do not count toward its length.
pub proof fn changes_do_not_complete_an_inventory(
    s: FilesystemView,
    worker_id: u32,
    blocks: Seq<BlockReportInfo>,
    now_ms: u64,
)
    requires
        s.reports.contains_key(worker_id),
    ensures
        ({
            let t = s.merge_incremental(worker_id, blocks, now_ms);
            &&& t.reports.contains_key(worker_id)
            &&& t.reports[worker_id].is_complete() == s.reports[worker_id].is_complete()
        }),
{
}

/// Changes lead to the same inventory whether they arrive before or after its
/// last chunk.
pub proof fn changes_reach_the_inventory_either_way(
    r: ReportView,
    blocks: Seq<BlockReportInfo>,
)
    ensures
        (ReportView {
            incremental: crate::block_report::flagged(r.incremental, blocks),
            ..r
        }).inventory() == crate::block_report::patched(r.inventory(), blocks),
    decreases blocks.len(),
{
    let merged = ReportView {
        incremental: crate::block_report::flagged(r.incremental, blocks),
        ..r
    };
    if blocks.len() > 0 {
        changes_reach_the_inventory_either_way(r, blocks.drop_last());
        let shorter = ReportView {
            incremental: crate::block_report::flagged(r.incremental, blocks.drop_last()),
            ..r
        };
        let id = blocks.last().id;
        assert forall|x: i64| merged.inventory().contains(x) == crate::block_report::patched(
            r.inventory(),
            blocks,
        ).contains(x) by {
            assert(shorter.inventory().contains(x) == crate::block_report::patched(
                r.inventory(),
                blocks.drop_last(),
            ).contains(x));
        }
    }
    assert(merged.inventory() =~= crate::block_report::patched(r.inventory(), blocks));
}

/// A chunk that is sent again, while its inventory is still collected, adds
/// nothing but a newer time.
pub proof fn resent_chunk_adds_nothing(
    s: FilesystemView,
    worker_id: u32,
    total_len: u64,
    blocks: Seq<BlockReportInfo>,
    now_ms: u64,
    later_ms: u64,
)
    requires
        later_ms - now_ms <= crate::block_report::FULL_BLOCK_REPORT_TTL_MS,
        !s.inventory_with_chunk(worker_id, total_len, blocks, now_ms).is_complete(),
    ensures
        ({
            let once = s.collect(worker_id, total_len, blocks, now_ms);
            let twice = once.collect(worker_id, total_len, blocks, later_ms);
            &&& twice.reports.contains_key(worker_id)
            &&& twice.reports[worker_id] == (ReportView {
                update_time_ms: later_ms,
                ..once.reports[worker_id]
            })
        }),
{
    let once = s.collect(worker_id, total_len, blocks, now_ms);
    let first = once.reports[worker_id];
    let second = once.inventory_with_chunk(worker_id, total_len, blocks, later_ms);
    assert(once.recent_reports(later_ms).contains_key(worker_id));
    assert(second.reported =~= first.reported);
    assert(second.deleted =~= first.deleted);
}

/// The order in which two chunks of an inventory arrive does not matter for
/// what it holds.
pub proof fn chunk_order_does_not_matter(
    r: ReportView,
    a: Seq<BlockReportInfo>,
    b: Seq<BlockReportInfo>,
    now_ms: u64,
)
    ensures
        r.with_chunk(a, now_ms).with_chunk(b, now_ms) == r.with_chunk(b, now_ms).with_chunk(
            a,
            now_ms,
        ),
{
    let x = r.with_chunk(a, now_ms).with_chunk(b, now_ms);
    let y = r.with_chunk(b, now_ms).with_chunk(a, now_ms);
    assert(x.reported =~= y.reported);
    assert(x.deleted =~= y.deleted);
}

/// A new inventory outdates every job that was made before it, as long as
/// generations are left.
pub proof fn submission_outdates_earlier_jobs(
    s: FilesystemView,
    worker_id: u32,
    session: Seq<char>,
    reported: Set<i64>,
    replicate: bool,
    earlier: u64,
)
    requires
        earlier <= s.reconcile_of(worker_id).generation < u64::MAX,
    ensures
        !s.submit(worker_id, session, reported, replicate).is_current(worker_id, earlier),
{
}

/// A reset outdates the job that is being worked on, as long as generations
/// are left.
pub proof fn reset_outdates_the_running_job(s: FilesystemView, worker_id: u32)
    requires
        s.reconcile_of(worker_id).generation < u64::MAX,
    ensures
        !s.reset_report(worker_id).is_current(worker_id, s.reconcile_of(worker_id).generation),
        !s.reset_report(worker_id).reports.contains_key(worker_id),
        s.reset_report(worker_id).reconcile_of(worker_id).pending is None,
{
}

/// A job that failed never takes the place of an inventory that was submitted
/// after it, even where that one has been taken up meanwhile.
pub proof fn failed_job_keeps_newer_inventory(
    s: FilesystemView,
    worker_id: u32,
    job: JobView,
    now_ms: u64,
)
    requires
        s.reconciles.contains_key(worker_id),
        s.reconciles[worker_id].pending is Some || s.reconciles[worker_id].generation
            != job.generation,
    ensures
        s.fail_job(worker_id, job, now_ms).reconciles[worker_id].pending
            == s.reconciles[worker_id].pending,
        s.fail_job(worker_id, job, now_ms).reconciles[worker_id].retry_at_ms
            == s.reconciles[worker_id].retry_at_ms,
{
}

/// A job that failed is due again once its retry time has come.
pub proof fn failed_job_is_retried(
    s: FilesystemView,
    worker_id: u32,
    job: JobView,
    now_ms: u64,
    later_ms: u64,
)
    requires
        s.is_current(worker_id, job.generation),
        s.reconciles[worker_id].pending is None,
        later_ms >= s.retry_at(now_ms),
    ensures
        ({
            let t = s.fail_job(worker_id, job, now_ms);
            &&& t.reconciles[worker_id].pending == Some(job)
            &&& t.reconciles_due(later_ms).contains(worker_id)
        }),
{
}

/// A reconciliation that could not be started is due again once its retry
/// time has come, with the inventory that waits then.
pub proof fn failed_start_is_retried(
    s: FilesystemView,
    worker_id: u32,
    now_ms: u64,
    later_ms: u64,
)
    requires
        s.reconciles.contains_key(worker_id),
        s.reconciles[worker_id].pending is Some,
        later_ms >= s.retry_at(now_ms),
    ensures
        ({
            let t = s.spawn_failed(worker_id, now_ms);
            &&& t.reconciles[worker_id].pending == s.reconciles[worker_id].pending
            &&& t.reconciles_due(later_ms).contains(worker_id)
        }),
{
}

/// No second reconciliation of a worker is started while one runs, neither by
/// a further inventory nor by a retry.
pub proof fn one_reconciliation_per_worker(
    s: FilesystemView,
    worker_id: u32,
    session: Seq<char>,
    reported: Set<i64>,
    replicate: bool,
    now_ms: u64,
)
    ensures
        s.submit(worker_id, session, reported, replicate).reconcile_of(worker_id).running,
        !s.submit(worker_id, session, reported, replicate).reconciles_due(now_ms).contains(
            worker_id,
        ),
        s.mark_running(s.reconciles_due(now_ms)).reconciles_due(now_ms).disjoint(
            s.reconciles_due(now_ms),
        ),
{
}

/// After a reconciliation is complete, a report of mere changes does not
/// begin a cleanup that nothing would finish.
pub proof fn completed_reconcile_leaves_no_cleanup(
    s: FilesystemView,
    worker_id: u32,
    job: JobView,
    blocks: Seq<BlockReportInfo>,
    now_ms: u64,
)
    requires
        s.is_current(worker_id, job.generation),
        !s.reports.contains_key(worker_id),
    ensures
        s.complete_job(worker_id, job).begin_report(worker_id, false, blocks, now_ms).cleanups
            == s.cleanups,
{
}

/// The stale locations are exactly the recorded ones that the inventory does
/// not hold.
pub proof fn stale_locations_are_the_unreported(existing: Seq<i64>, reported: Set<i64>)
    ensures
        forall|id: i64| #[trigger]
            crate::reconcile::not_reported(existing, reported).contains(id) <==> existing.contains(
                id,
            ) && !reported.contains(id),
    decreases existing.len(),
{
    if existing.len() > 0 {
        let n = (existing.len() - 1) as int;
        stale_locations_are_the_unreported(existing.drop_last(), reported);
        crate::ids::take_step(existing, n);
        assert(existing.take(n) =~= existing.drop_last());
        assert(existing.take(n + 1) =~= existing);
        let shorter = crate::reconcile::not_reported(existing.drop_last(), reported);
        crate::ids::push_extends(shorter, existing.last());
        assert forall|id: i64| #[trigger]
            crate::reconcile::not_reported(existing, reported).contains(id) <==> existing.contains(
                id,
            ) && !reported.contains(id) by {
            assert(shorter.push(existing.last()).to_set().contains(id) == shorter.push(
                existing.last(),
            ).contains(id));
            assert(shorter.contains(id) <==> existing.drop_last().contains(id)
                && !reported.contains(id));
        }
    }
}

/// Of the removed blocks exactly those that were not invalidated are to be
/// replicated, and they keep their order.
pub proof fn replication_is_for_surviving_blocks(removed: Seq<i64>, invalidated: Set<i64>)
    requires
        crate::ids::ascending(removed),
    ensures
        crate::ids::ascending(crate::cleanup::without(removed, invalidated)),
        forall|id: i64| #[trigger]
            crate::cleanup::without(removed, invalidated).contains(id) <==> removed.contains(id)
                && !invalidated.contains(id),
    decreases removed.len(),
{
    if removed.len() > 0 {
        let n = (removed.len() - 1) as int;
        let last = removed.last();
        assert(crate::ids::ascending(removed.drop_last()));
        replication_is_for_surviving_blocks(removed.drop_last(), invalidated);
        crate::ids::take_step(removed, n);
        assert(removed.take(n) =~= removed.drop_last());
        assert(removed.take(n + 1) =~= removed);
        let shorter = crate::cleanup::without(removed.drop_last(), invalidated);
        crate::ids::push_extends(shorter, last);
        assert forall|id: i64| #[trigger]
            crate::cleanup::without(removed, invalidated).contains(id) <==> removed.contains(id)
                && !invalidated.contains(id) by {
            assert(shorter.push(last).to_set().contains(id) == shorter.push(last).contains(id));
            assert(shorter.contains(id) <==> removed.drop_last().contains(id)
                && !invalidated.contains(id));
        }
        let whole = crate::cleanup::without(removed, invalidated);
        assert forall|i: int, j: int| 0 <= i < j < whole.len() implies whole[i] < whole[j] by {
            if j == shorter.len() {
                assert(shorter.contains(shorter[i]));
                assert(removed.drop_last().contains(shorter[i]));
                let k = choose|k: int| 0 <= k < n && removed.drop_last()[k] == shorter[i];
                assert(removed[k] < removed[n]);
            }
        }
    }
}

/// When a chunk is invalidated, the worker's copy of each affected block that
/// was discarded is queued for deletion.
pub proof fn discarded_copies_are_deleted(
    s: FilesystemView,
    worker_id: u32,
    affected: Set<i64>,
    invalidated: Set<i64>,
    replicas: Set<(u32, i64)>,
    id: i64,
)
    requires
        affected.contains(id),
        invalidated.contains(id),
    ensures
        s.apply_invalidation(
            worker_id,
            affected,
            invalidated,
            replicas,
        ).manager.deletes.contains((worker_id, id)),
{
}

/// The index after a series of edits, as pairs of worker and block.
pub open spec fn edited(index: Set<(u32, i64)>, edits: Seq<(bool, i64, BlockLocation)>) -> Set<
    (u32, i64),
>
    decreases edits.len(),
{
    if edits.len() == 0 {
        index
    } else {
        let rest = edited(index, edits.drop_last());
        let (add, id, loc) = edits.last();
        if add {
            rest.insert((loc.worker_id, id))
        } else {
            rest.remove((loc.worker_id, id))
        }
    }
}

/// A report adds no location of a block that its file does not hold.
pub proof fn report_adds_only_held_blocks(
    index: Set<(u32, i64)>,
    worker_id: u32,
    full: bool,
    chunk: Seq<BlockReportInfo>,
    held: Seq<bool>,
    id: i64,
)
    requires
        chunk.len() <= held.len(),
        forall|i: int| 0 <= i < chunk.len() && (#[trigger] chunk[i]).id == id ==> !held[i],
    ensures
        edited(
            index,
            crate::block_report::location_edits(worker_id, full, chunk, held),
        ).contains((worker_id, id)) ==> index.contains((worker_id, id)),
    decreases chunk.len(),
{
    if chunk.len() > 0 {
        let shorter = chunk.drop_last();
        assert forall|i: int| 0 <= i < shorter.len() && (#[trigger] shorter[i]).id == id implies
            !held[i] by {
            assert(shorter[i] == chunk[i]);
        }
        report_adds_only_held_blocks(index, worker_id, full, shorter, held, id);
        let n = (chunk.len() - 1) as int;
        assert(chunk.last() == chunk[n]);
        let rest = crate::block_report::location_edits(worker_id, full, shorter, held);
        let all = crate::block_report::location_edits(worker_id, full, chunk, held);
        if all.len() > rest.len() {
            assert(all.drop_last() =~= rest);
        }
    }
}

/// Where a report is cut into chunks does not matter: the edits, the rejected
/// blocks and the findings of two chunks are those of the whole.
pub proof fn chunk_boundaries_do_not_matter(
    worker_id: u32,
    full: bool,
    a: Seq<BlockReportInfo>,
    b: Seq<BlockReportInfo>,
    owners_a: Seq<BlockOwner>,
    owners_b: Seq<BlockOwner>,
    owner: BlockOwner,
)
    requires
        a.len() == owners_a.len(),
        b.len() == owners_b.len(),
    ensures
        ({
            let held_a = crate::block_report::held_by(owners_a);
            let held_b = crate::block_report::held_by(owners_b);
            let held = crate::block_report::held_by(owners_a + owners_b);
            &&& crate::block_report::location_edits(worker_id, full, a + b, held)
                == crate::block_report::location_edits(worker_id, full, a, held_a)
                + crate::block_report::location_edits(worker_id, full, b, held_b)
            &&& crate::block_report::obsolete_blocks(full, a + b, held)
                == crate::block_report::obsolete_blocks(full, a, held_a)
                + crate::block_report::obsolete_blocks(full, b, held_b)
            &&& crate::report_diagnostics::to_delete(full, a + b, owners_a + owners_b, owner)
                == crate::report_diagnostics::to_delete(full, a, owners_a, owner)
                + crate::report_diagnostics::to_delete(full, b, owners_b, owner)
            &&& crate::report_diagnostics::deferred_lines(
                worker_id,
                full,
                a + b,
                owners_a + owners_b,
            ) == crate::report_diagnostics::deferred_lines(worker_id, full, a, owners_a)
                + crate::report_diagnostics::deferred_lines(worker_id, full, b, owners_b)
        }),
    decreases b.len(),
{
    let all = a + b;
    let owners = owners_a + owners_b;
    let held = crate::block_report::held_by(owners);
    if b.len() == 0 {
        assert(all =~= a);
        assert(owners =~= owners_a);
        assert(crate::block_report::location_edits(
            worker_id,
            full,
            b,
            crate::block_report::held_by(owners_b),
        ) =~= Seq::empty());
        assert(crate::block_report::obsolete_blocks(
            full,
            b,
            crate::block_report::held_by(owners_b),
        ) =~= Seq::empty());
        assert(crate::report_diagnostics::deferred_lines(worker_id, full, b, owners_b)
            =~= Seq::empty());
    } else {
        let b0 = b.drop_last();
        let owners_b0 = owners_b.drop_last();
        chunk_boundaries_do_not_matter(worker_id, full, a, b0, owners_a, owners_b0, owner);
        assert(all.drop_last() =~= a + b0);
        assert(owners.drop_last() =~= owners_a + owners_b0);
        assert(all.last() == b.last());
        assert(owners.last() == owners_b.last());
        let n = (all.len() - 1) as int;
        let m = (b.len() - 1) as int;
        assert(held[n] == crate::block_report::held_by(owners_b)[m]);
        let shorter = crate::block_report::held_by(owners.drop_last());
        changes_agree(worker_id, full, all.drop_last(), held, shorter);
        changes_agree(
            worker_id,
            full,
            b0,
            crate::block_report::held_by(owners_b),
            crate::block_report::held_by(owners_b0),
        );
        findings_agree(worker_id, full, all, all.drop_last(), owners.drop_last(), owner);
        findings_agree(worker_id, full, b, b0, owners_b0, owner);
        assert(crate::block_report::location_edits(worker_id, full, all, held)
            =~= crate::block_report::location_edits(
            worker_id,
            full,
            a,
            crate::block_report::held_by(owners_a),
        ) + crate::block_report::location_edits(
            worker_id,
            full,
            b,
            crate::block_report::held_by(owners_b),
        ));
        assert(crate::block_report::obsolete_blocks(full, all, held)
            =~= crate::block_report::obsolete_blocks(
            full,
            a,
            crate::block_report::held_by(owners_a),
        ) + crate::block_report::obsolete_blocks(
            full,
            b,
            crate::block_report::held_by(owners_b),
        ));
        assert(crate::report_diagnostics::deferred_lines(worker_id, full, all, owners)
            =~= crate::report_diagnostics::deferred_lines(worker_id, full, a, owners_a)
            + crate::report_diagnostics::deferred_lines(worker_id, full, b, owners_b));
    }
}

/// Only the owners of the blocks themselves matter for a chunk's changes.
proof fn changes_agree(
    worker_id: u32,
    full: bool,
    chunk: Seq<BlockReportInfo>,
    a: Seq<bool>,
    b: Seq<bool>,
)
    requires
        chunk.len() <= a.len(),
        chunk.len() <= b.len(),
        forall|i: int| 0 <= i < chunk.len() ==> #[trigger] a[i] == b[i],
    ensures
        crate::block_report::location_edits(worker_id, full, chunk, a)
            == crate::block_report::location_edits(worker_id, full, chunk, b),
        crate::block_report::obsolete_blocks(full, chunk, a)
            == crate::block_report::obsolete_blocks(full, chunk, b),
    decreases chunk.len(),
{
    if chunk.len() > 0 {
        changes_agree(worker_id, full, chunk.drop_last(), a, b);
        assert(a[chunk.len() - 1] == b[chunk.len() - 1]);
    }
}

/// Only the blocks whose owners were read matter for the findings.
proof fn findings_agree(
    worker_id: u32,
    full: bool,
    a: Seq<BlockReportInfo>,
    b: Seq<BlockReportInfo>,
    owners: Seq<BlockOwner>,
    owner: BlockOwner,
)
    requires
        owners.len() <= a.len(),
        owners.len() <= b.len(),
        forall|i: int| 0 <= i < owners.len() ==> #[trigger] a[i] == b[i],
    ensures
        crate::report_diagnostics::to_delete(full, a, owners, owner)
            == crate::report_diagnostics::to_delete(full, b, owners, owner),
        crate::report_diagnostics::deferred_lines(worker_id, full, a, owners)
            == crate::report_diagnostics::deferred_lines(worker_id, full, b, owners),
    decreases owners.len(),
{
    if owners.len() > 0 {
        findings_agree(worker_id, full, a, b, owners.drop_last(), owner);
        assert(a[owners.len() - 1] == b[owners.len() - 1]);
    }
}

/// The last word of a report on a held block decides whether the worker is a
/// location of it.
pub proof fn last_word_on_a_held_block_counts(
    index: Set<(u32, i64)>,
    worker_id: u32,
    full: bool,
    chunk: Seq<BlockReportInfo>,
    held: Seq<bool>,
)
    requires
        0 < chunk.len() <= held.len(),
        held[chunk.len() - 1],
    ensures
        edited(
            index,
            crate::block_report::location_edits(worker_id, full, chunk, held),
        ).contains((worker_id, chunk.last().id)) == (chunk.last().status
            != BlockReportStatus::Deleted),
{
    let rest = crate::block_report::location_edits(worker_id, full, chunk.drop_last(), held);
    let all = crate::block_report::location_edits(worker_id, full, chunk, held);
    assert(all.drop_last() =~= rest);
}

/// A block that its file does not hold is rejected by every authoritative
/// report, and its location on the worker goes; a report of a block that is
/// only being written leaves it alone.
pub proof fn unheld_blocks_are_rejected(
    index: Set<(u32, i64)>,
    worker_id: u32,
    full: bool,
    info: BlockReportInfo,
)
    requires
        info.status != BlockReportStatus::Deleted,
    ensures
        ({
            let edits = crate::block_report::location_edits(
                worker_id,
                full,
                seq![info],
                seq![false],
            );
            let rejected = crate::block_report::obsolete_blocks(full, seq![info], seq![false]);
            if full || info.status == BlockReportStatus::Finalized {
                &&& rejected == seq![info.id]
                &&& !edited(index, edits).contains((worker_id, info.id))
            } else {
                &&& rejected == Seq::<i64>::empty()
                &&& edited(index, edits) == index
            }
        }),
{
    let chunk = seq![info];
    let held = seq![false];
    assert(chunk.drop_last() =~= Seq::<BlockReportInfo>::empty());
    let none = crate::block_report::location_edits(worker_id, full, chunk.drop_last(), held);
    let edits = crate::block_report::location_edits(worker_id, full, chunk, held);
    assert(none =~= Seq::<(bool, i64, BlockLocation)>::empty());
    assert(crate::block_report::obsolete_blocks(full, chunk.drop_last(), held) =~= Seq::<
        i64,
    >::empty());
    assert(held[chunk.len() - 1] == false);
    if full || info.status == BlockReportStatus::Finalized {
        assert(edits.drop_last() =~= none);
        assert(crate::block_report::obsolete_blocks(full, chunk, held) =~= seq![info.id]);
    }
}

/// The edits that remove the blocks' locations on the worker.
pub open spec fn removals(worker_id: u32, ids: Seq<i64>) -> Seq<(bool, i64, BlockLocation)> {
    ids.map_values(
        |id: i64|
            (
                false,
                id,
                BlockLocation { worker_id, storage_type: crate::model::StorageType::Disk },
            ),
    )
}

/// Edits that are made batch by batch come to the same as all at once.
pub proof fn edits_add_up(
    index: Set<(u32, i64)>,
    first: Seq<(bool, i64, BlockLocation)>,
    second: Seq<(bool, i64, BlockLocation)>,
)
    ensures
        edited(index, first + second) == edited(edited(index, first), second),
    decreases second.len(),
{
    if second.len() == 0 {
        assert(first + second =~= first);
    } else {
        edits_add_up(index, first, second.drop_last());
        assert((first + second).drop_last() =~= first + second.drop_last());
        assert((first + second).last() == second.last());
    }
}

/// Removals take away exactly the locations that they name.
proof fn removals_remove(index: Set<(u32, i64)>, worker_id: u32, ids: Seq<i64>)
    ensures
        forall|p: (u32, i64)| #[trigger]
            edited(index, removals(worker_id, ids)).contains(p) <==> index.contains(p) && !(p.0
                == worker_id && ids.contains(p.1)),
    decreases ids.len(),
{
    let edits = removals(worker_id, ids);
    if ids.len() > 0 {
        let n = (ids.len() - 1) as int;
        assert(edits.drop_last() =~= removals(worker_id, ids.drop_last()));
        assert(edits.last().1 == ids.last());
        removals_remove(index, worker_id, ids.drop_last());
        crate::ids::take_step(ids, n);
        assert(ids.take(n) =~= ids.drop_last());
        assert(ids.take(n + 1) =~= ids);
        assert forall|p: (u32, i64)| #[trigger] edited(index, edits).contains(p) <==> index.contains(
            p,
        ) && !(p.0 == worker_id && ids.contains(p.1)) by {
            assert(edited(index, removals(worker_id, ids.drop_last())).contains(p)
                <==> index.contains(p) && !(p.0 == worker_id && ids.drop_last().contains(p.1)));
        }
    }
}

/// What the invalidation of one chunk of blocks came to.
pub struct ChunkOutcome {
    /// The blocks of the files that were touched.
    pub prepared: Set<i64>,
    /// The blocks that no file holds any more.
    pub invalidated: Set<i64>,
    /// The replicas to delete.
    pub replicas: Set<(u32, i64)>,
}

/// The blocks that are known to be discarded after the chunks.
pub open spec fn discarded_by(known: Set<i64>, chunks: Seq<ChunkOutcome>) -> Set<i64>
    decreases chunks.len(),
{
    if chunks.len() == 0 {
        known
    } else {
        discarded_by(known, chunks.drop_last()).union(chunks.last().invalidated)
    }
}

impl FilesystemView {
    /// Chunk after chunk is invalidated.
    pub open spec fn invalidate_chunks(
        self,
        worker_id: u32,
        affected: Set<i64>,
        chunks: Seq<ChunkOutcome>,
    ) -> FilesystemView
        decreases chunks.len(),
    {
        if chunks.len() == 0 {
            self
        } else {
            let c = chunks.last();
            self.invalidate_chunks(worker_id, affected, chunks.drop_last()).retain_invalidation(
                worker_id,
                c.prepared,
            ).apply_invalidation(worker_id, affected, c.invalidated, c.replicas)
        }
    }

    /// A job that was taken up is carried through: the stale locations are
    /// cleaned up, and the reconciliation is complete.
    pub open spec fn carry_through(
        self,
        worker_id: u32,
        job: JobView,
        stale: Set<i64>,
        chunks: Seq<ChunkOutcome>,
    ) -> FilesystemView {
        let begun = self.retain_affected(worker_id, stale);
        let s = begun.invalidate_chunks(worker_id, begun.cleanups[worker_id].affected, chunks);
        s.step(FsEvent::FinishCleanup { worker_id }).complete_job(worker_id, job)
    }
}

/// Invalidation touches the worker's cleanup and queued deletions only, and
/// the blocks that it finds discarded stay known.
proof fn chunks_keep_the_rest(
    s: FilesystemView,
    worker_id: u32,
    affected: Set<i64>,
    chunks: Seq<ChunkOutcome>,
)
    requires
        s.cleanups.contains_key(worker_id),
    ensures
        ({
            let t = s.invalidate_chunks(worker_id, affected, chunks);
            &&& t.manager == (crate::manager_model::ManagerView {
                deletes: t.manager.deletes,
                ..s.manager
            })
            &&& t.reconciles == s.reconciles
            &&& t.reports == s.reports
            &&& t.conf == s.conf
            &&& t.cleanups.contains_key(worker_id)
            &&& t.cleanups.remove(worker_id) == s.cleanups.remove(worker_id)
            &&& t.cleanups[worker_id].affected == s.cleanups[worker_id].affected
            &&& t.cleanups[worker_id].invalidated == discarded_by(
                s.cleanups[worker_id].invalidated,
                chunks,
            )
        }),
    decreases chunks.len(),
{
    if chunks.len() > 0 {
        chunks_keep_the_rest(s, worker_id, affected, chunks.drop_last());
        let t = s.invalidate_chunks(worker_id, affected, chunks);
        assert(t.cleanups.remove(worker_id) =~= s.cleanups.remove(worker_id));
    }
}

/// A reconciliation that succeeds, in however many chunks its cleanup goes:
/// the locations left on the worker are those that the inventory confirms, and
/// the locations on other workers are as before; the worker's process has
/// reported all of its blocks; neither a reconciliation nor a cleanup of the
/// worker is left, and those of other workers are as before; and the blocks to
/// replicate are the removed ones that were not discarded, in order.
pub proof fn successful_reconciliation(
    s: FilesystemView,
    worker_id: u32,
    job: JobView,
    index: Set<(u32, i64)>,
    existing: Seq<i64>,
    chunks: Seq<ChunkOutcome>,
)
    requires
        s.reconcile_of(worker_id).pending == Some(job),
        s.may_run(worker_id, job),
        forall|id: i64| #[trigger] existing.contains(id) <==> index.contains((worker_id, id)),
    ensures
        ({
            let stale = crate::reconcile::not_reported(existing, job.reported);
            let left = edited(index, removals(worker_id, stale));
            let t = s.take_job(worker_id).carry_through(worker_id, job, stale.to_set(), chunks);
            let removed = s.cleanup_of(worker_id).affected.union(stale.to_set());
            let discarded = discarded_by(s.cleanup_of(worker_id).invalidated, chunks);
            let replicate = crate::cleanup::without(crate::ids::in_order(removed), discarded);
            &&& forall|id: i64| #[trigger]
                left.contains((worker_id, id)) <==> index.contains((worker_id, id))
                    && job.reported.contains(id)
            &&& forall|p: (u32, i64)| p.0 != worker_id ==> (#[trigger] left.contains(p)
                <==> index.contains(p))
            &&& t.manager.accepts_report(worker_id, job.session)
            &&& s.manager.recovering.contains_key(worker_id) ==> t.manager.recovering.contains_key(
                worker_id,
            ) && t.manager.recovering[worker_id].accepts_report(job.session)
                && t.manager.recovering[worker_id].report_complete
            &&& t.reconciles == s.reconciles.remove(worker_id)
            &&& t.cleanups == s.cleanups.remove(worker_id)
            &&& crate::ids::ascending(replicate)
            &&& forall|id: i64| #[trigger]
                replicate.contains(id) <==> removed.contains(id) && !discarded.contains(id)
        }),
{
    let stale = crate::reconcile::not_reported(existing, job.reported);
    let left = edited(index, removals(worker_id, stale));
    let taken = s.take_job(worker_id);
    let begun = taken.retain_affected(worker_id, stale.to_set());
    let removed = s.cleanup_of(worker_id).affected.union(stale.to_set());
    let discarded = discarded_by(s.cleanup_of(worker_id).invalidated, chunks);
    let listed = crate::ids::in_order(removed);
    stale_locations_are_the_unreported(existing, job.reported);
    removals_remove(index, worker_id, stale);
    assert forall|id: i64| #[trigger] left.contains((worker_id, id)) <==> index.contains(
        (worker_id, id),
    ) && job.reported.contains(id) by {
        assert(existing.contains(id) <==> index.contains((worker_id, id)));
        assert(stale.contains(id) <==> existing.contains(id) && !job.reported.contains(id));
    }
    assert(begun.cleanups[worker_id].affected == removed);
    chunks_keep_the_rest(begun, worker_id, removed, chunks);
    let t = taken.carry_through(worker_id, job, stale.to_set(), chunks);
    assert(t.reconciles =~= s.reconciles.remove(worker_id));
    assert(t.cleanups =~= s.cleanups.remove(worker_id));
    crate::ids::in_order_lists(removed);
    replication_is_for_surviving_blocks(listed, discarded);
    assert forall|id: i64| #[trigger]
        crate::cleanup::without(listed, discarded).contains(id) <==> removed.contains(id)
            && !discarded.contains(id) by {
        assert(listed.to_set().contains(id) == removed.contains(id));
    }
}

} // verus!
