//! What reports, reconciliations and cleanups do to each block of a worker.

use vstd::prelude::*;

use crate::block_report::{
    BlockOwner, BlockReportInfo, BlockReportStatus, BlockReportTask, JobView, ReconcileView,
    ReportView, ReportedMeaning,
};
use crate::cleanup::{InvalidationTask, RemovalTask};
use crate::manager_model::ManagerView;
use crate::master_filesystem::{CleanupView, FilesystemView};
use crate::model::BlockLocation;

verus! {

/// Entry `i` is the last word of the report on block `id`.
pub open spec fn is_last_word(blocks: Seq<BlockReportInfo>, i: int, id: i64) -> bool {
    &&& 0 <= i < blocks.len()
    &&& blocks[i].id == id
    &&& forall|j: int| i < j < blocks.len() ==> (#[trigger] blocks[j]).id != id
}

/// The report says nothing on block `id`.
pub open spec fn is_silent_on(blocks: Seq<BlockReportInfo>, id: i64) -> bool {
    forall|i: int| 0 <= i < blocks.len() ==> (#[trigger] blocks[i]).id != id
}

/// Some entry of the report says that block `id` is deleted.
pub open spec fn tells_deletion(blocks: Seq<BlockReportInfo>, id: i64) -> bool {
    exists|i: int|
        0 <= i < blocks.len() && (#[trigger] blocks[i]).id == id && blocks[i].status
            == BlockReportStatus::Deleted
}

/// A report that is not silent on a block has a last word on it.
pub proof fn there_is_a_last_word(blocks: Seq<BlockReportInfo>, id: i64) -> (i: int)
    requires
        !is_silent_on(blocks, id),
    ensures
        is_last_word(blocks, i, id),
    decreases blocks.len(),
{
    let n = blocks.len() - 1;
    let at = choose|i: int| 0 <= i < blocks.len() && (#[trigger] blocks[i]).id == id;
    if blocks[n].id == id {
        n
    } else {
        let rest = blocks.drop_last();
        assert(rest[at].id == id);
        let i = there_is_a_last_word(rest, id);
        assert forall|j: int| i < j < blocks.len() implies (#[trigger] blocks[j]).id != id by {
            if j < n {
                assert(rest[j].id != id);
            }
        }
        i
    }
}

/// Once a chunk of a worker's report is applied, what the worker says it has
/// deleted is not queued for deletion on it any more, unless the chunk makes
/// it obsolete; what is obsolete is queued for it; every other queued deletion
/// is as it was. Changes reach the inventories of the worker, a chunk of a
/// whole inventory does not.
pub proof fn chunk_settles_its_deletions(
    s: FilesystemView,
    worker_id: u32,
    full_report: bool,
    chunk: Seq<BlockReportInfo>,
    obsolete: Seq<i64>,
    now_ms: u64,
    w: u32,
    id: i64,
)
    ensures
        ({
            let t = s.apply_chunk(worker_id, full_report, chunk, obsolete, now_ms);
            let queued = t.manager.deletes.contains((w, id));
            &&& w == worker_id && obsolete.contains(id) ==> queued
            &&& w == worker_id && tells_deletion(chunk, id) && !obsolete.contains(id) ==> !queued
            &&& w == worker_id && !tells_deletion(chunk, id) && !obsolete.contains(id) ==> queued
                == s.manager.deletes.contains((w, id))
            &&& w != worker_id ==> queued == s.manager.deletes.contains((w, id))
            &&& t.manager == (ManagerView { deletes: t.manager.deletes, ..s.manager })
            &&& t.conf == s.conf
            &&& t.cleanups == s.cleanups
            &&& full_report ==> t.reports == s.reports && t.reconciles == s.reconciles
            &&& !full_report ==> {
                let merged = s.merge_incremental(worker_id, chunk, now_ms);
                t.reports == merged.reports && t.reconciles == merged.reconciles
            }
        }),
{
}

/// Changes reach the inventory of their worker that is still arriving: of each
/// block they speak of, their last word is on record; of any other block,
/// what was. What was reported itself stays.
pub proof fn changes_reach_the_arriving_inventory(
    s: FilesystemView,
    worker_id: u32,
    blocks: Seq<BlockReportInfo>,
    now_ms: u64,
    id: i64,
)
    requires
        s.reports.contains_key(worker_id),
    ensures
        ({
            let t = s.merge_incremental(worker_id, blocks, now_ms);
            let was = s.reports[worker_id];
            let got = t.reports[worker_id];
            &&& t.reports.dom() == s.reports.dom()
            &&& t.reports.remove(worker_id) == s.reports.remove(worker_id)
            &&& got.update_time_ms == now_ms
            &&& got.total_len == was.total_len && got.reported == was.reported && got.deleted
                == was.deleted
            &&& is_silent_on(blocks, id) ==> got.incremental.contains_key(id)
                == was.incremental.contains_key(id) && (was.incremental.contains_key(id)
                ==> got.incremental[id] == was.incremental[id])
            &&& forall|i: int| #[trigger]
                is_last_word(blocks, i, id) ==> got.incremental.contains_key(id)
                    && got.incremental[id] == (blocks[i].status != BlockReportStatus::Deleted)
        }),
{
    let t = s.merge_incremental(worker_id, blocks, now_ms);
    assert(t.reports.remove(worker_id) =~= s.reports.remove(worker_id));
    assert(t.reports.dom() =~= s.reports.dom());
    assert forall|i: int| #[trigger] is_last_word(blocks, i, id) implies t.reports[worker_id].incremental.contains_key(
        id,
    ) && t.reports[worker_id].incremental[id] == (blocks[i].status != BlockReportStatus::Deleted) by {
        last_word_is_flagged(s.reports[worker_id].incremental, blocks, i, id);
    }
    if is_silent_on(blocks, id) {
        silence_keeps_flags(s.reports[worker_id].incremental, blocks, id);
    }
}

/// Changes reach the inventory of their worker that waits for reconciliation:
/// it holds a block if the last word on it is not that it was deleted, and a
/// block that they do not speak of as before.
pub proof fn changes_reach_the_waiting_inventory(
    s: FilesystemView,
    worker_id: u32,
    blocks: Seq<BlockReportInfo>,
    now_ms: u64,
    id: i64,
)
    ensures
        ({
            let t = s.merge_incremental(worker_id, blocks, now_ms);
            let waits = s.reconciles.contains_key(worker_id)
                && s.reconciles[worker_id].pending is Some;
            &&& t == (FilesystemView { reports: t.reports, reconciles: t.reconciles, ..s })
            &&& !s.reports.contains_key(worker_id) ==> t.reports == s.reports
            &&& !waits ==> t.reconciles == s.reconciles
            &&& waits ==> {
                let was = s.reconciles[worker_id].pending->0;
                let got = t.reconciles[worker_id].pending->0;
                &&& t.reconciles.contains_key(worker_id)
                &&& t.reconciles.remove(worker_id) == s.reconciles.remove(worker_id)
                &&& t.reconciles[worker_id] == (ReconcileView {
                    pending: Some(JobView { reported: got.reported, ..was }),
                    ..s.reconciles[worker_id]
                })
                &&& is_silent_on(blocks, id) ==> got.reported.contains(id) == was.reported.contains(
                    id,
                )
                &&& forall|i: int| #[trigger]
                    is_last_word(blocks, i, id) ==> got.reported.contains(id) == (blocks[i].status
                        != BlockReportStatus::Deleted)
            }
        }),
{
    let t = s.merge_incremental(worker_id, blocks, now_ms);
    if s.reconciles.contains_key(worker_id) && s.reconciles[worker_id].pending is Some {
        let was = s.reconciles[worker_id].pending->0;
        assert(t.reconciles.remove(worker_id) =~= s.reconciles.remove(worker_id));
        assert forall|i: int| #[trigger] is_last_word(blocks, i, id) implies crate::block_report::patched(
            was.reported,
            blocks,
        ).contains(id) == (blocks[i].status != BlockReportStatus::Deleted) by {
            last_word_is_patched(was.reported, blocks, i, id);
        }
        if is_silent_on(blocks, id) {
            silence_keeps_patches(was.reported, blocks, id);
        }
    }
}

proof fn last_word_is_flagged(m: Map<i64, bool>, blocks: Seq<BlockReportInfo>, i: int, id: i64)
    requires
        is_last_word(blocks, i, id),
    ensures
        crate::block_report::flagged(m, blocks).contains_key(id),
        crate::block_report::flagged(m, blocks)[id] == (blocks[i].status
            != BlockReportStatus::Deleted),
    decreases blocks.len(),
{
    if i < blocks.len() - 1 {
        let rest = blocks.drop_last();
        assert(blocks[blocks.len() - 1].id != id);
        assert forall|j: int| i < j < rest.len() implies (#[trigger] rest[j]).id != id by {
            assert(blocks[j].id != id);
        }
        last_word_is_flagged(m, rest, i, id);
    }
}

proof fn silence_keeps_flags(m: Map<i64, bool>, blocks: Seq<BlockReportInfo>, id: i64)
    requires
        is_silent_on(blocks, id),
    ensures
        crate::block_report::flagged(m, blocks).contains_key(id) == m.contains_key(id),
        m.contains_key(id) ==> crate::block_report::flagged(m, blocks)[id] == m[id],
    decreases blocks.len(),
{
    if blocks.len() > 0 {
        let rest = blocks.drop_last();
        assert(blocks[blocks.len() - 1].id != id);
        assert forall|j: int| 0 <= j < rest.len() implies (#[trigger] rest[j]).id != id by {
            assert(blocks[j].id != id);
        }
        silence_keeps_flags(m, rest, id);
    }
}

proof fn last_word_is_patched(s: Set<i64>, blocks: Seq<BlockReportInfo>, i: int, id: i64)
    requires
        is_last_word(blocks, i, id),
    ensures
        crate::block_report::patched(s, blocks).contains(id) == (blocks[i].status
            != BlockReportStatus::Deleted),
    decreases blocks.len(),
{
    if i < blocks.len() - 1 {
        let rest = blocks.drop_last();
        assert(blocks[blocks.len() - 1].id != id);
        assert forall|j: int| i < j < rest.len() implies (#[trigger] rest[j]).id != id by {
            assert(blocks[j].id != id);
        }
        last_word_is_patched(s, rest, i, id);
    }
}

proof fn silence_keeps_patches(s: Set<i64>, blocks: Seq<BlockReportInfo>, id: i64)
    requires
        is_silent_on(blocks, id),
    ensures
        crate::block_report::patched(s, blocks).contains(id) == s.contains(id),
    decreases blocks.len(),
{
    if blocks.len() > 0 {
        let rest = blocks.drop_last();
        assert(blocks[blocks.len() - 1].id != id);
        assert forall|j: int| 0 <= j < rest.len() implies (#[trigger] rest[j]).id != id by {
            assert(blocks[j].id != id);
        }
        silence_keeps_patches(s, rest, id);
    }
}

/// A complete inventory holds the blocks that some chunk reported and none
/// reported as deleted; a change that came meanwhile outweighs both.
pub proof fn inventory_weighs_chunks_and_changes(r: ReportView, id: i64)
    ensures
        r.incremental.contains_key(id) ==> r.inventory().contains(id) == r.incremental[id],
        !r.incremental.contains_key(id) ==> (r.inventory().contains(id) <==> r.reported.contains(id)
            && !r.deleted.contains(id)),
        r.is_complete() <==> r.reported.len() >= r.total_len,
{
}

/// The inventory that a chunk can go on with: of the same length, and touched
/// within the last hour.
pub open spec fn goes_on(
    s: FilesystemView,
    worker_id: u32,
    total_len: u64,
    now_ms: u64,
) -> bool {
    s.reports.contains_key(worker_id) && s.reports[worker_id].total_len == total_len && now_ms
        <= s.reports[worker_id].update_time_ms + 3_600_000
}

/// A chunk adds its blocks to those that arrived in chunks before it, or, where
/// there is nothing to go on with, begins a new inventory; what was reported
/// before stays reported, and what was deleted stays deleted.
pub proof fn chunk_adds_to_its_inventory(
    s: FilesystemView,
    worker_id: u32,
    total_len: u64,
    blocks: Seq<BlockReportInfo>,
    now_ms: u64,
    id: i64,
)
    ensures
        ({
            let r = s.inventory_with_chunk(worker_id, total_len, blocks, now_ms);
            let was = s.reports[worker_id];
            let on = goes_on(s, worker_id, total_len, now_ms);
            &&& r.total_len == total_len
            &&& r.update_time_ms == now_ms
            &&& r.reported.contains(id) <==> !is_silent_on(blocks, id) || on
                && was.reported.contains(id)
            &&& r.deleted.contains(id) <==> tells_deletion(blocks, id) || on
                && was.deleted.contains(id)
            &&& on ==> r.incremental == was.incremental
            &&& !on ==> !r.incremental.contains_key(id)
        }),
{
    assert(crate::block_report::reported_ids(blocks).contains(id) <==> !is_silent_on(blocks, id));
}

/// While an inventory arrives it is kept for an hour after its last chunk. A
/// complete one is taken off the record, and submitted as the newest job of
/// its worker; an incomplete one is kept. Nobody else's inventory changes,
/// except that those left for longer are dropped.
pub proof fn finished_chunk_is_kept_or_submitted(
    s: FilesystemView,
    worker_id: u32,
    session: Seq<char>,
    total_len: u64,
    blocks: Seq<BlockReportInfo>,
    replicate: bool,
    now_ms: u64,
    k: u32,
)
    ensures
        ({
            let t = s.finish_report(worker_id, session, true, total_len, blocks, replicate, now_ms);
            let r = s.inventory_with_chunk(worker_id, total_len, blocks, now_ms);
            let done = r.reported.len() >= total_len;
            &&& s.finish_report(worker_id, session, false, total_len, blocks, replicate, now_ms) == s
            &&& t == (FilesystemView { reports: t.reports, reconciles: t.reconciles, ..s })
            &&& t.reports.contains_key(worker_id) == !done
            &&& !done ==> t.reports[worker_id] == r && t.reconciles == s.reconciles
            &&& k != worker_id ==> {
                &&& t.reports.contains_key(k) <==> s.reports.contains_key(k) && now_ms
                    <= s.reports[k].update_time_ms + 3_600_000
                &&& t.reports.contains_key(k) ==> t.reports[k] == s.reports[k]
            }
            &&& done ==> {
                let got = t.reconciles[worker_id];
                let before = if s.reconciles.contains_key(worker_id) {
                    s.reconciles[worker_id].generation
                } else {
                    0
                };
                &&& t.reconciles.contains_key(worker_id)
                &&& t.reconciles.remove(worker_id) == s.reconciles.remove(worker_id)
                &&& got.running && got.retry_at_ms == 0
                &&& before < u64::MAX ==> got.generation == before + 1
                &&& got.pending is Some
                &&& got.pending->0.generation == got.generation
                &&& got.pending->0.session == session
                &&& got.pending->0.replicate == replicate
                &&& got.pending->0.reported == r.inventory()
            }
            &&& s.report_starts_reconcile(worker_id, true, total_len, blocks, now_ms) <==> done
                && !(s.reconciles.contains_key(worker_id) && s.reconciles[worker_id].running)
            &&& !s.report_starts_reconcile(worker_id, false, total_len, blocks, now_ms)
        }),
{
    let t = s.finish_report(worker_id, session, true, total_len, blocks, replicate, now_ms);
    let r = s.inventory_with_chunk(worker_id, total_len, blocks, now_ms);
    if r.is_complete() {
        assert(t.reconciles.remove(worker_id) =~= s.reconciles.remove(worker_id));
    }
}

/// A report of a worker begins by keeping, for the cleanup of that worker, the
/// blocks that it says are deleted, where the report is of the whole inventory
/// or an inventory of the worker is on its way; else it keeps nothing. Other
/// workers' cleanups, and all inventories, stay.
pub proof fn report_begins_with_its_deletions(
    s: FilesystemView,
    worker_id: u32,
    full_report: bool,
    blocks: Seq<BlockReportInfo>,
    now_ms: u64,
    id: i64,
)
    ensures
        ({
            let t = s.begin_report(worker_id, full_report, blocks, now_ms);
            let keeps = full_report || s.reports.contains_key(worker_id)
                || s.reconciles.contains_key(worker_id);
            let was = s.cleanups[worker_id];
            let got = t.cleanups[worker_id];
            &&& t == (FilesystemView { manager: t.manager, cleanups: t.cleanups, ..s })
            &&& t.manager == s.manager.ensure_cleanup(worker_id, now_ms)
            &&& !keeps ==> t.cleanups == s.cleanups
            &&& keeps ==> {
                &&& t.cleanups.contains_key(worker_id)
                &&& t.cleanups.remove(worker_id) == s.cleanups.remove(worker_id)
                &&& got.affected.contains(id) <==> tells_deletion(blocks, id)
                    || s.cleanups.contains_key(worker_id) && was.affected.contains(id)
                &&& got.invalidation.contains(id) <==> s.cleanups.contains_key(worker_id)
                    && was.invalidation.contains(id)
                &&& got.invalidated.contains(id) <==> s.cleanups.contains_key(worker_id)
                    && was.invalidated.contains(id)
            }
        }),
{
    let t = s.begin_report(worker_id, full_report, blocks, now_ms);
    if full_report || s.reports.contains_key(worker_id) || s.reconciles.contains_key(worker_id) {
        assert(t.cleanups.remove(worker_id) =~= s.cleanups.remove(worker_id));
    }
}

/// Where a worker's reports start over, no inventory of it arrives or waits
/// any more, and one that is compared right now is outdated. Other workers are
/// not touched.
pub proof fn reset_forgets_the_inventory(s: FilesystemView, worker_id: u32)
    ensures
        ({
            let t = s.reset_report(worker_id);
            let runs = s.reconciles.contains_key(worker_id) && s.reconciles[worker_id].running;
            &&& t == (FilesystemView { reports: t.reports, reconciles: t.reconciles, ..s })
            &&& t.reports == s.reports.remove(worker_id)
            &&& t.reconciles.remove(worker_id) == s.reconciles.remove(worker_id)
            &&& t.reconciles.contains_key(worker_id) == runs
            &&& runs ==> {
                let was = s.reconciles[worker_id];
                let got = t.reconciles[worker_id];
                &&& got.pending is None
                &&& got.running
                &&& got.retry_at_ms == was.retry_at_ms
                &&& was.generation < u64::MAX ==> got.generation == was.generation + 1
            }
        }),
{
    let t = s.reset_report(worker_id);
    assert(t.reconciles.remove(worker_id) =~= s.reconciles.remove(worker_id));
    assert(t.reports =~= s.reports.remove(worker_id));
    if !(s.reconciles.contains_key(worker_id)) {
        assert(t.reconciles =~= s.reconciles);
    }
}

/// A comparison waits for the next check of the workers: one interval, and at
/// least one millisecond, after now.
pub open spec fn next_check(interval_ms: u64, now_ms: u64) -> int {
    let at = now_ms + if interval_ms < 1 {
        1
    } else {
        interval_ms as int
    };
    if at < u64::MAX {
        at
    } else {
        u64::MAX as int
    }
}

/// A comparison that could not be begun waits for the next check with
/// everything it had; others are not touched.
pub proof fn failed_spawn_waits(s: FilesystemView, worker_id: u32, now_ms: u64)
    ensures
        ({
            let t = s.spawn_failed(worker_id, now_ms);
            if s.reconciles.contains_key(worker_id) {
                let was = s.reconciles[worker_id];
                t == (FilesystemView {
                    reconciles: s.reconciles.insert(
                        worker_id,
                        ReconcileView {
                            running: false,
                            retry_at_ms: next_check(s.conf.worker_check_interval_ms, now_ms) as u64,
                            generation: was.generation,
                            pending: was.pending,
                        },
                    ),
                    ..s
                })
            } else {
                t == s
            }
        }),
{
}

/// A comparison is due when an inventory waits, nobody compares it and its
/// time has come; taking the due ones up marks exactly those.
pub proof fn due_comparisons_are_taken_up(s: FilesystemView, now_ms: u64, k: u32)
    ensures
        s.reconciles_due(now_ms).contains(k) <==> s.reconciles.contains_key(k)
            && !s.reconciles[k].running && s.reconciles[k].pending is Some
            && s.reconciles[k].retry_at_ms <= now_ms,
        ({
            let t = s.mark_running(s.reconciles_due(now_ms));
            &&& t == (FilesystemView { reconciles: t.reconciles, ..s })
            &&& t.reconciles.contains_key(k) == s.reconciles.contains_key(k)
            &&& s.reconciles.contains_key(k) ==> t.reconciles[k] == (ReconcileView {
                running: s.reconciles[k].running || s.reconciles[k].pending is Some
                    && s.reconciles[k].retry_at_ms <= now_ms,
                ..s.reconciles[k]
            })
        }),
{
}

/// Taking a worker's job leaves none waiting; where none waited, the
/// comparison is over. Others are not touched.
pub proof fn taken_job_is_gone(s: FilesystemView, worker_id: u32)
    ensures
        ({
            let t = s.take_job(worker_id);
            let known = s.reconciles.contains_key(worker_id);
            &&& t == (FilesystemView { reconciles: t.reconciles, ..s })
            &&& t.reconciles.remove(worker_id) == s.reconciles.remove(worker_id)
            &&& t.reconciles.contains_key(worker_id) <==> known
                && s.reconciles[worker_id].pending is Some
            &&& known && s.reconciles[worker_id].pending is Some ==> {
                &&& t.reconciles[worker_id].pending is None
                &&& t.reconciles[worker_id].running == s.reconciles[worker_id].running
                &&& t.reconciles[worker_id].generation == s.reconciles[worker_id].generation
                &&& t.reconciles[worker_id].retry_at_ms == s.reconciles[worker_id].retry_at_ms
            }
        }),
{
    let t = s.take_job(worker_id);
    assert(t.reconciles.remove(worker_id) =~= s.reconciles.remove(worker_id));
}

/// A job counts only while no newer inventory of its worker came, and runs
/// only for the process that the manager takes reports from. Its completion
/// ends the comparison and the worker's recovery; an outdated completion
/// changes nothing.
pub proof fn only_the_newest_job_completes(s: FilesystemView, worker_id: u32, job: JobView)
    ensures
        ({
            let newest = s.reconciles.contains_key(worker_id) && s.reconciles[worker_id].generation
                == job.generation;
            let t = s.complete_job(worker_id, job);
            &&& s.may_run(worker_id, job) <==> newest && s.manager.accepts_report(
                worker_id,
                job.session,
            )
            &&& !newest ==> t == s
            &&& newest ==> t == (FilesystemView {
                manager: s.manager.complete_report(worker_id, job.session),
                reconciles: s.reconciles.remove(worker_id),
                ..s
            })
        }),
{
}

/// A job that failed waits again for the next check, unless a newer inventory
/// came, which is left as it waits. Nobody compares afterwards.
pub proof fn failed_job_waits_again(
    s: FilesystemView,
    worker_id: u32,
    job: JobView,
    now_ms: u64,
)
    ensures
        ({
            let t = s.fail_job(worker_id, job, now_ms);
            let was = s.reconciles[worker_id];
            let got = t.reconciles[worker_id];
            &&& !s.reconciles.contains_key(worker_id) ==> t == s
            &&& s.reconciles.contains_key(worker_id) ==> {
                &&& t == (FilesystemView { reconciles: t.reconciles, ..s })
                &&& t.reconciles.contains_key(worker_id)
                &&& t.reconciles.remove(worker_id) == s.reconciles.remove(worker_id)
                &&& !got.running
                &&& got.generation == was.generation
                &&& was.pending is Some || was.generation != job.generation ==> got.pending
                    == was.pending && got.retry_at_ms == was.retry_at_ms
                &&& was.pending is None && was.generation == job.generation ==> got.pending == Some(
                    job,
                ) && got.retry_at_ms == next_check(s.conf.worker_check_interval_ms, now_ms)
            }
        }),
{
    let t = s.fail_job(worker_id, job, now_ms);
    assert(t.reconciles.remove(worker_id) =~= s.reconciles.remove(worker_id));
}

/// A cleanup keeps the blocks that it was given together with those that it
/// had.
pub proof fn cleanup_keeps_what_it_was_given(
    s: FilesystemView,
    worker_id: u32,
    ids: Set<i64>,
    id: i64,
)
    ensures
        ({
            let a = s.retain_affected(worker_id, ids);
            let i = s.retain_invalidation(worker_id, ids);
            let known = s.cleanups.contains_key(worker_id);
            let was = s.cleanups[worker_id];
            &&& a == (FilesystemView { cleanups: a.cleanups, ..s })
            &&& i == (FilesystemView { cleanups: i.cleanups, ..s })
            &&& a.cleanups.contains_key(worker_id) && i.cleanups.contains_key(worker_id)
            &&& a.cleanups.remove(worker_id) == s.cleanups.remove(worker_id)
            &&& i.cleanups.remove(worker_id) == s.cleanups.remove(worker_id)
            &&& a.cleanups[worker_id].affected.contains(id) <==> ids.contains(id) || known
                && was.affected.contains(id)
            &&& a.cleanups[worker_id].invalidation.contains(id) <==> known
                && was.invalidation.contains(id)
            &&& a.cleanups[worker_id].invalidated.contains(id) <==> known
                && was.invalidated.contains(id)
            &&& i.cleanups[worker_id].affected.contains(id) <==> known && was.affected.contains(id)
            &&& i.cleanups[worker_id].invalidation.contains(id) <==> ids.contains(id) || known
                && was.invalidation.contains(id)
            &&& i.cleanups[worker_id].invalidated.contains(id) <==> known
                && was.invalidated.contains(id)
        }),
{
    let a = s.retain_affected(worker_id, ids);
    let i = s.retain_invalidation(worker_id, ids);
    assert(a.cleanups.remove(worker_id) =~= s.cleanups.remove(worker_id));
    assert(i.cleanups.remove(worker_id) =~= s.cleanups.remove(worker_id));
}

/// When cached data is discarded, every replica of it that is known is queued
/// for deletion, and on the lost worker each discarded block that the worker
/// had; nothing is taken off the queue. The discarded blocks are kept.
pub proof fn discarded_blocks_are_queued(
    s: FilesystemView,
    worker_id: u32,
    affected: Set<i64>,
    invalidated: Set<i64>,
    replicas: Set<(u32, i64)>,
    w: u32,
    id: i64,
)
    ensures
        ({
            let t = s.apply_invalidation(worker_id, affected, invalidated, replicas);
            let known = s.cleanups.contains_key(worker_id);
            let was = s.cleanups[worker_id];
            let got = t.cleanups[worker_id];
            &&& t == (FilesystemView { manager: t.manager, cleanups: t.cleanups, ..s })
            &&& t.manager == (ManagerView { deletes: t.manager.deletes, ..s.manager })
            &&& t.manager.deletes.contains((w, id)) <==> {
                ||| s.manager.deletes.contains((w, id))
                ||| replicas.contains((w, id))
                ||| w == worker_id && affected.contains(id) && invalidated.contains(id)
            }
            &&& t.cleanups.contains_key(worker_id)
            &&& t.cleanups.remove(worker_id) == s.cleanups.remove(worker_id)
            &&& got.invalidated.contains(id) <==> invalidated.contains(id) || known
                && was.invalidated.contains(id)
            &&& got.affected.contains(id) <==> known && was.affected.contains(id)
            &&& got.invalidation.contains(id) <==> known && was.invalidation.contains(id)
        }),
{
    let t = s.apply_invalidation(worker_id, affected, invalidated, replicas);
    assert(t.cleanups.remove(worker_id) =~= s.cleanups.remove(worker_id));
}

/// What one entry of a report means: a deleted block is gone whoever holds it,
/// a block that its file holds is present, and any other block is obsolete,
/// unless it is being written and the report is no whole inventory.
pub proof fn entries_mean_what_they_say(info: BlockReportInfo, owner: BlockOwner, full_report: bool)
    ensures
        ({
            let m = crate::block_report::meaning(info, owner.holds_block(), full_report);
            let held = owner matches BlockOwner::File { holds } && holds;
            &&& m is Gone <==> info.status == BlockReportStatus::Deleted
            &&& m is Present <==> info.status != BlockReportStatus::Deleted && held
            &&& m is Deferred <==> info.status == BlockReportStatus::Writing && !held
                && !full_report
            &&& m is Obsolete <==> !held && (info.status == BlockReportStatus::Finalized
                || info.status == BlockReportStatus::Writing && full_report)
        }),
{
}

/// Entry `i` of the chunk is on a block that no file needs.
pub open spec fn is_obsolete_entry(
    full_report: bool,
    chunk: Seq<BlockReportInfo>,
    held: Seq<bool>,
    i: int,
) -> bool {
    !held[i] && (chunk[i].status == BlockReportStatus::Finalized || chunk[i].status
        == BlockReportStatus::Writing && full_report)
}

/// Entry `i` of the chunk changes a recorded location.
pub open spec fn is_telling_entry(
    full_report: bool,
    chunk: Seq<BlockReportInfo>,
    held: Seq<bool>,
    i: int,
) -> bool {
    chunk[i].status != BlockReportStatus::Writing || held[i] || full_report
}

/// The worker is told to delete the obsolete blocks of its chunk, each once
/// for each entry and in the order of the chunk: those of a longer chunk are
/// those of its beginning followed by those of its rest.
pub proof fn obsolete_blocks_follow_the_chunk(
    full_report: bool,
    chunk: Seq<BlockReportInfo>,
    held: Seq<bool>,
)
    requires
        chunk.len() == held.len(),
    ensures
        ({
            let r = crate::block_report::obsolete_blocks(full_report, chunk, held);
            let at = positions(chunk.len(), |i: int| is_obsolete_entry(full_report, chunk, held, i));
            &&& r.len() == at.len()
            &&& forall|k: int| 0 <= k < r.len() ==> #[trigger] r[k] == chunk[at[k]].id
            &&& forall|id: i64| #[trigger]
                r.contains(id) <==> exists|i: int|
                    0 <= i < chunk.len() && (#[trigger] chunk[i]).id == id && is_obsolete_entry(
                        full_report,
                        chunk,
                        held,
                        i,
                    )
        }),
    decreases chunk.len(),
{
    let p = |i: int| is_obsolete_entry(full_report, chunk, held, i);
    positions_are_all(chunk.len(), p);
    obsolete_blocks_by_position(full_report, chunk, held, chunk.len());
    assert(chunk.take(chunk.len() as int) =~= chunk);
    let r = crate::block_report::obsolete_blocks(full_report, chunk, held);
    let at = positions(chunk.len(), p);
    assert forall|id: i64| #[trigger] r.contains(id) <==> exists|i: int|
        0 <= i < chunk.len() && (#[trigger] chunk[i]).id == id && is_obsolete_entry(
            full_report,
            chunk,
            held,
            i,
        ) by {
        if r.contains(id) {
            let k = choose|k: int| 0 <= k < r.len() && r[k] == id;
            assert(p(at[k]));
            assert(chunk[at[k]].id == id);
        }
        if exists|i: int|
            0 <= i < chunk.len() && (#[trigger] chunk[i]).id == id && is_obsolete_entry(
                full_report,
                chunk,
                held,
                i,
            ) {
            let i = choose|i: int|
                0 <= i < chunk.len() && (#[trigger] chunk[i]).id == id && is_obsolete_entry(
                    full_report,
                    chunk,
                    held,
                    i,
                );
            assert(p(i));
            let k = choose|k: int| 0 <= k < at.len() && at[k] == i;
            assert(r[k] == id);
        }
    }
}

/// The places below `n` at which `p` holds, in increasing order.
pub open spec fn positions(n: nat, p: spec_fn(int) -> bool) -> Seq<int>
    decreases n,
{
    if n == 0 {
        Seq::empty()
    } else if p(n - 1) {
        positions((n - 1) as nat, p).push(n - 1)
    } else {
        positions((n - 1) as nat, p)
    }
}

/// The positions are in increasing order and are all those at which `p` holds.
pub proof fn positions_are_all(n: nat, p: spec_fn(int) -> bool)
    ensures
        forall|k: int|
            0 <= k < positions(n, p).len() ==> 0 <= #[trigger] positions(n, p)[k] < n && p(
                positions(n, p)[k],
            ),
        forall|j: int, k: int|
            0 <= j < k < positions(n, p).len() ==> #[trigger] positions(n, p)[j] < #[trigger] positions(
                n,
                p,
            )[k],
        forall|i: int|
            0 <= i < n && #[trigger] p(i) ==> exists|k: int|
                0 <= k < positions(n, p).len() && positions(n, p)[k] == i,
    decreases n,
{
    if n > 0 {
        let rest = positions((n - 1) as nat, p);
        let all = positions(n, p);
        positions_are_all((n - 1) as nat, p);
        assert forall|i: int| 0 <= i < n && #[trigger] p(i) implies exists|k: int|
            0 <= k < all.len() && all[k] == i by {
            if i < n - 1 {
                let k = choose|k: int| 0 <= k < rest.len() && rest[k] == i;
                assert(all[k] == i);
            } else {
                assert(all[all.len() - 1] == i);
            }
        }
    }
}

/// There are no more positions than places.
pub proof fn positions_are_few(n: nat, p: spec_fn(int) -> bool)
    ensures
        positions(n, p).len() <= n,
    decreases n,
{
    if n > 0 {
        positions_are_few((n - 1) as nat, p);
    }
}

/// Positions depend on `p` alone below `n`.
proof fn positions_agree(n: nat, p: spec_fn(int) -> bool, q: spec_fn(int) -> bool)
    requires
        forall|i: int| 0 <= i < n ==> #[trigger] p(i) == q(i),
    ensures
        positions(n, p) == positions(n, q),
    decreases n,
{
    if n > 0 {
        assert(p(n - 1) == q(n - 1));
        positions_agree((n - 1) as nat, p, q);
    }
}

proof fn obsolete_blocks_by_position(
    full_report: bool,
    chunk: Seq<BlockReportInfo>,
    held: Seq<bool>,
    n: nat,
)
    requires
        n <= chunk.len() == held.len(),
    ensures
        ({
            let r = crate::block_report::obsolete_blocks(full_report, chunk.take(n as int), held);
            let at = positions(n, |i: int| is_obsolete_entry(full_report, chunk, held, i));
            &&& r.len() == at.len()
            &&& forall|k: int| 0 <= k < r.len() ==> #[trigger] r[k] == chunk[at[k]].id
        }),
    decreases n,
{
    if n > 0 {
        obsolete_blocks_by_position(full_report, chunk, held, (n - 1) as nat);
        assert(chunk.take(n as int).drop_last() =~= chunk.take(n - 1));
        let p = |i: int| is_obsolete_entry(full_report, chunk, held, i);
        assert(p(n - 1) == is_obsolete_entry(full_report, chunk, held, n - 1));
    }
}

/// Each entry of a chunk that tells something becomes one edit, in the order
/// of the chunk: it concerns the block and the storage of its entry, on the
/// reporting worker, and records the location if the block is held and not
/// deleted; else it takes it off the record.
pub proof fn edits_follow_the_chunk(
    worker_id: u32,
    full_report: bool,
    chunk: Seq<BlockReportInfo>,
    held: Seq<bool>,
)
    requires
        chunk.len() == held.len(),
    ensures
        ({
            let r = crate::block_report::location_edits(worker_id, full_report, chunk, held);
            let at = positions(chunk.len(), |i: int| is_telling_entry(full_report, chunk, held, i));
            &&& r.len() == at.len()
            &&& forall|k: int|
                0 <= k < r.len() ==> {
                    &&& (#[trigger] r[k]).0 == (held[at[k]] && chunk[at[k]].status
                        != BlockReportStatus::Deleted)
                    &&& r[k].1 == chunk[at[k]].id
                    &&& r[k].2.worker_id == worker_id
                    &&& r[k].2.storage_type == chunk[at[k]].storage_type
                }
        }),
{
    location_edits_by_position(worker_id, full_report, chunk, held, chunk.len());
    assert(chunk.take(chunk.len() as int) =~= chunk);
}

proof fn location_edits_by_position(
    worker_id: u32,
    full_report: bool,
    chunk: Seq<BlockReportInfo>,
    held: Seq<bool>,
    n: nat,
)
    requires
        n <= chunk.len() == held.len(),
    ensures
        ({
            let r = crate::block_report::location_edits(
                worker_id,
                full_report,
                chunk.take(n as int),
                held,
            );
            let at = positions(n, |i: int| is_telling_entry(full_report, chunk, held, i));
            &&& r.len() == at.len()
            &&& forall|k: int|
                0 <= k < r.len() ==> {
                    &&& (#[trigger] r[k]).0 == (held[at[k]] && chunk[at[k]].status
                        != BlockReportStatus::Deleted)
                    &&& r[k].1 == chunk[at[k]].id
                    &&& r[k].2.worker_id == worker_id
                    &&& r[k].2.storage_type == chunk[at[k]].storage_type
                }
        }),
    decreases n,
{
    if n > 0 {
        location_edits_by_position(worker_id, full_report, chunk, held, (n - 1) as nat);
        assert(chunk.take(n as int).drop_last() =~= chunk.take(n - 1));
        let p = |i: int| is_telling_entry(full_report, chunk, held, i);
        assert(p(n - 1) == is_telling_entry(full_report, chunk, held, n - 1));
    }
}

/// A block counts as held by its owner exactly where its owner is a file that
/// holds it now.
pub proof fn owners_hold_block_by_block(owners: Seq<BlockOwner>, i: int)
    requires
        0 <= i < owners.len(),
    ensures
        crate::block_report::held_by(owners).len() == owners.len(),
        crate::block_report::held_by(owners)[i] == (owners[i] matches BlockOwner::File { holds }
            && holds),
{
}

/// Of the recorded blocks those are stale that the inventory does not hold; of
/// the lost ones those stay that were not discarded. Both are listed in the
/// order they came in, as often as they came.
pub proof fn stale_blocks_are_picked(ids: Seq<i64>, known: Set<i64>)
    ensures
        crate::reconcile::not_reported(ids, known) == ids.filter(|id: i64| !known.contains(id)),
        crate::cleanup::without(ids, known) == ids.filter(|id: i64| !known.contains(id)),
    decreases ids.len(),
{
    let p = |id: i64| !known.contains(id);
    reveal(Seq::filter);
    if ids.len() > 0 {
        stale_blocks_are_picked(ids.drop_last(), known);
    }
}

/// A file holds a block if some listing of its owner names the block.
pub open spec fn is_named(files: Seq<(i64, Vec<i64>)>, owner: i64, id: i64) -> bool {
    exists|i: int| 0 <= i < files.len() && (#[trigger] files[i]).0 == owner && files[i].1@.contains(id)
}

/// Of the blocks that may lose their data, those are picked whose own inode
/// does not hold them any more, in the order they came in.
pub proof fn unheld_blocks_are_picked(
    ids: Seq<i64>,
    owners: Seq<i64>,
    files: Seq<(i64, Vec<i64>)>,
)
    requires
        ids.len() == owners.len(),
    ensures
        ({
            let r = crate::cleanup::not_held(ids, owners, files);
            let at = positions(ids.len(), |i: int| !is_named(files, owners[i], ids[i]));
            &&& r.len() == at.len()
            &&& forall|k: int| 0 <= k < r.len() ==> #[trigger] r[k] == ids[at[k]]
        }),
{
    unheld_blocks_by_position(ids, owners, files, ids.len());
    assert(ids.take(ids.len() as int) =~= ids);
}

proof fn unheld_blocks_by_position(
    ids: Seq<i64>,
    owners: Seq<i64>,
    files: Seq<(i64, Vec<i64>)>,
    n: nat,
)
    requires
        n <= ids.len() == owners.len(),
    ensures
        ({
            let r = crate::cleanup::not_held(ids.take(n as int), owners, files);
            let at = positions(n, |i: int| !is_named(files, owners[i], ids[i]));
            &&& r.len() == at.len()
            &&& forall|k: int| 0 <= k < r.len() ==> #[trigger] r[k] == ids[at[k]]
        }),
    decreases n,
{
    if n > 0 {
        unheld_blocks_by_position(ids, owners, files, (n - 1) as nat);
        assert(ids.take(n as int).drop_last() =~= ids.take(n - 1));
        let p = |i: int| !is_named(files, owners[i], ids[i]);
        let owner = owners[n - 1];
        let id = ids[n - 1];
        assert(p(n - 1) == !is_named(files, owner, id));
        if crate::cleanup::is_held(files, owner, id) {
            let (i, j) = choose|i: int, j: int|
                0 <= i < files.len() && files[i].0 == owner && 0 <= j < files[i].1@.len()
                    && #[trigger] files[i].1@[j] == id;
            assert(files[i].1@.contains(id));
        }
        if is_named(files, owner, id) {
            let i = choose|i: int|
                0 <= i < files.len() && (#[trigger] files[i]).0 == owner && files[i].1@.contains(id);
            let j = choose|j: int| 0 <= j < files[i].1@.len() && files[i].1@[j] == id;
            assert(files[i].1@[j] == id);
        }
    }
}

/// Work on many blocks goes forward in steps of at most 4096: each step ends
/// behind the last one, none goes past the end, and one that is shorter than
/// that is the last.
pub proof fn steps_go_forward(report: BlockReportTask, removal: RemovalTask, inv: InvalidationTask)
    requires
        report.applied <= report.blocks@.len(),
        removal.removed <= removal.block_ids@.len(),
        inv.inspected <= inv.block_ids@.len(),
    ensures
        report.applied <= report.chunk_end() <= report.blocks@.len(),
        report.chunk_end() - report.applied <= 4096,
        report.chunk_end() - report.applied < 4096 ==> report.chunk_end() == report.blocks@.len(),
        report.chunk().len() == report.chunk_end() - report.applied,
        forall|i: int|
            0 <= i < report.chunk().len() ==> #[trigger] report.chunk()[i] == report.blocks@[i
                + report.applied],
        removal.removed <= removal.chunk_end() <= removal.block_ids@.len(),
        removal.chunk_end() - removal.removed <= 4096,
        removal.chunk_end() - removal.removed < 4096 ==> removal.chunk_end()
            == removal.block_ids@.len(),
        inv.inspected <= inv.chunk_end() <= inv.block_ids@.len(),
        inv.chunk_end() - inv.inspected <= 4096,
        inv.chunk_end() - inv.inspected < 4096 ==> inv.chunk_end() == inv.block_ids@.len(),
{
}

/// The blocks of a report that are counted by owner: each entry whose owner is
/// the one asked for, and that is to be deleted, counts one.
pub proof fn deletions_are_counted(
    full_report: bool,
    chunk: Seq<BlockReportInfo>,
    owners: Seq<BlockOwner>,
    owner: BlockOwner,
)
    ensures
        crate::report_diagnostics::to_delete(full_report, chunk, owners, owner) == positions(
            owners.len(),
            |i: int|
                owners[i] == owner && !(owner matches BlockOwner::File { holds } && holds) && (
                chunk[i].status == BlockReportStatus::Finalized || chunk[i].status
                    == BlockReportStatus::Writing && full_report),
        ).len(),
    decreases owners.len(),
{
    let p = |i: int|
        owners[i] == owner && !(owner matches BlockOwner::File { holds } && holds) && (
        chunk[i].status == BlockReportStatus::Finalized || chunk[i].status
            == BlockReportStatus::Writing && full_report);
    if owners.len() > 0 {
        let rest = owners.drop_last();
        let q = |i: int|
            rest[i] == owner && !(owner matches BlockOwner::File { holds } && holds) && (
            chunk[i].status == BlockReportStatus::Finalized || chunk[i].status
                == BlockReportStatus::Writing && full_report);
        deletions_are_counted(full_report, chunk, rest, owner);
        assert forall|i: int| 0 <= i < rest.len() implies #[trigger] p(i) == q(i) by {
            assert(rest[i] == owners[i]);
        }
        positions_agree(rest.len(), p, q);
        assert(p(owners.len() - 1) == (owners.last() == owner && crate::report_diagnostics::deletes(
            chunk[owners.len() - 1],
            owner,
            full_report,
        )));
    }
}

/// A count is exact as long as it fits.
pub proof fn counts_are_exact(n: nat)
    ensures
        n <= u64::MAX ==> crate::report_diagnostics::counted(n) == n,
        n > u64::MAX ==> crate::report_diagnostics::counted(n) == u64::MAX,
{
}

/// There is a line for each block that is being written, that is not part of a
/// whole inventory, and whose inode is missing or no file; in their order.
pub proof fn deferred_blocks_are_told(
    worker_id: u32,
    full_report: bool,
    chunk: Seq<BlockReportInfo>,
    owners: Seq<BlockOwner>,
)
    ensures
        ({
            let r = crate::report_diagnostics::deferred_lines(worker_id, full_report, chunk, owners);
            let at = positions(
                owners.len(),
                |i: int|
                    chunk[i].status == BlockReportStatus::Writing && !full_report && (owners[i]
                        == BlockOwner::Missing || owners[i] == BlockOwner::NotFile),
            );
            &&& r.len() == at.len()
            &&& forall|k: int|
                0 <= k < r.len() ==> #[trigger] r[k] == crate::report_diagnostics::deferred_line(
                    worker_id,
                    chunk[at[k]].id,
                    owners[at[k]],
                )
        }),
    decreases owners.len(),
{
    let p = |i: int|
        chunk[i].status == BlockReportStatus::Writing && !full_report && (owners[i]
            == BlockOwner::Missing || owners[i] == BlockOwner::NotFile);
    if owners.len() > 0 {
        let rest = owners.drop_last();
        let q = |i: int|
            chunk[i].status == BlockReportStatus::Writing && !full_report && (rest[i]
                == BlockOwner::Missing || rest[i] == BlockOwner::NotFile);
        deferred_blocks_are_told(worker_id, full_report, chunk, rest);
        assert forall|i: int| 0 <= i < rest.len() implies #[trigger] p(i) == q(i) by {
            assert(rest[i] == owners[i]);
        }
        positions_agree(rest.len(), p, q);
        positions_are_all(rest.len(), p);
        assert(p(owners.len() - 1) == crate::report_diagnostics::defers(
            chunk[owners.len() - 1],
            owners.last(),
            full_report,
        ));
        let at = positions(rest.len(), p);
        assert forall|k: int| 0 <= k < at.len() implies owners[#[trigger] at[k]] == rest[at[k]] by {}
    }
}

} // verus!
