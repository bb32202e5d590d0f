//! What the operations that change the state leave behind.

use dashmap::DashMap;
use vstd::prelude::*;

use crate::block_map::{DeleteResult, WorkerCommand};
use crate::block_report::{
    BlockOwner, BlockReportInfo, BlockReportList, BlockReportResult, BlockReportStatus,
    BlockReportTask, FullBlockReconcileJob, ReportedChanges,
};
use crate::cleanup::{
    CacheInvalidationResult, InvalidationTask, LostWorkerLocationCleanup, RemovalTask,
};
use crate::compatibility::{
    CompatibilityCheck, CompatibilityMode, CompatibilityVerdict, VerdictView,
};
use crate::completion_hooks::{ReconcileCompletionHook, ReconcileCompletionHooks};
use crate::error::FsError;
use crate::heartbeat_checker::{CheckPass, HeartbeatChecker, Settled};
use crate::ids::BlockIds;
use crate::manager_model::ManagerView;
use crate::master_filesystem::{FilesystemView, MasterFilesystem};
use crate::master_handler::{HeartbeatReply, MasterHandler, WorkerHeartbeatRequest};
use crate::model::{
    BlockLocation, ComponentInfo, HeartbeatStatus, InodeFile, StorageInfo, StorageType,
    TransferWorkerCapabilities, WorkerAddress, WorkerInfo, WorkerStatus, WorkerView,
};
use crate::reconcile::{ReconcileEnd, ReconcileNext, ReconcileStep};
use crate::report_diagnostics::BlockReportDiagnostics;
use crate::worker_manager::WorkerManager;
use crate::worker_map::{Registration, RegistrationView, WorkerMap};

verus! {

/// What a worker says of itself in a heartbeat.
pub open spec fn described(
    addr: WorkerAddress,
    weight: u32,
    session: String,
    caps: TransferWorkerCapabilities,
    version: String,
    startup_ms: u64,
    storages: Vec<StorageInfo>,
    info: Option<ComponentInfo>,
) -> RegistrationView {
    RegistrationView {
        address: addr@,
        weight,
        worker_session_id: session@,
        transfer_capabilities: caps,
        software_version: version@,
        startup_time_ms: startup_ms,
        storages: storages@.map_values(|s: StorageInfo| s@),
        component_info: match info {
            Some(i) => Some(i@),
            None => None,
        },
    }
}

/// The start of a new process gives its worker id the whole grace where no
/// cleanup of its last departure is scheduled: its cleanup is due one interval
/// after the start, and not before.
pub proof fn starting_gives_the_whole_grace(
    cluster_id: &str,
    addr: WorkerAddress,
    weight: u32,
    session: String,
    caps: TransferWorkerCapabilities,
    version: String,
    startup_ms: u64,
    storages: Vec<StorageInfo>,
    info: Option<ComponentInfo>,
    now_ms: u64,
    at_ms: u64,
    c: Vec<WorkerCommand>,
)
    ensures
        forall|wm: &mut WorkerManager|
            (*wm)@.wf() && !crate::heartbeat_laws::sender_is_known(
                (*wm)@,
                described(addr, weight, session, caps, version, startup_ms, storages, info),
            ) && !(*wm)@.offline.contains_key(addr.worker_id) && #[trigger] call_ensures(
                WorkerManager::heartbeat,
                (
                    wm,
                    cluster_id,
                    HeartbeatStatus::Start,
                    addr,
                    weight,
                    session,
                    caps,
                    version,
                    startup_ms,
                    storages,
                    info,
                    now_ms,
                ),
                Ok::<Vec<WorkerCommand>, FsError>(c),
            ) ==> {
                let t = final(wm)@;
                let id = addr.worker_id;
                let grace = (*wm)@.worker_lost_interval_ms;
                &&& cluster_id@ == (*wm)@.cluster_id
                &&& c@.len() == 0
                &&& !t.workers.contains_key(id)
                &&& t.offline.contains_key(id) && !t.offline[id].in_flight
                &&& now_ms + grace <= u64::MAX ==> t.offline[id].deadline_ms == now_ms + grace
                &&& now_ms + grace > u64::MAX ==> t.offline[id].deadline_ms == u64::MAX
                &&& now_ms <= at_ms < now_ms + grace && at_ms < u64::MAX ==> !t.due(
                    at_ms,
                ).contains(id)
            },
{
    let reg = described(addr, weight, session, caps, version, startup_ms, storages, info);
    assert forall|wm: &mut WorkerManager|
        (*wm)@.wf() && !crate::heartbeat_laws::sender_is_known((*wm)@, reg)
            && !(*wm)@.offline.contains_key(addr.worker_id) && #[trigger] call_ensures(
            WorkerManager::heartbeat,
            (
                wm,
                cluster_id,
                HeartbeatStatus::Start,
                addr,
                weight,
                session,
                caps,
                version,
                startup_ms,
                storages,
                info,
                now_ms,
            ),
            Ok::<Vec<WorkerCommand>, FsError>(c),
        ) implies ({
        let t = final(wm)@;
        let id = addr.worker_id;
        let grace = (*wm)@.worker_lost_interval_ms;
        &&& cluster_id@ == (*wm)@.cluster_id
        &&& c@.len() == 0
        &&& !t.workers.contains_key(id)
        &&& t.offline.contains_key(id) && !t.offline[id].in_flight
        &&& now_ms + grace <= u64::MAX ==> t.offline[id].deadline_ms == now_ms + grace
        &&& now_ms + grace > u64::MAX ==> t.offline[id].deadline_ms == u64::MAX
        &&& now_ms <= at_ms < now_ms + grace && at_ms < u64::MAX ==> !t.due(at_ms).contains(id)
    }) by {
        let s = (*wm)@;
        crate::heartbeat_laws::heartbeat_goes_by_its_kind(s, cluster_id@, reg, now_ms);
        crate::heartbeat_laws::start_is_refused_or_taken_in(s, reg, now_ms);
        crate::heartbeat_laws::start_gives_the_whole_grace(s, reg, now_ms, at_ms);
        crate::heartbeat_laws::start_takes_out_whom_it_replaces(s, reg, now_ms, addr.worker_id);
        assert(crate::block_map::commands_of(c@).len() == c@.len());
    }
}

/// A running process that may be live is the live worker of its id afterwards,
/// as it describes itself and seen now; one that may not changes nothing.
pub proof fn running_makes_live(
    cluster_id: &str,
    addr: WorkerAddress,
    weight: u32,
    session: String,
    caps: TransferWorkerCapabilities,
    version: String,
    startup_ms: u64,
    storages: Vec<StorageInfo>,
    info: Option<ComponentInfo>,
    now_ms: u64,
    c: Vec<WorkerCommand>,
)
    ensures
        forall|wm: &mut WorkerManager|
            (*wm)@.wf() && #[trigger] call_ensures(
                WorkerManager::heartbeat,
                (
                    wm,
                    cluster_id,
                    HeartbeatStatus::Running,
                    addr,
                    weight,
                    session,
                    caps,
                    version,
                    startup_ms,
                    storages,
                    info,
                    now_ms,
                ),
                Ok::<Vec<WorkerCommand>, FsError>(c),
            ) ==> {
                let reg = described(addr, weight, session, caps, version, startup_ms, storages, info);
                let may = crate::heartbeat_laws::may_be_live((*wm)@, reg);
                let id = addr.worker_id;
                let w = final(wm)@.workers[id];
                &&& cluster_id@ == (*wm)@.cluster_id
                &&& !may ==> final(wm)@ == (*wm)@ && c@.len() == 0
                &&& may ==> final(wm)@.workers.contains_key(id) && w.address == addr@ && w.weight
                    == weight && w.worker_session_id == session@ && w.startup_time_ms == startup_ms
                    && w.last_update == now_ms && w.transfer_capabilities == caps
                    && w.software_version == version@ && !final(wm)@.lost.contains_key(id)
                &&& may ==> final(wm)@.deletes == (*wm)@.deletes
            },
{
    let reg = described(addr, weight, session, caps, version, startup_ms, storages, info);
    assert forall|wm: &mut WorkerManager|
        (*wm)@.wf() && #[trigger] call_ensures(
            WorkerManager::heartbeat,
            (
                wm,
                cluster_id,
                HeartbeatStatus::Running,
                addr,
                weight,
                session,
                caps,
                version,
                startup_ms,
                storages,
                info,
                now_ms,
            ),
            Ok::<Vec<WorkerCommand>, FsError>(c),
        ) implies ({
        let may = crate::heartbeat_laws::may_be_live((*wm)@, reg);
        let id = addr.worker_id;
        let w = final(wm)@.workers[id];
        &&& cluster_id@ == (*wm)@.cluster_id
        &&& !may ==> final(wm)@ == (*wm)@ && c@.len() == 0
        &&& may ==> final(wm)@.workers.contains_key(id) && w.address == addr@ && w.weight == weight
            && w.worker_session_id == session@ && w.startup_time_ms == startup_ms && w.last_update
            == now_ms && w.transfer_capabilities == caps && w.software_version == version@
            && !final(wm)@.lost.contains_key(id)
        &&& may ==> final(wm)@.deletes == (*wm)@.deletes
    }) by {
        let s = (*wm)@;
        crate::heartbeat_laws::heartbeat_goes_by_its_kind(s, cluster_id@, reg, now_ms);
        crate::heartbeat_laws::running_is_ignored_refused_or_taken_in(s, reg, now_ms);
        if crate::heartbeat_laws::may_be_live(s, reg) && !crate::heartbeat_laws::lives_elsewhere(
            s,
            reg,
        ) {
            crate::heartbeat_laws::running_takes_its_place(s, reg, now_ms, addr.worker_id);
        }
        assert(crate::block_map::commands_of(c@).len() == c@.len());
    }
}

/// The end of the live process takes its worker out with the whole grace.
pub proof fn ending_gives_the_whole_grace(
    cluster_id: &str,
    addr: WorkerAddress,
    weight: u32,
    session: String,
    caps: TransferWorkerCapabilities,
    version: String,
    startup_ms: u64,
    storages: Vec<StorageInfo>,
    info: Option<ComponentInfo>,
    now_ms: u64,
    c: Vec<WorkerCommand>,
)
    ensures
        forall|wm: &mut WorkerManager|
            (*wm)@.wf() && (*wm)@.workers.contains_key(addr.worker_id)
                && crate::heartbeat_laws::is_sender(
                (*wm)@.workers[addr.worker_id],
                described(addr, weight, session, caps, version, startup_ms, storages, info),
            ) && !(*wm)@.offline.contains_key(addr.worker_id) && #[trigger] call_ensures(
                WorkerManager::heartbeat,
                (
                    wm,
                    cluster_id,
                    HeartbeatStatus::End,
                    addr,
                    weight,
                    session,
                    caps,
                    version,
                    startup_ms,
                    storages,
                    info,
                    now_ms,
                ),
                Ok::<Vec<WorkerCommand>, FsError>(c),
            ) ==> {
                let t = final(wm)@;
                let id = addr.worker_id;
                let grace = (*wm)@.worker_lost_interval_ms;
                &&& !t.workers.contains_key(id) && t.lost.contains_key(id)
                &&& t.lost[id] == (WorkerView { status: WorkerStatus::Lost, ..(*wm)@.workers[id] })
                &&& t.recovering.contains_key(id) && t.recovering[id].ended
                &&& t.offline.contains_key(id) && !t.offline[id].in_flight
                &&& now_ms + grace <= u64::MAX ==> t.offline[id].deadline_ms == now_ms + grace
                &&& now_ms + grace > u64::MAX ==> t.offline[id].deadline_ms == u64::MAX
            },
{
    let reg = described(addr, weight, session, caps, version, startup_ms, storages, info);
    assert forall|wm: &mut WorkerManager|
        (*wm)@.wf() && (*wm)@.workers.contains_key(addr.worker_id)
            && crate::heartbeat_laws::is_sender((*wm)@.workers[addr.worker_id], reg)
            && !(*wm)@.offline.contains_key(addr.worker_id) && #[trigger] call_ensures(
            WorkerManager::heartbeat,
            (
                wm,
                cluster_id,
                HeartbeatStatus::End,
                addr,
                weight,
                session,
                caps,
                version,
                startup_ms,
                storages,
                info,
                now_ms,
            ),
            Ok::<Vec<WorkerCommand>, FsError>(c),
        ) implies ({
        let t = final(wm)@;
        let id = addr.worker_id;
        let grace = (*wm)@.worker_lost_interval_ms;
        &&& !t.workers.contains_key(id) && t.lost.contains_key(id)
        &&& t.lost[id] == (WorkerView { status: WorkerStatus::Lost, ..(*wm)@.workers[id] })
        &&& t.recovering.contains_key(id) && t.recovering[id].ended
        &&& t.offline.contains_key(id) && !t.offline[id].in_flight
        &&& now_ms + grace <= u64::MAX ==> t.offline[id].deadline_ms == now_ms + grace
        &&& now_ms + grace > u64::MAX ==> t.offline[id].deadline_ms == u64::MAX
    }) by {
        let s = (*wm)@;
        crate::heartbeat_laws::heartbeat_goes_by_its_kind(s, cluster_id@, reg, now_ms);
        crate::heartbeat_laws::end_takes_leave(s, reg, now_ms, now_ms);
    }
}

/// Once a chunk of a worker's report is applied, none of the blocks that it
/// reports as deleted is queued for deletion on the worker, unless it is
/// obsolete; every obsolete block is; every other queued deletion is as
/// before. The task goes on behind the chunk and keeps the obsolete blocks.
pub proof fn applied_chunks_settle_deletions(obsolete: Vec<i64>, now_ms: u64, w: u32, id: i64)
    ensures
        forall|fs: &mut MasterFilesystem, task: &mut BlockReportTask|
            (*task).applied <= (*task).blocks@.len() && #[trigger] call_ensures(
                MasterFilesystem::block_report_chunk_applied,
                (fs, task, obsolete, now_ms),
                (),
            ) ==> {
                let next = final(task).applied;
                let reported = exists|i: int|
                    (*task).applied <= i < next && (#[trigger] (*task).blocks@[i]).id == id
                        && (*task).blocks@[i].status == BlockReportStatus::Deleted;
                let before = (*fs)@.manager.deletes.contains((w, id));
                let after = final(fs)@.manager.deletes.contains((w, id));
                let own = w == (*task).worker_id;
                &&& own && obsolete@.contains(id) ==> after
                &&& own && reported && !obsolete@.contains(id) ==> !after
                &&& !(own && (reported || obsolete@.contains(id))) ==> after == before
                &&& final(task).blocks == (*task).blocks && final(task).worker_id
                    == (*task).worker_id
                &&& final(task).delete_blocks@ == (*task).delete_blocks@ + obsolete@
                &&& (*task).applied <= next <= (*task).blocks@.len()
                &&& next == (*task).applied ==> next == (*task).blocks@.len()
            },
{
    assert forall|fs: &mut MasterFilesystem, task: &mut BlockReportTask|
        (*task).applied <= (*task).blocks@.len() && #[trigger] call_ensures(
            MasterFilesystem::block_report_chunk_applied,
            (fs, task, obsolete, now_ms),
            (),
        ) implies ({
        let next = final(task).applied;
        let reported = exists|i: int|
            (*task).applied <= i < next && (#[trigger] (*task).blocks@[i]).id == id
                && (*task).blocks@[i].status == BlockReportStatus::Deleted;
        let before = (*fs)@.manager.deletes.contains((w, id));
        let after = final(fs)@.manager.deletes.contains((w, id));
        let own = w == (*task).worker_id;
        &&& own && obsolete@.contains(id) ==> after
        &&& own && reported && !obsolete@.contains(id) ==> !after
        &&& !(own && (reported || obsolete@.contains(id))) ==> after == before
        &&& final(task).blocks == (*task).blocks && final(task).worker_id == (*task).worker_id
        &&& final(task).delete_blocks@ == (*task).delete_blocks@ + obsolete@
        &&& (*task).applied <= next <= (*task).blocks@.len()
        &&& next == (*task).applied ==> next == (*task).blocks@.len()
    }) by {
        let chunk = (*task).chunk();
        let at = (*task).applied as int;
        crate::inventory_laws::chunk_settles_its_deletions(
            (*fs)@,
            (*task).worker_id,
            (*task).full_report,
            chunk,
            obsolete@,
            now_ms,
            w,
            id,
        );
        let next = final(task).applied;
        if crate::inventory_laws::tells_deletion(chunk, id) {
            let i = choose|i: int|
                0 <= i < chunk.len() && (#[trigger] chunk[i]).id == id && chunk[i].status
                    == BlockReportStatus::Deleted;
            assert((*task).blocks@[at + i] == chunk[i]);
        }
        if exists|i: int|
            (*task).applied <= i < next && (#[trigger] (*task).blocks@[i]).id == id
                && (*task).blocks@[i].status == BlockReportStatus::Deleted {
            let i = choose|i: int|
                (*task).applied <= i < next && (#[trigger] (*task).blocks@[i]).id == id
                    && (*task).blocks@[i].status == BlockReportStatus::Deleted;
            assert(chunk[i - at] == (*task).blocks@[i]);
        }
    }
}

/// A report is taken from the current process of its worker only, and then in
/// full; the report of any other process changes nothing.
pub proof fn reports_are_taken_in_full(
    list: BlockReportList,
    replicate: bool,
    now_ms: u64,
    r: Result<BlockReportTask, FsError>,
)
    ensures
        forall|fs: &mut MasterFilesystem| #[trigger]
            call_ensures(MasterFilesystem::block_report, (fs, list, replicate, now_ms), r) ==> {
                let taken = (*fs)@.manager.accepts_report(list.worker_id, list.worker_session_id@);
                &&& r is Ok <==> taken
                &&& !taken ==> final(fs)@ == (*fs)@ && r == Err::<BlockReportTask, FsError>(
                    FsError::StaleReportSession { worker_id: list.worker_id },
                )
                &&& r matches Ok(task) ==> {
                    &&& task.worker_id == list.worker_id && task.blocks == list.blocks
                    &&& task.worker_session_id == list.worker_session_id
                    &&& task.full_report == list.full_report && task.total_len == list.total_len
                    &&& task.replicate == replicate && task.applied == 0
                    &&& task.delete_blocks@.len() == 0
                    &&& final(fs)@.reports == (*fs)@.reports && final(fs)@.reconciles
                        == (*fs)@.reconciles
                    &&& final(fs)@.manager.deletes == (*fs)@.manager.deletes
                    &&& final(fs)@.manager.workers == (*fs)@.manager.workers
                }
            },
{
}

/// Once a report is applied, the worker is told to delete what was obsolete in
/// all of its chunks; a comparison begins where the inventory is complete and
/// none runs.
pub proof fn finished_reports_tell_deletions(
    task: BlockReportTask,
    now_ms: u64,
    r: (BlockReportResult, bool),
)
    ensures
        forall|fs: &mut MasterFilesystem| #[trigger]
            call_ensures(MasterFilesystem::finish_block_report, (fs, task, now_ms), r) ==> {
                let held = (*fs)@.inventory_with_chunk(
                    task.worker_id,
                    task.total_len,
                    task.blocks@,
                    now_ms,
                ).reported.len();
                let known = (*fs)@.reconciles.contains_key(task.worker_id);
                &&& r.0.delete_blocks == task.delete_blocks
                &&& r.1 <==> task.full_report && held >= task.total_len && !(known
                    && (*fs)@.reconciles[task.worker_id].running)
                &&& !task.full_report ==> final(fs)@ == (*fs)@
                &&& task.full_report && held >= task.total_len ==> final(fs)@.reconciles.contains_key(
                    task.worker_id,
                ) && final(fs)@.reconciles[task.worker_id].running
                    && final(fs)@.reconciles[task.worker_id].pending is Some
                    && final(fs)@.reconciles[task.worker_id].pending->0.session
                    == task.worker_session_id@
                    && final(fs)@.reconciles[task.worker_id].pending->0.replicate == task.replicate
            },
{
    assert forall|fs: &mut MasterFilesystem| #[trigger]
        call_ensures(MasterFilesystem::finish_block_report, (fs, task, now_ms), r) implies ({
        let held = (*fs)@.inventory_with_chunk(
            task.worker_id,
            task.total_len,
            task.blocks@,
            now_ms,
        ).reported.len();
        let known = (*fs)@.reconciles.contains_key(task.worker_id);
        &&& r.0.delete_blocks == task.delete_blocks
        &&& r.1 <==> task.full_report && held >= task.total_len && !(known
            && (*fs)@.reconciles[task.worker_id].running)
        &&& !task.full_report ==> final(fs)@ == (*fs)@
        &&& task.full_report && held >= task.total_len ==> final(fs)@.reconciles.contains_key(
            task.worker_id,
        ) && final(fs)@.reconciles[task.worker_id].running
            && final(fs)@.reconciles[task.worker_id].pending is Some
            && final(fs)@.reconciles[task.worker_id].pending->0.session == task.worker_session_id@
            && final(fs)@.reconciles[task.worker_id].pending->0.replicate == task.replicate
    }) by {
        crate::inventory_laws::finished_chunk_is_kept_or_submitted(
            (*fs)@,
            task.worker_id,
            task.worker_session_id@,
            task.total_len,
            task.blocks@,
            task.replicate,
            now_ms,
            task.worker_id,
        );
    }
}

/// A chunk of a report changes a recorded location for each entry that tells
/// something, and has the worker delete what no file needs.
pub proof fn reported_blocks_are_recorded(
    worker_id: u32,
    full_report: bool,
    chunk: Vec<BlockReportInfo>,
    owners: Vec<BlockOwner>,
    i: int,
    r: ReportedChanges,
)
    requires
        call_ensures(
            crate::block_report::apply_reported_blocks,
            (worker_id, full_report, &chunk, &owners),
            r,
        ),
        chunk@.len() == owners@.len(),
        0 <= i < chunk@.len(),
    ensures
        ({
            let b = chunk@[i];
            let loc = BlockLocation { worker_id, storage_type: b.storage_type };
            let held = owners@[i] matches BlockOwner::File { holds } && holds;
            &&& b.status == BlockReportStatus::Deleted ==> r.edits@.contains((false, b.id, loc))
            &&& b.status != BlockReportStatus::Deleted && held ==> r.edits@.contains(
                (true, b.id, loc),
            )
            &&& b.status == BlockReportStatus::Finalized && !held ==> r.edits@.contains(
                (false, b.id, loc),
            ) && r.obsolete@.contains(b.id)
            &&& b.status == BlockReportStatus::Writing && !held && full_report
                ==> r.edits@.contains((false, b.id, loc)) && r.obsolete@.contains(b.id)
            &&& r.edits@.len() <= chunk@.len() && r.obsolete@.len() <= chunk@.len()
        }),
{
    let held = crate::block_report::held_by(owners@);
    let p = |k: int| crate::inventory_laws::is_telling_entry(full_report, chunk@, held, k);
    let q = |k: int| crate::inventory_laws::is_obsolete_entry(full_report, chunk@, held, k);
    crate::inventory_laws::owners_hold_block_by_block(owners@, i);
    crate::inventory_laws::edits_follow_the_chunk(worker_id, full_report, chunk@, held);
    crate::inventory_laws::obsolete_blocks_follow_the_chunk(full_report, chunk@, held);
    crate::inventory_laws::positions_are_all(chunk@.len(), p);
    crate::inventory_laws::positions_are_few(chunk@.len(), p);
    crate::inventory_laws::positions_are_few(chunk@.len(), q);
    let at = crate::inventory_laws::positions(chunk@.len(), p);
    if p(i) {
        let k = choose|k: int| 0 <= k < at.len() && at[k] == i;
        let e = r.edits@[k];
        assert(e.0 == (held[i] && chunk@[i].status != BlockReportStatus::Deleted));
        assert(e == (
            e.0,
            chunk@[i].id,
            BlockLocation { worker_id, storage_type: chunk@[i].storage_type },
        ));
        assert(r.edits@.contains(e));
    }
    if q(i) {
        assert(chunk@[i].id == chunk@[i].id);
    }
}

/// The status of the workers on the named hosts changes, and they are named;
/// nothing else changes.
pub proof fn decommissioning_goes_by_host(list: Vec<String>, r: Vec<String>, k: u32)
    ensures
        forall|wm: &mut WorkerManager|
            (*wm)@.workers.contains_key(k) && #[trigger] call_ensures(
                WorkerManager::add_dcm,
                (wm, list),
                r,
            ) ==> {
                let on = exists|i: int|
                    0 <= i < list@.len() && (#[trigger] list@[i])@ == (
                    *wm)@.workers[k].address.hostname;
                &&& final(wm)@.workers.contains_key(k)
                &&& on ==> final(wm)@.workers[k] == (WorkerView {
                    status: WorkerStatus::Decommission,
                    ..(*wm)@.workers[k]
                })
                &&& !on ==> final(wm)@.workers[k] == (*wm)@.workers[k]
                &&& final(wm)@ == (ManagerView { workers: final(wm)@.workers, ..(*wm)@ })
                &&& crate::model::texts_of(r@) == crate::ids::workers_in_order(
                    (*wm)@.workers.dom(),
                ).filter(
                    |x: u32|
                        exists|i: int|
                            0 <= i < crate::model::texts_of(list@).len()
                                && #[trigger] crate::model::texts_of(list@)[i] == (
                            *wm)@.workers[x].address.hostname,
                ).map_values(|x: u32| (*wm)@.workers[x].address.simple_text())
            },
        forall|wm: &mut WorkerManager|
            (*wm)@.workers.contains_key(k) && #[trigger] call_ensures(
                WorkerManager::remove_dcm,
                (wm, list),
                r,
            ) ==> {
                let on = exists|i: int|
                    0 <= i < list@.len() && (#[trigger] list@[i])@ == (
                    *wm)@.workers[k].address.hostname;
                &&& final(wm)@.workers.contains_key(k)
                &&& on ==> final(wm)@.workers[k] == (WorkerView {
                    status: WorkerStatus::Live,
                    ..(*wm)@.workers[k]
                })
                &&& !on ==> final(wm)@.workers[k] == (*wm)@.workers[k]
                &&& final(wm)@ == (ManagerView { workers: final(wm)@.workers, ..(*wm)@ })
                &&& crate::model::texts_of(r@) == crate::ids::workers_in_order(
                    (*wm)@.workers.dom(),
                ).filter(
                    |x: u32|
                        exists|i: int|
                            0 <= i < crate::model::texts_of(list@).len()
                                && #[trigger] crate::model::texts_of(list@)[i] == (
                            *wm)@.workers[x].address.hostname,
                ).map_values(|x: u32| (*wm)@.workers[x].address.simple_text())
            },
{
    let hosts = crate::model::texts_of(list@);
    assert forall|wm: &mut WorkerManager|
        (*wm)@.workers.contains_key(k) && #[trigger] call_ensures(
            WorkerManager::add_dcm,
            (wm, list),
            r,
        ) implies ({
        let on = exists|i: int|
            0 <= i < list@.len() && (#[trigger] list@[i])@ == (*wm)@.workers[k].address.hostname;
        &&& final(wm)@.workers.contains_key(k)
        &&& on ==> final(wm)@.workers[k] == (WorkerView {
            status: WorkerStatus::Decommission,
            ..(*wm)@.workers[k]
        })
        &&& !on ==> final(wm)@.workers[k] == (*wm)@.workers[k]
        &&& final(wm)@ == (ManagerView { workers: final(wm)@.workers, ..(*wm)@ })
        &&& crate::model::texts_of(r@) == crate::ids::workers_in_order(
            (*wm)@.workers.dom(),
        ).filter(
            |x: u32|
                exists|i: int|
                    0 <= i < crate::model::texts_of(list@).len()
                        && #[trigger] crate::model::texts_of(list@)[i] == (
                    *wm)@.workers[x].address.hostname,
        ).map_values(|x: u32| (*wm)@.workers[x].address.simple_text())
    }) by {
        crate::placement_laws::workers_are_listed_by_name(
            (*wm)@.workers,
            crate::ids::workers_in_order((*wm)@.workers.dom()),
            hosts,
            false,
        );
        same_hosts(list@, (*wm)@.workers[k].address.hostname);
        crate::heartbeat_laws::status_is_set_by_host(
            (*wm)@,
            hosts,
            WorkerStatus::Decommission,
            k,
        );
    }
    assert forall|wm: &mut WorkerManager|
        (*wm)@.workers.contains_key(k) && #[trigger] call_ensures(
            WorkerManager::remove_dcm,
            (wm, list),
            r,
        ) implies ({
        let on = exists|i: int|
            0 <= i < list@.len() && (#[trigger] list@[i])@ == (*wm)@.workers[k].address.hostname;
        &&& final(wm)@.workers.contains_key(k)
        &&& on ==> final(wm)@.workers[k] == (WorkerView {
            status: WorkerStatus::Live,
            ..(*wm)@.workers[k]
        })
        &&& !on ==> final(wm)@.workers[k] == (*wm)@.workers[k]
        &&& final(wm)@ == (ManagerView { workers: final(wm)@.workers, ..(*wm)@ })
        &&& crate::model::texts_of(r@) == crate::ids::workers_in_order(
            (*wm)@.workers.dom(),
        ).filter(
            |x: u32|
                exists|i: int|
                    0 <= i < crate::model::texts_of(list@).len()
                        && #[trigger] crate::model::texts_of(list@)[i] == (
                    *wm)@.workers[x].address.hostname,
        ).map_values(|x: u32| (*wm)@.workers[x].address.simple_text())
    }) by {
        crate::placement_laws::workers_are_listed_by_name(
            (*wm)@.workers,
            crate::ids::workers_in_order((*wm)@.workers.dom()),
            hosts,
            false,
        );
        same_hosts(list@, (*wm)@.workers[k].address.hostname);
        crate::heartbeat_laws::status_is_set_by_host((*wm)@, hosts, WorkerStatus::Live, k);
    }
}

proof fn same_hosts(list: Seq<String>, h: Seq<char>)
    ensures
        (exists|i: int|
            0 <= i < crate::model::texts_of(list).len() && #[trigger] crate::model::texts_of(list)[i]
                == h) == (exists|i: int| 0 <= i < list.len() && (#[trigger] list[i])@ == h),
{
    let hosts = crate::model::texts_of(list);
    if exists|i: int| 0 <= i < hosts.len() && #[trigger] hosts[i] == h {
        let i = choose|i: int| 0 <= i < hosts.len() && #[trigger] hosts[i] == h;
        assert(list[i]@ == h);
    }
    if exists|i: int| 0 <= i < list.len() && (#[trigger] list[i])@ == h {
        let i = choose|i: int| 0 <= i < list.len() && (#[trigger] list[i])@ == h;
        assert(hosts[i] == h);
    }
}

/// A live worker is blacklisted once; a worker whose heartbeats stopped is
/// handed out as lost.
pub proof fn silent_workers_are_taken_out(
    id: u32,
    listed: Option<WorkerInfo>,
    removed: Option<WorkerInfo>,
)
    ensures
        forall|wm: &mut WorkerManager| #[trigger]
            call_ensures(WorkerManager::add_blacklist_worker, (wm, id), listed) ==> {
                let can = (*wm)@.workers.contains_key(id) && (*wm)@.workers[id].status
                    != WorkerStatus::Blacklist;
                &&& listed is Some <==> can
                &&& !can ==> final(wm)@ == (*wm)@
                &&& can ==> final(wm)@ == (ManagerView {
                    workers: (*wm)@.workers.insert(
                        id,
                        WorkerView { status: WorkerStatus::Blacklist, ..(*wm)@.workers[id] },
                    ),
                    ..(*wm)@
                })
                &&& can ==> listed->0@ == (WorkerView {
                    status: WorkerStatus::Blacklist,
                    ..(*wm)@.workers[id]
                })
            },
        forall|wm: &mut WorkerManager| #[trigger]
            call_ensures(WorkerManager::remove_expired_worker, (wm, id), removed) ==> {
                let live = (*wm)@.workers.contains_key(id);
                &&& removed is Some <==> live
                &&& live ==> removed->0@ == (WorkerView {
                    status: WorkerStatus::Lost,
                    ..(*wm)@.workers[id]
                })
                &&& !live ==> final(wm)@ == (*wm)@
                &&& live ==> final(wm)@.workers == (*wm)@.workers.remove(id)
            },
{
    assert forall|wm: &mut WorkerManager| #[trigger]
        call_ensures(WorkerManager::remove_expired_worker, (wm, id), removed)
            && (*wm)@.workers.contains_key(id) implies final(wm)@.workers == (*wm)@.workers.remove(
        id,
    ) by {
        assert(final(wm)@.workers =~= (*wm)@.workers.remove(id));
    }
}

/// The cleanups that are handed out are those that are due, each with the
/// worker it is of and in the order of the ids.
pub proof fn due_cleanups_come_out_in_order(now_ms: u64, r: Vec<WorkerInfo>, k: u32)
    ensures
        forall|wm: &mut WorkerManager| #[trigger]
            call_ensures(WorkerManager::take_expired_offline_workers, (wm, now_ms), r) ==> {
                let due = (*wm)@.offline.contains_key(k) && !(*wm)@.offline[k].in_flight
                    && (*wm)@.offline[k].deadline_ms <= now_ms;
                &&& due ==> crate::worker_map::workers_of(r@).contains((*wm)@.offline[k].worker)
                &&& due ==> final(wm)@.offline[k].in_flight
                &&& !due && (*wm)@.offline.contains_key(k) ==> final(wm)@.offline[k]
                    == (*wm)@.offline[k]
            },
{
    assert forall|wm: &mut WorkerManager| #[trigger]
        call_ensures(WorkerManager::take_expired_offline_workers, (wm, now_ms), r) implies ({
        let due = (*wm)@.offline.contains_key(k) && !(*wm)@.offline[k].in_flight
            && (*wm)@.offline[k].deadline_ms <= now_ms;
        &&& due ==> crate::worker_map::workers_of(r@).contains((*wm)@.offline[k].worker)
        &&& due ==> final(wm)@.offline[k].in_flight
        &&& !due && (*wm)@.offline.contains_key(k) ==> final(wm)@.offline[k] == (*wm)@.offline[k]
    }) by {
        crate::heartbeat_laws::due_cleanups_are_handed_out((*wm)@, now_ms, k);
        let ids = crate::ids::workers_in_order((*wm)@.due(now_ms));
        let out = crate::worker_map::workers_of(r@);
        if (*wm)@.due(now_ms).contains(k) {
            assert(ids.to_set().contains(k));
            let j = choose|j: int| 0 <= j < ids.len() && ids[j] == k;
            assert(out[j] == (*wm)@.offline[k].worker);
        }
    }
}

/// What a check makes of a worker that it saw: the worker that it removes is
/// handed out as lost, the one that it blacklists as blacklisted, and the rest
/// of the state does not depend on the check.
pub proof fn checks_hand_out_what_they_did(
    c: HeartbeatChecker,
    seen: WorkerInfo,
    now_ms: u64,
    r: Settled,
)
    ensures
        forall|fs: &mut MasterFilesystem| #[trigger]
            call_ensures(HeartbeatChecker::settle, (&c, fs, &seen, now_ms), r) ==> {
                let m = (*fs)@.manager;
                let id = seen@.address.worker_id;
                let still = crate::master_laws::is_still(m, seen@);
                &&& r.removed is Some <==> still && now_ms - seen@.last_update > c.worker_lost_ms
                &&& r.blacklisted is Some <==> still && now_ms - seen@.last_update
                    > c.worker_blacklist_ms && m.workers[id].status != WorkerStatus::Blacklist
                &&& r.removed matches Some(w) ==> w@ == (WorkerView {
                    status: WorkerStatus::Lost,
                    ..m.workers[id]
                })
                &&& r.blacklisted matches Some(w) ==> w@ == (WorkerView {
                    status: WorkerStatus::Blacklist,
                    ..m.workers[id]
                })
                &&& final(fs)@ == (FilesystemView { manager: final(fs)@.manager, ..(*fs)@ })
            },
{
}

/// A pass does nothing on a master that is not active; else it takes up the
/// comparisons that are due and hands out the workers that were silent.
pub proof fn passes_begin_with_what_is_due(
    c: HeartbeatChecker,
    is_active: bool,
    now_ms: u64,
    k: u32,
    r: Option<CheckPass>,
)
    ensures
        forall|fs: &mut MasterFilesystem| #[trigger]
            call_ensures(HeartbeatChecker::run, (&c, fs, is_active, now_ms), r) ==> {
                let s = (*fs)@;
                let due = s.reconciles.contains_key(k) && !s.reconciles[k].running
                    && s.reconciles[k].pending is Some && s.reconciles[k].retry_at_ms <= now_ms;
                let silent = s.manager.workers.contains_key(k) && (now_ms
                    - s.manager.workers[k].last_update > c.worker_blacklist_ms || now_ms
                    - s.manager.workers[k].last_update > c.worker_lost_ms);
                &&& r is Some <==> is_active
                &&& !is_active ==> final(fs)@ == s
                &&& r matches Some(p) ==> {
                    &&& p.now_ms == now_ms
                    &&& p.reconciles@.contains(k) <==> due
                    &&& silent ==> crate::worker_map::workers_of(p.candidates@).contains(
                        s.manager.workers[k],
                    )
                    &&& final(fs)@.manager == s.manager
                    &&& due ==> final(fs)@.reconciles[k].running
                }
            },
{
    assert forall|fs: &mut MasterFilesystem| #[trigger]
        call_ensures(HeartbeatChecker::run, (&c, fs, is_active, now_ms), r) implies ({
        let s = (*fs)@;
        let due = s.reconciles.contains_key(k) && !s.reconciles[k].running
            && s.reconciles[k].pending is Some && s.reconciles[k].retry_at_ms <= now_ms;
        let silent = s.manager.workers.contains_key(k) && (now_ms
            - s.manager.workers[k].last_update > c.worker_blacklist_ms || now_ms
            - s.manager.workers[k].last_update > c.worker_lost_ms);
        &&& r is Some <==> is_active
        &&& !is_active ==> final(fs)@ == s
        &&& r matches Some(p) ==> {
            &&& p.now_ms == now_ms
            &&& p.reconciles@.contains(k) <==> due
            &&& silent ==> crate::worker_map::workers_of(p.candidates@).contains(
                s.manager.workers[k],
            )
            &&& final(fs)@.manager == s.manager
            &&& due ==> final(fs)@.reconciles[k].running
        }
    }) by {
        let s = (*fs)@;
        if r is Some {
            let p = r->0;
            assert(p.reconciles@.to_set().contains(k) == s.reconciles_due(now_ms).contains(k));
            let ids = crate::ids::workers_in_order(c.candidates(s.manager, now_ms));
            crate::ids::workers_in_order_lists(c.candidates(s.manager, now_ms));
            let out = crate::worker_map::workers_of(p.candidates@);
            if c.candidates(s.manager, now_ms).contains(k) {
                assert(ids.to_set().contains(k));
                let j = choose|j: int| 0 <= j < ids.len() && ids[j] == k;
                assert(out[j] == s.manager.workers[k]);
            }
        }
    }
}

/// A cleanup that failed is queued again and reports nothing; one that
/// succeeded reports the blocks that need another replica.
pub proof fn cleanups_report_or_come_again(
    c: HeartbeatChecker,
    worker: WorkerInfo,
    outcome: Result<LostWorkerLocationCleanup, FsError>,
    r: Option<Vec<i64>>,
)
    ensures
        forall|fs: &mut MasterFilesystem| #[trigger]
            call_ensures(HeartbeatChecker::cleanup_ended, (&c, fs, worker, outcome), r) ==> {
                &&& r is Some <==> outcome is Ok
                &&& outcome matches Ok(x) ==> r == Some(x.replication_block_ids) && final(fs)@ == (
                *fs)@
                &&& outcome is Err && crate::heartbeat_laws::is_away((*fs)@.manager, worker@)
                    ==> final(fs)@.manager.offline.contains_key(worker@.address.worker_id)
                    && !final(fs)@.manager.offline[worker@.address.worker_id].in_flight
            },
{
    assert forall|fs: &mut MasterFilesystem| #[trigger]
        call_ensures(HeartbeatChecker::cleanup_ended, (&c, fs, worker, outcome), r) implies ({
        &&& r is Some <==> outcome is Ok
        &&& outcome matches Ok(x) ==> r == Some(x.replication_block_ids) && final(fs)@ == (*fs)@
        &&& outcome is Err && crate::heartbeat_laws::is_away((*fs)@.manager, worker@) ==> final(fs)@.manager.offline.contains_key(worker@.address.worker_id)
            && !final(fs)@.manager.offline[worker@.address.worker_id].in_flight
    }) by {
        crate::heartbeat_laws::requeueing_frees_the_cleanup((*fs)@.manager, worker@);
    }
}

/// The next step of a comparison: the job that waits is run where it is the
/// newest of the current process, else passed over; where none waits the
/// comparison is over.
pub proof fn comparisons_run_the_waiting_job(worker_id: u32, r: ReconcileStep)
    ensures
        forall|fs: &mut MasterFilesystem| #[trigger]
            call_ensures(MasterFilesystem::run_full_block_reconcile, (fs, worker_id), r) ==> {
                let s = (*fs)@;
                let waits = s.reconciles.contains_key(worker_id)
                    && s.reconciles[worker_id].pending is Some;
                let job = s.reconciles[worker_id].pending->0;
                let fit = job.generation == s.reconciles[worker_id].generation
                    && s.manager.accepts_report(worker_id, job.session);
                &&& r is Done <==> !waits
                &&& r is Skip <==> waits && !fit
                &&& r is Run <==> waits && fit
                &&& r matches ReconcileStep::Run(j) ==> j@ == job
                &&& waits ==> final(fs)@.reconciles.contains_key(worker_id) && final(fs)@.reconciles[worker_id].pending is None
                &&& !waits ==> !final(fs)@.reconciles.contains_key(worker_id)
            },
{
}

/// A comparison that succeeded ends, unless a newer inventory came: then that
/// is taken up. One that failed waits and stops. What lost a replica is
/// reported where it is to be replicated.
pub proof fn comparisons_end_or_go_on(
    worker_id: u32,
    job: FullBlockReconcileJob,
    ids: Vec<i64>,
    done: ReconcileEnd,
    outcome: Result<Vec<i64>, FsError>,
    now_ms: u64,
    next: ReconcileNext,
)
    ensures
        forall|fs: &mut MasterFilesystem| #[trigger]
            call_ensures(
                MasterFilesystem::complete_full_block_reconcile,
                (fs, worker_id, job, ids),
                done,
            ) ==> {
                let newest = (*fs)@.reconciles.contains_key(worker_id) && (
                *fs)@.reconciles[worker_id].generation == job.generation;
                &&& done is Superseded <==> !newest
                &&& done matches ReconcileEnd::Completed { replicate } ==> (job.replicate
                    ==> replicate@ == ids@) && (!job.replicate ==> replicate@.len() == 0)
                &&& newest ==> !final(fs)@.reconciles.contains_key(worker_id)
                &&& !newest ==> final(fs)@ == (*fs)@
            },
        forall|fs: &mut MasterFilesystem| #[trigger]
            call_ensures(
                MasterFilesystem::full_block_reconcile_ended,
                (fs, worker_id, job, outcome, now_ms),
                next,
            ) ==> {
                let newest = (*fs)@.reconciles.contains_key(worker_id) && (
                *fs)@.reconciles[worker_id].generation == job.generation;
                &&& next is Again <==> outcome is Ok && !newest
                &&& next is Report <==> outcome is Ok && newest && job.replicate
                    && outcome->Ok_0@.len() > 0
                &&& next matches ReconcileNext::Report(x) ==> x@ == outcome->Ok_0@
                &&& outcome is Err && (*fs)@.reconciles.contains_key(worker_id) ==> !final(fs)@.reconciles[worker_id].running
            },
{
}

/// The removal of a worker's locations goes through all of its blocks in
/// turn, at most 4096 at a time.
pub proof fn removals_take_every_block(r: Option<Vec<(bool, i64, BlockLocation)>>, i: int)
    ensures
        forall|task: &mut RemovalTask|
            (*task).removed <= (*task).block_ids@.len() && #[trigger] call_ensures(
                RemovalTask::next_batch,
                (task,),
                r,
            ) ==> {
                &&& r is None <==> (*task).removed == (*task).block_ids@.len()
                &&& final(task).block_ids == (*task).block_ids && final(task).worker_id
                    == (*task).worker_id
                &&& r matches Some(b) ==> {
                    &&& 0 < b@.len() <= 4096
                    &&& final(task).removed == (*task).removed + b@.len()
                    &&& 0 <= i < b@.len() ==> !b@[i].0 && b@[i].1 == (*task).block_ids@[i + (
                    *task).removed] && b@[i].2.worker_id == (*task).worker_id
                    &&& b@.len() < 4096 ==> final(task).removed == (*task).block_ids@.len()
                }
            },
{
}

/// The cleanup of a lost worker begins where the worker is away, with the
/// blocks that it is given; else nothing happens.
pub proof fn cleanups_begin_for_lost_workers(
    worker: WorkerInfo,
    ids: Vec<i64>,
    id: i64,
    r: Option<RemovalTask>,
)
    ensures
        forall|fs: &mut MasterFilesystem| #[trigger]
            call_ensures(
                MasterFilesystem::delete_lost_worker_locations,
                (fs, &worker, ids),
                r,
            ) ==> {
                let w = worker@.address.worker_id;
                let away = crate::heartbeat_laws::is_away((*fs)@.manager, worker@);
                &&& r is Some <==> away
                &&& !away ==> final(fs)@ == (*fs)@
                &&& r matches Some(t) ==> t.worker_id == w && t.block_ids == ids && t.removed == 0
                &&& away ==> final(fs)@.cleanups.contains_key(w) && (ids@.contains(id) ==> final(fs)@.cleanups[w].affected.contains(id))
            },
{
}

/// What a cleanup that is through reports: the blocks that it removed, each
/// once and in increasing order, and of these the ones whose data was not
/// discarded. The cleanup is not kept any longer.
pub proof fn finished_cleanups_report_their_blocks(
    task: InvalidationTask,
    r: LostWorkerLocationCleanup,
    id: i64,
)
    ensures
        forall|fs: &mut MasterFilesystem| #[trigger]
            call_ensures(MasterFilesystem::finish_invalidation, (fs, task), r) ==> {
                &&& r.removed_block_ids@.contains(id) <==> task.affected@.contains(id)
                &&& forall|i: int, j: int|
                    0 <= i < j < r.removed_block_ids@.len() ==> r.removed_block_ids@[i]
                        < r.removed_block_ids@[j]
                &&& r.replication_block_ids@ == r.removed_block_ids@.filter(
                    |b: i64| !task.invalidated@.contains(b),
                )
                &&& final(fs)@ == (FilesystemView {
                    cleanups: (*fs)@.cleanups.remove(task.worker_id),
                    ..(*fs)@
                })
            },
{
    crate::inventory_laws::stale_blocks_are_picked(r.removed_block_ids@, task.invalidated@);
    assert forall|fs: &mut MasterFilesystem| #[trigger]
        call_ensures(MasterFilesystem::finish_invalidation, (fs, task), r) implies (
    r.removed_block_ids@.contains(id) <==> task.affected@.contains(id)) by {
        assert(r.removed_block_ids@.to_set().contains(id) == task.affected@.contains(id));
    }
}

/// A file whose cached data is discarded holds no block afterwards; its blocks
/// are listed with the locations that are left of them, which are all where it
/// is overwritten, and those on other workers where one was lost. It loses its
/// length only where it is overwritten.
pub proof fn discarded_files_list_their_blocks(
    locs: Vec<(i64, Vec<BlockLocation>)>,
    worker_id: u32,
    overwrite: bool,
    i: int,
    r: DeleteResult,
)
    ensures
        forall|file: &mut InodeFile| #[trigger]
            call_ensures(
                crate::namespace::discard_cache,
                (file, &locs, worker_id, overwrite),
                r,
            ) ==> {
                &&& final(file).blocks@.len() == 0
                &&& overwrite ==> final(file).len == 0
                &&& !overwrite ==> final(file).len == (*file).len
                &&& final(file).id == (*file).id && final(file).replicas == (*file).replicas
                    && final(file).block_size == (*file).block_size
                &&& r.blocks@.len() == (*file).blocks@.len()
                &&& 0 <= i < r.blocks@.len() ==> {
                    let known = crate::namespace::recorded(locs@, (*file).blocks@[i].id);
                    &&& r.blocks@[i].0 == (*file).blocks@[i].id
                    &&& known is None ==> r.blocks@[i].1@.len() == 0
                    &&& known is Some && overwrite ==> r.blocks@[i].1@ == known->0
                    &&& known is Some && !overwrite ==> r.blocks@[i].1@ == known->0.filter(
                        |l: BlockLocation| l.worker_id != worker_id,
                    )
                }
            },
{
    assert forall|file: &mut InodeFile| #[trigger]
        call_ensures(
            crate::namespace::discard_cache,
            (file, &locs, worker_id, overwrite),
            r,
        ) && 0 <= i < r.blocks@.len() implies ({
        let known = crate::namespace::recorded(locs@, (*file).blocks@[i].id);
        &&& r.blocks@[i].0 == (*file).blocks@[i].id
        &&& known is None ==> r.blocks@[i].1@.len() == 0
        &&& known is Some && overwrite ==> r.blocks@[i].1@ == known->0
        &&& known is Some && !overwrite ==> r.blocks@[i].1@ == known->0.filter(
            |l: BlockLocation| l.worker_id != worker_id,
        )
    }) by {
        let known = crate::namespace::recorded(locs@, (*file).blocks@[i].id);
        crate::placement_laws::other_locations_are_left(
            locs@,
            (*file).blocks@[i].id,
            known->0,
            worker_id,
        );
    }
}

/// A deletion queues each replica that it lists on the worker that has it and
/// hands out what it counted.
pub proof fn deleted_files_queue_their_replicas(
    d: DeleteResult,
    r: DeleteResult,
    i: int,
    j: int,
    w: u32,
    id: i64,
)
    ensures
        forall|fs: &mut MasterFilesystem| #[trigger]
            call_ensures(MasterFilesystem::delete, (fs, d), r) ==> {
                let after = final(fs)@.manager.deletes;
                &&& r.inodes == d.inodes && r.bytes == d.bytes && r.blocks@.len() == 0
                &&& 0 <= i < d.blocks@.len() && 0 <= j < d.blocks@[i].1@.len() ==> after.contains(
                    (d.blocks@[i].1@[j].worker_id, d.blocks@[i].0),
                )
                &&& (*fs)@.manager.deletes.contains((w, id)) ==> after.contains((w, id))
                &&& after.contains((w, id)) ==> (*fs)@.manager.deletes.contains((w, id))
                    || d.replicas().contains((w, id))
                &&& final(fs)@.manager.workers == (*fs)@.manager.workers
                &&& final(fs)@.cleanups == (*fs)@.cleanups && final(fs)@.reports == (*fs)@.reports
            },
{
    crate::placement_laws::listed_replicas_are_queued(d, i, j, (w, id));
}

/// A block that is to be deleted on a worker is queued for it, and one that
/// the worker has deleted is not any more; nothing else changes.
pub proof fn deletions_are_queued_and_taken_off(worker_id: u32, block_id: i64, w: u32, id: i64)
    ensures
        forall|wm: &mut WorkerManager| #[trigger]
            call_ensures(WorkerManager::remove_block, (wm, worker_id, block_id), ()) ==> {
                &&& final(wm)@.deletes.contains((w, id)) <==> (*wm)@.deletes.contains((w, id)) || w
                    == worker_id && id == block_id
                &&& final(wm)@ == (ManagerView { deletes: final(wm)@.deletes, ..(*wm)@ })
            },
        forall|wm: &mut WorkerManager| #[trigger]
            call_ensures(WorkerManager::deleted_block, (wm, worker_id, block_id), ()) ==> {
                &&& final(wm)@.deletes.contains((w, id)) <==> (*wm)@.deletes.contains((w, id)) && !(
                w == worker_id && id == block_id)
                &&& final(wm)@ == (ManagerView { deletes: final(wm)@.deletes, ..(*wm)@ })
            },
{
}

/// What one part of a discarded cache lists is added to what others listed.
pub proof fn discarded_parts_add_up(other: CacheInvalidationResult, id: i64)
    ensures
        forall|a: &mut CacheInvalidationResult| #[trigger]
            call_ensures(CacheInvalidationResult::extend, (a, other), ()) ==> {
                let x = (*a).delete_result;
                let y = other.delete_result;
                let z = final(a).delete_result;
                &&& final(a).invalidated_block_ids@.contains(id) <==> (
                *a).invalidated_block_ids@.contains(id) || other.invalidated_block_ids@.contains(id)
                &&& z.blocks@ == x.blocks@ + y.blocks@
                &&& crate::placement_laws::is_clamped(z.inodes, x.inodes + y.inodes)
                &&& crate::placement_laws::is_clamped(z.bytes, x.bytes + y.bytes)
            },
{
}

/// The counts of a report grow by what each chunk has, and its lines follow
/// those of the chunks before.
pub proof fn diagnostics_add_up(chunk: Vec<BlockReportInfo>, owners: Vec<BlockOwner>)
    ensures
        forall|d: &mut BlockReportDiagnostics|
            chunk@.len() == owners@.len() && #[trigger] call_ensures(
                BlockReportDiagnostics::observe,
                (d, &chunk, &owners),
                (),
            ) ==> {
                let n = |o: BlockOwner|
                    crate::report_diagnostics::to_delete((*d).full_report, chunk@, owners@, o);
                &&& (*d).missing + n(BlockOwner::Missing) <= u64::MAX ==> final(d).missing == (
                *d).missing + n(BlockOwner::Missing)
                &&& (*d).non_file + n(BlockOwner::NotFile) <= u64::MAX ==> final(d).non_file == (
                *d).non_file + n(BlockOwner::NotFile)
                &&& (*d).obsolete + n(BlockOwner::File { holds: false }) <= u64::MAX ==> final(d).obsolete == (*d).obsolete + n(BlockOwner::File { holds: false })
                &&& final(d).worker_id == (*d).worker_id && final(d).full_report == (*d).full_report
                &&& final(d).deferred@.len() >= (*d).deferred@.len()
            },
{
    assert forall|d: &mut BlockReportDiagnostics|
        chunk@.len() == owners@.len() && #[trigger] call_ensures(
            BlockReportDiagnostics::observe,
            (d, &chunk, &owners),
            (),
        ) implies final(d).deferred@.len() >= (*d).deferred@.len() by {
        assert(crate::report_diagnostics::texts(final(d).deferred@).len() == final(d).deferred@.len());
        assert(crate::report_diagnostics::texts((*d).deferred@).len() == (*d).deferred@.len());
    }
}

/// A heartbeat that the master takes in leaves the manager as the heartbeat
/// makes it; a worker that has to wait, or is refused, leaves no trace.
pub proof fn refused_workers_leave_no_trace(
    header: WorkerHeartbeatRequest,
    now_ms: u64,
    r: Result<Vec<WorkerCommand>, FsError>,
)
    ensures
        forall|fs: &mut MasterFilesystem| #[trigger]
            call_ensures(
                MasterHandler::process_worker_heartbeat,
                (fs, header, now_ms),
                r,
            ) ==> {
                let s = (*fs)@;
                let reg = header.registration();
                let waits = header.status == HeartbeatStatus::Running && header.cluster_id@
                    == s.manager.cluster_id && s.cleanups.contains_key(header.address.worker_id)
                    && crate::heartbeat_laws::may_be_live(s.manager, reg);
                &&& r is Err ==> final(fs)@ == s
                &&& waits ==> (r matches Err(FsError::CleanupPending { address }) && address@
                    == header.address@)
                &&& r is Ok ==> header.cluster_id@ == s.manager.cluster_id
                &&& r is Ok ==> final(fs)@.cleanups == s.cleanups && final(fs)@.conf == s.conf
                &&& header.cluster_id@ != s.manager.cluster_id ==> (r matches Err(
                    FsError::ClusterMismatch { expected, actual },
                ) && expected@ == s.manager.cluster_id && actual@ == header.cluster_id@)
            },
{
    assert forall|fs: &mut MasterFilesystem| #[trigger]
        call_ensures(MasterHandler::process_worker_heartbeat, (fs, header, now_ms), r) implies ({
        let s = (*fs)@;
        let reg = header.registration();
        let waits = header.status == HeartbeatStatus::Running && header.cluster_id@
            == s.manager.cluster_id && s.cleanups.contains_key(header.address.worker_id)
            && crate::heartbeat_laws::may_be_live(s.manager, reg);
        &&& r is Err ==> final(fs)@ == s
        &&& waits ==> (r matches Err(FsError::CleanupPending { address }) && address@
            == header.address@)
        &&& r is Ok ==> header.cluster_id@ == s.manager.cluster_id
        &&& r is Ok ==> final(fs)@.cleanups == s.cleanups && final(fs)@.conf == s.conf
        &&& header.cluster_id@ != s.manager.cluster_id ==> (r matches Err(
            FsError::ClusterMismatch { expected, actual },
        ) && expected@ == s.manager.cluster_id && actual@ == header.cluster_id@)
    }) by {
        let s = (*fs)@;
        let reg = header.registration();
        crate::heartbeat_laws::running_is_ignored_refused_or_taken_in(s.manager, reg, now_ms);
        crate::heartbeat_laws::heartbeat_goes_by_its_kind(
            s.manager,
            header.cluster_id@,
            reg,
            now_ms,
        );
    }
}

/// A peer is let in unless the policy refuses it; a refused peer is told why.
pub proof fn peers_are_let_in_or_told_why(
    peer: &str,
    key: &str,
    mode: CompatibilityMode,
    v: CompatibilityVerdict,
    other: Seq<char>,
    r: CompatibilityCheck,
)
    ensures
        forall|warned: &mut DashMap<String, CompatibilityVerdict>| #[trigger]
            call_ensures(
                crate::compatibility::check_peer_compatibility,
                (peer, key, warned, mode, v),
                r,
            ) ==> {
                let refused = mode == CompatibilityMode::Enforce && v@ != VerdictView::Compatible;
                let before = crate::compatibility::verdicts_in(*warned);
                let after = crate::compatibility::verdicts_in(*final(warned));
                let known = before.contains_key(key@) && before[key@] == v@;
                &&& r.result is Err <==> refused
                &&& r.result matches Err(e) ==> (e matches FsError::PeerRejected {
                    peer: p,
                    detail,
                } && p@ == peer@ && detail@ == v@.description())
                &&& r.rejected_label is Some <==> refused
                &&& r.warning is Some <==> !refused && v@ != VerdictView::Compatible && !known
                &&& refused ==> after == before
                &&& v@ == VerdictView::Compatible ==> !after.contains_key(key@)
                &&& !refused && v@ != VerdictView::Compatible ==> after.contains_key(key@)
                    && after[key@] == v@
                &&& other != key@ ==> after.contains_key(other) == before.contains_key(other)
            },
{
}

/// A worker that the policy refuses is told so and leaves no trace; one that
/// is not looked at, or is let in, is answered as any heartbeat.
pub proof fn incompatible_workers_leave_no_trace(
    header: WorkerHeartbeatRequest,
    v: CompatibilityVerdict,
    now_ms: u64,
    r: HeartbeatReply,
)
    ensures
        forall|h: &mut MasterHandler, fs: &mut MasterFilesystem| #[trigger]
            call_ensures(MasterHandler::worker_heartbeat, (h, fs, header, v, now_ms), r) ==> {
                let p = (*h).compatibility_policy;
                let looked = p.mode == CompatibilityMode::Enforce || p.has_bounds
                    || header.component_info is Some;
                let refused = p.mode == CompatibilityMode::Enforce && v@ != VerdictView::Compatible;
                &&& final(h).compatibility_policy == p
                &&& r.check is Some <==> looked
                &&& refused ==> final(fs)@ == (*fs)@ && (r.result matches Err(
                    FsError::PeerRejected { peer, detail },
                ) && peer@ == "worker"@ && detail@ == v@.description())
                &&& !refused && r.result is Err ==> final(fs)@ == (*fs)@
                &&& !looked ==> crate::compatibility::verdicts_in(final(h).compat_warned)
                    == crate::compatibility::verdicts_in((*h).compat_warned)
            },
{
}

/// A client is looked at where it matters, by its own address, and refused
/// where the policy refuses it.
pub proof fn clients_are_looked_at_where_it_matters(
    ip: &str,
    has_info: bool,
    v: CompatibilityVerdict,
    r: Option<CompatibilityCheck>,
)
    ensures
        forall|h: &mut MasterHandler| #[trigger]
            call_ensures(MasterHandler::check_client, (h, ip, has_info, v), r) ==> {
                let p = (*h).compatibility_policy;
                let refused = p.mode == CompatibilityMode::Enforce && v@ != VerdictView::Compatible;
                &&& final(h).compatibility_policy == p
                &&& r is Some <==> p.mode == CompatibilityMode::Enforce || p.has_bounds || has_info
                &&& r matches Some(c) ==> (c.result is Err <==> refused)
                &&& r is Some && refused ==> (r->0.result matches Err(
                    FsError::PeerRejected { peer, detail },
                ) && peer@ == "client"@ && detail@ == v@.description())
                &&& r is None ==> crate::compatibility::verdicts_in(final(h).compat_warned)
                    == crate::compatibility::verdicts_in((*h).compat_warned)
            },
{
}

/// A complete inventory is queued in place of one that waits, under a new
/// generation; a comparison is to be begun where none runs.
pub proof fn inventories_are_queued_anew(
    worker_id: u32,
    session: String,
    reported: BlockIds,
    replicate: bool,
    r: bool,
)
    ensures
        forall|fs: &mut MasterFilesystem| #[trigger]
            call_ensures(
                MasterFilesystem::submit_full_block_reconcile,
                (fs, worker_id, session, reported, replicate),
                r,
            ) ==> {
                let known = (*fs)@.reconciles.contains_key(worker_id);
                let was = (*fs)@.reconciles[worker_id];
                let now = final(fs)@.reconciles[worker_id];
                &&& r <==> !(known && was.running)
                &&& final(fs)@.reconciles.contains_key(worker_id)
                &&& now.running && now.retry_at_ms == 0
                &&& known && was.generation < u64::MAX ==> now.generation == was.generation + 1
                &&& known && was.generation == u64::MAX ==> now.generation == u64::MAX
                &&& !known ==> now.generation == 1
                &&& now.pending matches Some(j) ==> j.generation == now.generation && j.reported
                    == reported@ && j.session == session@ && j.replicate == replicate
                &&& now.pending is Some
                &&& final(fs)@.reports == (*fs)@.reports && final(fs)@.manager == (*fs)@.manager
            },
{
}

/// An inventory is handed out once it is complete, and holds what its chunks
/// and the changes since amount to.
pub proof fn complete_inventories_are_handed_out(
    worker_id: u32,
    full_report: bool,
    total_len: u64,
    blocks: Vec<BlockReportInfo>,
    now_ms: u64,
    r: Option<BlockIds>,
    id: i64,
)
    ensures
        forall|fs: &mut MasterFilesystem| #[trigger]
            call_ensures(
                MasterFilesystem::collect_full_block_report,
                (fs, worker_id, full_report, total_len, &blocks, now_ms),
                r,
            ) ==> {
                let s = (*fs)@;
                let was = s.reports[worker_id];
                let on = crate::inventory_laws::goes_on(s, worker_id, total_len, now_ms);
                &&& !full_report ==> r is None && final(fs)@ == s
                &&& full_report ==> (final(fs)@.reports.contains_key(worker_id) <==> r is None)
                &&& r is Some && on && was.incremental.contains_key(id) ==> r->0@.contains(id)
                    == was.incremental[id]
                &&& r is Some && !(on && was.incremental.contains_key(id)) ==> (
                r->0@.contains(id) <==> (!crate::inventory_laws::is_silent_on(blocks@, id) || on
                    && was.reported.contains(id)) && !(crate::inventory_laws::tells_deletion(
                    blocks@,
                    id,
                ) || on && was.deleted.contains(id)))
                &&& final(fs)@.reconciles == s.reconciles && final(fs)@.manager == s.manager
            },
{
    assert forall|fs: &mut MasterFilesystem| #[trigger]
        call_ensures(
            MasterFilesystem::collect_full_block_report,
            (fs, worker_id, full_report, total_len, &blocks, now_ms),
            r,
        ) implies ({
        let s = (*fs)@;
        let was = s.reports[worker_id];
        let on = crate::inventory_laws::goes_on(s, worker_id, total_len, now_ms);
        &&& !full_report ==> r is None && final(fs)@ == s
        &&& full_report ==> (final(fs)@.reports.contains_key(worker_id) <==> r is None)
        &&& r is Some && on && was.incremental.contains_key(id) ==> r->0@.contains(id)
            == was.incremental[id]
        &&& r is Some && !(on && was.incremental.contains_key(id)) ==> (r->0@.contains(id)
            <==> (!crate::inventory_laws::is_silent_on(blocks@, id) || on && was.reported.contains(
            id,
        )) && !(crate::inventory_laws::tells_deletion(blocks@, id) || on && was.deleted.contains(
            id,
        )))
        &&& final(fs)@.reconciles == s.reconciles && final(fs)@.manager == s.manager
    }) by {
        crate::inventory_laws::chunk_adds_to_its_inventory(
            (*fs)@,
            worker_id,
            total_len,
            blocks@,
            now_ms,
            id,
        );
        crate::inventory_laws::inventory_weighs_chunks_and_changes(
            (*fs)@.inventory_with_chunk(worker_id, total_len, blocks@, now_ms),
            id,
        );
    }
}

/// A departure is scheduled for cleanup once, as long as the worker is away.
pub proof fn departures_are_scheduled_once(worker: WorkerInfo, deadline_ms: u64, in_flight: bool)
    ensures
        forall|wm: &mut WorkerManager| #[trigger]
            call_ensures(
                WorkerManager::schedule_offline_worker,
                (wm, worker, deadline_ms, in_flight),
                (),
            ) ==> {
                let id = worker@.address.worker_id;
                let away = crate::heartbeat_laws::is_away((*wm)@, worker@);
                let known = (*wm)@.offline.contains_key(id)
                    && crate::heartbeat_laws::departed_together(
                    (*wm)@.offline[id].worker,
                    worker@,
                );
                &&& !away || known ==> final(wm)@ == (*wm)@
                &&& away && !known ==> final(wm)@ == (ManagerView {
                    offline: (*wm)@.offline.insert(
                        id,
                        crate::manager_model::OfflineView {
                            worker: worker@,
                            deadline_ms,
                            in_flight,
                        },
                    ),
                    ..(*wm)@
                })
            },
{
}

/// A live worker that is taken out of the map is remembered as lost; one that
/// registers is live and not lost any more, unless its id lives elsewhere.
pub proof fn the_map_keeps_live_and_lost_apart(
    id: u32,
    out: Option<WorkerInfo>,
    reg: Registration,
    now_ms: u64,
    r: Result<(), FsError>,
)
    ensures
        forall|m: &mut WorkerMap| #[trigger]
            call_ensures(WorkerMap::remove_offline, (m, id), out) ==> {
                let live = (*m)@.workers.contains_key(id);
                &&& out is Some <==> live
                &&& !final(m)@.workers.contains_key(id)
                &&& live ==> final(m)@.lost.contains_key(id) && final(m)@.lost[id] == (WorkerView {
                    status: WorkerStatus::Lost,
                    ..(*m)@.workers[id]
                }) && out->0@ == final(m)@.lost[id]
            },
        forall|m: &mut WorkerMap| #[trigger]
            call_ensures(WorkerMap::insert, (m, reg, now_ms), r) ==> {
                let w = reg.address.worker_id;
                let elsewhere = (*m)@.workers.contains_key(w) && !(
                (*m)@.workers[w].address.hostname == reg.address.hostname@ && (
                *m)@.workers[w].address.rpc_port == reg.address.rpc_port);
                &&& r is Err <==> elsewhere
                &&& elsewhere ==> final(m)@ == (*m)@ && r == Err::<(), FsError>(
                    FsError::WorkerIdConflict { worker_id: w },
                )
                &&& !elsewhere ==> final(m)@.workers.contains_key(w) && final(m)@.workers[w].address == reg.address@ && final(m)@.workers[w].last_update == now_ms
                    && !final(m)@.lost.contains_key(w)
            },
{
    assert forall|m: &mut WorkerMap| #[trigger]
        call_ensures(WorkerMap::insert, (m, reg, now_ms), r) implies ({
        let w = reg.address.worker_id;
        let elsewhere = (*m)@.workers.contains_key(w) && !((*m)@.workers[w].address.hostname
            == reg.address.hostname@ && (*m)@.workers[w].address.rpc_port
            == reg.address.rpc_port);
        &&& r is Err <==> elsewhere
        &&& elsewhere ==> final(m)@ == (*m)@ && r == Err::<(), FsError>(
            FsError::WorkerIdConflict { worker_id: w },
        )
        &&& !elsewhere ==> final(m)@.workers.contains_key(w) && final(m)@.workers[w].address
            == reg.address@ && final(m)@.workers[w].last_update == now_ms
            && !final(m)@.lost.contains_key(w)
    }) by {
        let status = (*m)@.status_on_insert(reg.address.worker_id);
        crate::heartbeat_laws::registered_worker(reg@, now_ms, status);
    }
}

/// A hold is taken by the worker that it was installed for, with its ticket,
/// and by no other.
pub proof fn holds_are_taken_by_their_worker(
    worker_id: u32,
    k: u32,
    r: Option<ReconcileCompletionHook>,
)
    ensures
        forall|h: &mut ReconcileCompletionHooks| #[trigger]
            call_ensures(
                crate::completion_hooks::pause_completed_reconcile_for_test,
                (h, worker_id),
                r,
            ) ==> {
                &&& r is Some <==> (*h).hooks@.contains_key(worker_id)
                &&& r matches Some(x) ==> x.ticket == (*h).hooks@[worker_id]
                &&& !final(h).hooks@.contains_key(worker_id)
                &&& k != worker_id ==> final(h).hooks@.contains_key(k) == (
                *h).hooks@.contains_key(k)
            },
{
}

/// A cleanup that went through is not scheduled any more, one that failed
/// stays scheduled, and one that was not begun has nothing to report.
pub proof fn ended_cleanups_are_not_scheduled(
    worker: WorkerInfo,
    outcome: Option<Result<LostWorkerLocationCleanup, FsError>>,
    r: Result<LostWorkerLocationCleanup, FsError>,
)
    ensures
        forall|fs: &mut MasterFilesystem| #[trigger]
            call_ensures(
                MasterFilesystem::lost_worker_cleanup_ended,
                (fs, &worker, outcome),
                r,
            ) ==> {
                let id = worker@.address.worker_id;
                let m = (*fs)@.manager;
                let scheduled = m.offline.contains_key(id)
                    && crate::heartbeat_laws::departed_together(m.offline[id].worker, worker@);
                &&& outcome matches Some(x) ==> r == x
                &&& outcome is None ==> r is Ok && r->Ok_0.removed_block_ids@.len() == 0
                    && r->Ok_0.replication_block_ids@.len() == 0
                &&& outcome is Some && outcome->0 is Ok && scheduled ==> !final(fs)@.manager.offline.contains_key(id)
                &&& !(outcome is Some && outcome->0 is Ok && scheduled) ==> final(fs)@ == (*fs)@
            },
{
}

/// The blocks whose data may be discarded are those that the worker had and
/// those that an earlier attempt left, each once and in increasing order.
pub proof fn discarding_looks_at_all_blocks(
    fs: MasterFilesystem,
    worker_id: u32,
    r: InvalidationTask,
    pending: bool,
    id: i64,
)
    requires
        call_ensures(MasterFilesystem::invalidate_lost_worker_cache, (&fs, worker_id), r),
        call_ensures(MasterFilesystem::has_pending_worker_cleanup, (&fs, worker_id), pending),
    ensures
        pending <==> fs@.cleanups.contains_key(worker_id),
        r.worker_id == worker_id && r.inspected == 0,
        r.affected@ == fs@.cleanups[worker_id].affected,
        r.invalidated@ == fs@.cleanups[worker_id].invalidated,
        r.block_ids@.contains(id) <==> fs@.cleanups[worker_id].affected.contains(id)
            || fs@.cleanups[worker_id].invalidation.contains(id),
        forall|i: int, j: int|
            0 <= i < j < r.block_ids@.len() ==> r.block_ids@[i] < r.block_ids@[j],
{
    assert(r.block_ids@.to_set().contains(id) == r.block_ids@.contains(id));
}

/// Once the data of a chunk is discarded, its replicas are queued for deletion
/// and, on the lost worker, the discarded blocks that the worker had; the task
/// goes on behind the chunk and keeps what was discarded.
pub proof fn discarded_chunks_are_queued(result: CacheInvalidationResult, w: u32, id: i64)
    ensures
        forall|fs: &mut MasterFilesystem, task: &mut InvalidationTask|
            (*task).inspected <= (*task).block_ids@.len() && #[trigger] call_ensures(
                MasterFilesystem::invalidation_chunk_applied,
                (fs, task, result),
                (),
            ) ==> {
                let gone = result.invalidated_block_ids@;
                let after = final(fs)@.manager.deletes;
                &&& after.contains((w, id)) <==> {
                    ||| (*fs)@.manager.deletes.contains((w, id))
                    ||| result.delete_result.replicas().contains((w, id))
                    ||| w == (*task).worker_id && gone.contains(id) && (*task).affected@.contains(
                        id,
                    )
                }
                &&& final(task).invalidated@.contains(id) <==> (*task).invalidated@.contains(id)
                    || gone.contains(id)
                &&& final(task).affected@ == (*task).affected@ && final(task).block_ids
                    == (*task).block_ids && final(task).worker_id == (*task).worker_id
                &&& (*task).inspected <= final(task).inspected <= (*task).block_ids@.len()
                &&& final(task).inspected - (*task).inspected <= 4096
                &&& final(task).inspected - (*task).inspected < 4096 ==> final(task).inspected
                    == (*task).block_ids@.len()
            },
{
    assert forall|fs: &mut MasterFilesystem, task: &mut InvalidationTask|
        (*task).inspected <= (*task).block_ids@.len() && #[trigger] call_ensures(
            MasterFilesystem::invalidation_chunk_applied,
            (fs, task, result),
            (),
        ) implies (final(fs)@.manager.deletes.contains((w, id)) <==> {
        ||| (*fs)@.manager.deletes.contains((w, id))
        ||| result.delete_result.replicas().contains((w, id))
        ||| w == (*task).worker_id && result.invalidated_block_ids@.contains(id) && (
        *task).affected@.contains(id)
    }) by {
        crate::inventory_laws::discarded_blocks_are_queued(
            (*fs)@,
            (*task).worker_id,
            (*task).affected@,
            result.invalidated_block_ids@,
            result.delete_result.replicas(),
            w,
            id,
        );
    }
}

/// A pass ends with the workers that it removed and those whose grace has run
/// out.
pub proof fn passes_end_with_what_is_due(
    c: HeartbeatChecker,
    removed: Vec<WorkerInfo>,
    now_ms: u64,
    r: Vec<WorkerInfo>,
    i: int,
    k: u32,
)
    ensures
        forall|fs: &mut MasterFilesystem| #[trigger]
            call_ensures(HeartbeatChecker::due_cleanups, (&c, fs, removed, now_ms), r) ==> {
                let m = (*fs)@.manager;
                let due = m.offline.contains_key(k) && !m.offline[k].in_flight
                    && m.offline[k].deadline_ms <= now_ms;
                &&& 0 <= i < removed@.len() ==> r@.len() > i && r@[i]@ == removed@[i]@
                &&& due ==> crate::worker_map::workers_of(r@).contains(m.offline[k].worker)
                &&& due ==> final(fs)@.manager.offline[k].in_flight
            },
{
    assert forall|fs: &mut MasterFilesystem| #[trigger]
        call_ensures(HeartbeatChecker::due_cleanups, (&c, fs, removed, now_ms), r) implies ({
        let m = (*fs)@.manager;
        let due = m.offline.contains_key(k) && !m.offline[k].in_flight && m.offline[k].deadline_ms
            <= now_ms;
        &&& 0 <= i < removed@.len() ==> r@.len() > i && r@[i]@ == removed@[i]@
        &&& due ==> crate::worker_map::workers_of(r@).contains(m.offline[k].worker)
        &&& due ==> final(fs)@.manager.offline[k].in_flight
    }) by {
        let m = (*fs)@.manager;
        let early = crate::worker_map::workers_of(removed@);
        let ids = crate::ids::workers_in_order(m.due(now_ms));
        let all = crate::worker_map::workers_of(r@);
        assert(all.len() == r@.len());
        assert(early.len() == removed@.len());
        if 0 <= i < removed@.len() {
            assert(all[i] == early[i]);
            assert(all[i] == r@[i]@);
        }
        if m.due(now_ms).contains(k) {
            assert(ids.to_set().contains(k));
            let j = choose|j: int| 0 <= j < ids.len() && ids[j] == k;
            assert(all[early.len() + j] == m.offline[k].worker);
        }
        crate::heartbeat_laws::due_cleanups_are_handed_out(m, now_ms, k);
    }
}

/// The removal of a worker's locations begins with all of the blocks that it
/// is given, which the cleanup of the worker keeps.
pub proof fn removals_begin_with_their_blocks(
    worker_id: u32,
    ids: Vec<i64>,
    id: i64,
    r: RemovalTask,
)
    ensures
        forall|fs: &mut MasterFilesystem|
            #[trigger] call_ensures(
                MasterFilesystem::cleanup_worker_locations,
                (fs, worker_id, ids),
                r,
            ) ==> {
                &&& r.worker_id == worker_id && r.block_ids == ids && r.removed == 0
                &&& final(fs)@.cleanups.contains_key(worker_id)
                &&& ids@.contains(id) ==> final(fs)@.cleanups[worker_id].affected.contains(id)
            },
        forall|fs: &mut MasterFilesystem|
            #[trigger] call_ensures(
                MasterFilesystem::delete_locations,
                (fs, worker_id, ids),
                r,
            ) ==> {
                &&& r.worker_id == worker_id && r.block_ids == ids && r.removed == 0
                &&& final(fs)@.cleanups.contains_key(worker_id)
                &&& ids@.contains(id) ==> final(fs)@.cleanups[worker_id].affected.contains(id)
            },
{
}

/// A failed cleanup is free to be handed out again, a finished one is not
/// scheduled, and a late report gives a worker that is away the whole grace.
pub proof fn scheduled_cleanups_come_and_go(worker: WorkerInfo, worker_id: u32, now_ms: u64)
    ensures
        forall|wm: &mut WorkerManager| #[trigger]
            call_ensures(WorkerManager::queue_offline_worker, (wm, worker), ()) ==> {
                let id = worker@.address.worker_id;
                let away = crate::heartbeat_laws::is_away((*wm)@, worker@);
                &&& !away ==> final(wm)@ == (*wm)@
                &&& away ==> final(wm)@.offline.contains_key(id) && !final(wm)@.offline[id].in_flight
                &&& final(wm)@ == (ManagerView { offline: final(wm)@.offline, ..(*wm)@ })
            },
        forall|wm: &mut WorkerManager| #[trigger]
            call_ensures(WorkerManager::finish_offline_worker_cleanup, (wm, &worker), ()) ==> {
                let id = worker@.address.worker_id;
                let scheduled = (*wm)@.offline.contains_key(id)
                    && crate::heartbeat_laws::departed_together(
                    (*wm)@.offline[id].worker,
                    worker@,
                );
                &&& scheduled ==> !final(wm)@.offline.contains_key(id)
                &&& !scheduled ==> final(wm)@ == (*wm)@
                &&& final(wm)@ == (ManagerView { offline: final(wm)@.offline, ..(*wm)@ })
            },
        forall|wm: &mut WorkerManager|
            (*wm)@.wf() && #[trigger] call_ensures(
                WorkerManager::ensure_report_cleanup,
                (wm, worker_id, now_ms),
                (),
            ) ==> {
                let away = !(*wm)@.workers.contains_key(worker_id) && (*wm)@.lost.contains_key(
                    worker_id,
                );
                let grace = now_ms + (*wm)@.worker_lost_interval_ms;
                &&& !away ==> final(wm)@ == (*wm)@
                &&& away ==> final(wm)@.offline.contains_key(worker_id)
                &&& away && !(*wm)@.offline.contains_key(worker_id) && grace <= u64::MAX ==> final(wm)@.offline[worker_id].deadline_ms == grace
            },
{
    assert forall|wm: &mut WorkerManager| #[trigger]
        call_ensures(WorkerManager::queue_offline_worker, (wm, worker), ()) implies ({
        let id = worker@.address.worker_id;
        let away = crate::heartbeat_laws::is_away((*wm)@, worker@);
        &&& !away ==> final(wm)@ == (*wm)@
        &&& away ==> final(wm)@.offline.contains_key(id) && !final(wm)@.offline[id].in_flight
        &&& final(wm)@ == (ManagerView { offline: final(wm)@.offline, ..(*wm)@ })
    }) by {
        crate::heartbeat_laws::requeueing_frees_the_cleanup((*wm)@, worker@);
    }
    assert forall|wm: &mut WorkerManager|
        (*wm)@.wf() && #[trigger] call_ensures(
            WorkerManager::ensure_report_cleanup,
            (wm, worker_id, now_ms),
            (),
        ) implies ({
        let away = !(*wm)@.workers.contains_key(worker_id) && (*wm)@.lost.contains_key(worker_id);
        let grace = now_ms + (*wm)@.worker_lost_interval_ms;
        &&& !away ==> final(wm)@ == (*wm)@
        &&& away ==> final(wm)@.offline.contains_key(worker_id)
        &&& away && !(*wm)@.offline.contains_key(worker_id) && grace <= u64::MAX ==> final(wm)@.offline[worker_id].deadline_ms == grace
    }) by {
        crate::heartbeat_laws::late_report_gives_a_whole_grace((*wm)@, worker_id, now_ms);
    }
}

/// The complete report of the process that recovers completes its recovery,
/// and nothing else.
pub proof fn complete_reports_complete_recoveries(worker_id: u32, session: &str, k: u32)
    ensures
        forall|wm: &mut WorkerManager| #[trigger]
            call_ensures(
                WorkerManager::complete_worker_block_report,
                (wm, worker_id, session),
                (),
            ) ==> {
                let known = (*wm)@.recovering.contains_key(worker_id);
                let was = (*wm)@.recovering[worker_id];
                let counts = known && !was.ended && (session@.len() == 0 || session@
                    == was.session_id);
                &&& counts ==> final(wm)@.recovering[worker_id].report_complete
                &&& !counts ==> final(wm)@ == (*wm)@
                &&& k != worker_id && (*wm)@.recovering.contains_key(k) ==> final(wm)@.recovering[k] == (*wm)@.recovering[k]
                &&& final(wm)@ == (ManagerView { recovering: final(wm)@.recovering, ..(*wm)@ })
            },
{
    assert forall|wm: &mut WorkerManager| #[trigger]
        call_ensures(
            WorkerManager::complete_worker_block_report,
            (wm, worker_id, session),
            (),
        ) implies ({
        let known = (*wm)@.recovering.contains_key(worker_id);
        let was = (*wm)@.recovering[worker_id];
        let counts = known && !was.ended && (session@.len() == 0 || session@ == was.session_id);
        &&& counts ==> final(wm)@.recovering[worker_id].report_complete
        &&& !counts ==> final(wm)@ == (*wm)@
        &&& k != worker_id && (*wm)@.recovering.contains_key(k) ==> final(wm)@.recovering[k]
            == (*wm)@.recovering[k]
        &&& final(wm)@ == (ManagerView { recovering: final(wm)@.recovering, ..(*wm)@ })
    }) by {
        crate::heartbeat_laws::reports_come_from_the_current_process(
            (*wm)@,
            worker_id,
            session@,
        );
    }
}

/// Changes reach the inventories of their worker: of a block that they speak
/// of, the last word counts.
pub proof fn merged_changes_have_the_last_word(
    worker_id: u32,
    blocks: Vec<BlockReportInfo>,
    now_ms: u64,
    i: int,
    id: i64,
)
    ensures
        crate::inventory_laws::is_last_word(blocks@, i, id) ==> forall|fs: &mut MasterFilesystem|
         #[trigger]
            call_ensures(
                MasterFilesystem::merge_incremental_block_report,
                (fs, worker_id, &blocks, now_ms),
                (),
            ) ==> {
                let there = blocks@[i].status != BlockReportStatus::Deleted;
                let s = (*fs)@;
                let t = final(fs)@;
                &&& s.reports.contains_key(worker_id) ==> t.reports.contains_key(worker_id)
                    && t.reports[worker_id].incremental.contains_key(id)
                    && t.reports[worker_id].incremental[id] == there
                &&& s.reconciles.contains_key(worker_id)
                    && s.reconciles[worker_id].pending is Some
                    ==> t.reconciles[worker_id].pending is Some
                    && t.reconciles[worker_id].pending->0.reported.contains(id) == there
                &&& t.manager == s.manager && t.cleanups == s.cleanups
            },
{
    if crate::inventory_laws::is_last_word(blocks@, i, id) {
        assert forall|fs: &mut MasterFilesystem| #[trigger]
            call_ensures(
                MasterFilesystem::merge_incremental_block_report,
                (fs, worker_id, &blocks, now_ms),
                (),
            ) implies ({
            let there = blocks@[i].status != BlockReportStatus::Deleted;
            let s = (*fs)@;
            let t = final(fs)@;
            &&& s.reports.contains_key(worker_id) ==> t.reports.contains_key(worker_id)
                && t.reports[worker_id].incremental.contains_key(id)
                && t.reports[worker_id].incremental[id] == there
            &&& s.reconciles.contains_key(worker_id) && s.reconciles[worker_id].pending is Some
                ==> t.reconciles[worker_id].pending is Some
                && t.reconciles[worker_id].pending->0.reported.contains(id) == there
            &&& t.manager == s.manager && t.cleanups == s.cleanups
        }) by {
            if (*fs)@.reports.contains_key(worker_id) {
                crate::inventory_laws::changes_reach_the_arriving_inventory(
                    (*fs)@,
                    worker_id,
                    blocks@,
                    now_ms,
                    id,
                );
            }
            crate::inventory_laws::changes_reach_the_waiting_inventory(
                (*fs)@,
                worker_id,
                blocks@,
                now_ms,
                id,
            );
        }
    }
}

/// A comparison that could not be begun, or failed, waits for the next check
/// and does not run.
pub proof fn failed_comparisons_wait(worker_id: u32, job: FullBlockReconcileJob, now_ms: u64)
    ensures
        forall|fs: &mut MasterFilesystem| #[trigger]
            call_ensures(
                MasterFilesystem::spawn_full_block_reconcile_failed,
                (fs, worker_id, now_ms),
                (),
            ) ==> {
                let known = (*fs)@.reconciles.contains_key(worker_id);
                &&& !known ==> final(fs)@ == (*fs)@
                &&& known ==> !final(fs)@.reconciles[worker_id].running && final(fs)@.reconciles[worker_id].pending == (*fs)@.reconciles[worker_id].pending && final(fs)@.reconciles[worker_id].retry_at_ms == crate::inventory_laws::next_check(
                    (*fs)@.conf.worker_check_interval_ms,
                    now_ms,
                )
            },
        forall|fs: &mut MasterFilesystem| #[trigger]
            call_ensures(
                MasterFilesystem::fail_full_block_reconcile,
                (fs, worker_id, job, now_ms),
                (),
            ) ==> {
                let known = (*fs)@.reconciles.contains_key(worker_id);
                let was = (*fs)@.reconciles[worker_id];
                &&& !known ==> final(fs)@ == (*fs)@
                &&& known ==> !final(fs)@.reconciles[worker_id].running
                &&& known && was.pending is None && was.generation == job.generation ==> final(fs)@.reconciles[worker_id].pending == Some(job@)
                &&& known && was.pending is Some ==> final(fs)@.reconciles[worker_id].pending
                    == was.pending
            },
{
}

/// Nothing of a worker's inventories is left where they start over.
pub proof fn reset_inventories_are_gone(worker_id: u32)
    ensures
        forall|fs: &mut MasterFilesystem| #[trigger]
            call_ensures(MasterFilesystem::reset_full_block_report, (fs, worker_id), ()) ==> {
                let t = final(fs)@;
                &&& !t.reports.contains_key(worker_id)
                &&& t.reconciles.contains_key(worker_id) ==> t.reconciles[worker_id].pending is None
                &&& t.manager == (*fs)@.manager && t.cleanups == (*fs)@.cleanups
            },
{
}

/// The comparisons that are due are handed out in the order of the workers.
pub proof fn due_comparisons_come_out_in_order(now_ms: u64, r: Vec<u32>, k: u32)
    ensures
        forall|fs: &mut MasterFilesystem| #[trigger]
            call_ensures(MasterFilesystem::retry_full_block_reconciles, (fs, now_ms), r) ==> {
                let s = (*fs)@;
                let due = s.reconciles.contains_key(k) && !s.reconciles[k].running
                    && s.reconciles[k].pending is Some && s.reconciles[k].retry_at_ms <= now_ms;
                &&& r@.contains(k) <==> due
                &&& forall|i: int, j: int| 0 <= i < j < r@.len() ==> r@[i] < r@[j]
                &&& due ==> final(fs)@.reconciles[k].running
                &&& s.reconciles.contains_key(k) && !due ==> final(fs)@.reconciles[k]
                    == s.reconciles[k]
            },
{
    assert forall|fs: &mut MasterFilesystem| #[trigger]
        call_ensures(MasterFilesystem::retry_full_block_reconciles, (fs, now_ms), r) implies (
    r@.contains(k) <==> (*fs)@.reconciles_due(now_ms).contains(k)) by {
        assert(r@.to_set().contains(k) == (*fs)@.reconciles_due(now_ms).contains(k));
    }
}

} // verus!
