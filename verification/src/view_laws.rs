//! What the views of the records show.

use vstd::prelude::*;

use crate::block_report::{FullBlockReconcileJob, FullBlockReconcileState, FullBlockReportState};
use crate::compatibility::{CompatibilityVerdict, VerdictView};
use crate::master_filesystem::{LostWorkerCleanupState, MasterFilesystem};
use crate::model::{ComponentInfo, LocatedBlock, StorageInfo, WorkerAddress, WorkerInfo};
use crate::snapshot::SnapshotVisit;
use crate::worker_manager::{OfflineWorker, WorkerManager, WorkerRecovery};
use crate::worker_map::Registration;

verus! {

/// The view of an address shows all of it.
pub proof fn addresses_are_shown(a: WorkerAddress, b: WorkerAddress, same: bool, placed: bool)
    requires
        call_ensures(WorkerAddress::same_address, (&a, &b), same),
        call_ensures(WorkerAddress::same_endpoint, (&a, &b), placed),
    ensures
        a@.worker_id == a.worker_id && a@.hostname == a.hostname@ && a@.ip_addr == a.ip_addr@
            && a@.rpc_port == a.rpc_port && a@.web_port == a.web_port,
        placed <==> a.hostname@ == b.hostname@ && a.rpc_port == b.rpc_port,
        same <==> a.worker_id == b.worker_id && a.hostname@ == b.hostname@ && a.ip_addr@
            == b.ip_addr@ && a.rpc_port == b.rpc_port && a.web_port == b.web_port,
{
}

/// The view of a storage shows all of it.
pub proof fn storages_are_shown(s: StorageInfo)
    ensures
        s@.dir_id == s.dir_id && s@.storage_id == s.storage_id@ && s@.failed == s.failed,
        s@.capacity == s.capacity && s@.available == s.available && s@.fs_used == s.fs_used,
        s@.non_fs_used == s.non_fs_used && s@.reserved_bytes == s.reserved_bytes && s@.block_num
            == s.block_num && s@.storage_type == s.storage_type,
{
}

/// The view of a worker shows all of it.
pub proof fn workers_are_shown(w: WorkerInfo, i: int)
    ensures
        w@.address == w.address@ && w@.weight == w.weight,
        w@.worker_session_id == w.worker_session_id@ && w@.startup_time_ms == w.startup_time_ms,
        w@.software_version == w.software_version@ && w@.transfer_capabilities
            == w.transfer_capabilities,
        w@.status == w.status && w@.last_update == w.last_update,
        w@.capacity == w.capacity && w@.available == w.available && w@.fs_used == w.fs_used,
        w@.non_fs_used == w.non_fs_used && w@.reserved_bytes == w.reserved_bytes && w@.block_num
            == w.block_num,
        w@.storages.len() == w.storages@.len(),
        0 <= i < w.storages@.len() ==> w@.storages[i] == w.storages@[i]@,
        w@.component_info is Some <==> w.component_info is Some,
        w.component_info is Some ==> w@.component_info == Some((w.component_info->0)@),
{
}

/// The view of what a component says of itself shows all of it.
pub proof fn components_are_shown(c: ComponentInfo, i: int)
    ensures
        c.component is Some ==> c@.component == Some((c.component->0)@),
        c.component is None ==> c@.component is None,
        c.release_version is Some ==> c@.release_version == Some((c.release_version->0)@),
        c.release_version is None ==> c@.release_version is None,
        c.git_commit is Some ==> c@.git_commit == Some((c.git_commit->0)@),
        c.git_tag is Some ==> c@.git_tag == Some((c.git_tag->0)@),
        c.git_branch is Some ==> c@.git_branch == Some((c.git_branch->0)@),
        c@.protocol_version == c.protocol_version,
        c@.min_protocol_version == c.min_protocol_version,
        c@.capabilities.len() == c.capabilities@.len(),
        0 <= i < c.capabilities@.len() ==> c@.capabilities[i] == c.capabilities@[i]@,
{
}

/// The view of a located block shows all of it.
pub proof fn located_blocks_are_shown(b: LocatedBlock, i: int)
    ensures
        b@.block == b.block && b@.has_spdk == b.has_spdk,
        b@.locs.len() == b.locs@.len(),
        0 <= i < b.locs@.len() ==> b@.locs[i] == b.locs@[i]@,
{
}

/// The view of a registration shows all of it.
pub proof fn registrations_are_shown(r: Registration, i: int)
    ensures
        r@.address == r.address@ && r@.weight == r.weight,
        r@.worker_session_id == r.worker_session_id@ && r@.startup_time_ms == r.startup_time_ms,
        r@.transfer_capabilities == r.transfer_capabilities && r@.software_version
            == r.software_version@,
        r@.storages.len() == r.storages@.len(),
        0 <= i < r.storages@.len() ==> r@.storages[i] == r.storages@[i]@,
        r.component_info is Some ==> r@.component_info == Some((r.component_info->0)@),
        r.component_info is None ==> r@.component_info is None,
{
}

/// The views of scheduled cleanups and of recoveries show all of them.
pub proof fn departures_are_shown(o: OfflineWorker, r: WorkerRecovery)
    ensures
        o@.worker == o.worker@ && o@.deadline_ms == o.deadline_ms && o@.in_flight == o.in_flight,
        r@.address == r.address@ && r@.session_id == r.session_id@ && r@.startup_time_ms
            == r.startup_time_ms,
        r@.report_complete == r.report_complete && r@.ended == r.ended,
{
}

/// The view of the manager shows its parts.
pub proof fn the_manager_is_shown(m: WorkerManager)
    ensures
        m@.workers == m.worker_map.workers@ && m@.lost == m.worker_map.lost_workers@,
        m@.deletes == m.block_map@ && m@.cluster_id == m.cluster_id@,
        m@.worker_lost_interval_ms == m.worker_lost_interval_ms,
        m@.offline == m.offline_workers@ && m@.recovering == m.recovering_workers@,
        m@.retired == m.retired_worker_sessions@,
{
}

/// The view of the filesystem shows its parts.
pub proof fn the_filesystem_is_shown(f: MasterFilesystem, c: LostWorkerCleanupState)
    ensures
        f@.manager == f.worker_manager@ && f@.conf == f.conf,
        f@.reports == f.full_block_reports@ && f@.reconciles == f.full_block_reconciles@,
        f@.cleanups == f.lost_worker_cleanups@,
        c@.affected == c.affected_block_ids@ && c@.invalidation == c.invalidation_block_ids@
            && c@.invalidated == c.invalidated_block_ids@,
{
}

/// The views of inventories and of the jobs on them show all of them.
pub proof fn inventories_are_shown(
    r: FullBlockReportState,
    j: FullBlockReconcileJob,
    s: FullBlockReconcileState,
)
    ensures
        r@.total_len == r.total_len && r@.update_time_ms == r.update_time_ms,
        r@.reported == r.reported_blocks@ && r@.deleted == r.deleted_blocks@ && r@.incremental
            == r.incremental_updates@,
        j@.generation == j.generation && j@.reported == j.reported_blocks@ && j@.session
            == j.worker_session_id@ && j@.replicate == j.replicate,
        s@.running == s.running && s@.retry_at_ms == s.retry_at_ms && s@.generation == s.generation,
        s.pending is Some ==> s@.pending == Some((s.pending->0)@),
        s.pending is None ==> s@.pending is None,
{
}

/// The views of visits and of what was found of a peer show all of them.
pub proof fn findings_are_shown(v: SnapshotVisit, c: CompatibilityVerdict)
    ensures
        v@.path == v.path@ && v@.inode_id == v.inode_id && v@.is_dir == v.is_dir && v@.is_entry
            == v.is_entry && v@.emit == v.emit,
        c is Compatible <==> c@ is Compatible,
        c is MissingInfo <==> c@ is MissingInfo,
        c matches CompatibilityVerdict::Blocked(x) ==> c@ == (VerdictView::Blocked {
            version: x@,
        }),
        c matches CompatibilityVerdict::ProtocolMismatch { peer, min, max } ==> c@ == (
        VerdictView::ProtocolMismatch { peer, min, max }),
        c matches CompatibilityVerdict::VersionTooOld { peer, min } ==> c@ == (
        VerdictView::VersionTooOld { peer: peer@, min: min@ }),
        c matches CompatibilityVerdict::VersionUnknown { peer } ==> c@ == (
        VerdictView::VersionUnknown { peer: peer@ }),
{
}

} // verus!
