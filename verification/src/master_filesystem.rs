//! The state of the master's file system service beside the namespace.

use vstd::prelude::*;

use crate::block_report::{
    FullBlockReconcileState, FullBlockReportState, ReconcileView, ReportView,
};
use crate::conf::MasterConf;
use crate::ids::{BlockIds, IdMap};
use crate::manager_model::ManagerView;
use crate::worker_manager::WorkerManager;

verus! {

/// The blocks whose locations on a worker are being cleaned up.
pub struct LostWorkerCleanupState {
    pub affected_block_ids: BlockIds,
    pub invalidation_block_ids: BlockIds,
    pub invalidated_block_ids: BlockIds,
}

#[verifier::ext_equal]
pub struct CleanupView {
    /// Blocks that lose their location on the worker.
    pub affected: Set<i64>,
    /// Blocks of files whose cached data an earlier attempt discarded.
    pub invalidation: Set<i64>,
    /// Blocks that are known to be discarded.
    pub invalidated: Set<i64>,
}

impl View for LostWorkerCleanupState {
    type V = CleanupView;

    open spec fn view(&self) -> CleanupView {
        CleanupView {
            affected: self.affected_block_ids@,
            invalidation: self.invalidation_block_ids@,
            invalidated: self.invalidated_block_ids@,
        }
    }
}

pub struct MasterFilesystem {
    pub worker_manager: WorkerManager,
    pub conf: MasterConf,
    pub full_block_reports: IdMap<FullBlockReportState>,
    pub full_block_reconciles: IdMap<FullBlockReconcileState>,
    pub lost_worker_cleanups: IdMap<LostWorkerCleanupState>,
}

#[verifier::ext_equal]
pub struct FilesystemView {
    pub manager: ManagerView,
    pub conf: MasterConf,
    pub reports: Map<u32, ReportView>,
    pub reconciles: Map<u32, ReconcileView>,
    pub cleanups: Map<u32, CleanupView>,
}

impl View for MasterFilesystem {
    type V = FilesystemView;

    open spec fn view(&self) -> FilesystemView {
        FilesystemView {
            manager: self.worker_manager@,
            conf: self.conf,
            reports: self.full_block_reports@,
            reconciles: self.full_block_reconciles@,
            cleanups: self.lost_worker_cleanups@,
        }
    }
}

impl MasterFilesystem {
    /// A service with no report, reconciliation or cleanup under way.
    pub fn new(conf: MasterConf, worker_manager: WorkerManager) -> (r: Self)
        ensures
            r@ == (FilesystemView {
                manager: worker_manager@,
                conf,
                reports: Map::empty(),
                reconciles: Map::empty(),
                cleanups: Map::empty(),
            }),
    {
        MasterFilesystem {
            worker_manager,
            conf,
            full_block_reports: IdMap::new(),
            full_block_reconciles: IdMap::new(),
            lost_worker_cleanups: IdMap::new(),
        }
    }
}

} // verus!
