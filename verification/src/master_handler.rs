//! How requests are routed, retried and answered.

use dashmap::DashMap;
use vstd::prelude::*;

use crate::block_map::WorkerCommand;
use crate::block_report::BlockReportResult;
use crate::compatibility::{
    check_peer_compatibility, CompatibilityCheck, CompatibilityPolicy, CompatibilityVerdict,
};
use crate::error::FsError;
use crate::master_filesystem::{FilesystemView, MasterFilesystem};
use crate::model::{
    ComponentInfo, HeartbeatStatus, StorageInfo, TransferWorkerCapabilities, WorkerAddress,
};
use crate::text::{append_u64, same_text};
use crate::manager_model::HeartbeatOutcome;
use crate::worker_map::RegistrationView;

verus! {

/// The number of entries of a page where a request does not say.
pub const DEFAULT_PAGE_SIZE: usize = 10_000;

/// The weight of a worker that does not say.
pub const DEFAULT_WORKER_WEIGHT: u32 = 1;

#[derive(Clone, Copy, Debug, PartialEq, Eq, Structural)]
pub enum RpcCode {
    Undefined,
    Mkdir,
    CreateFile,
    OpenFile,
    FileStatus,
    AddBlock,
    CompleteFile,
    CreateFilesBatch,
    AddBlocksBatch,
    CompleteFilesBatch,
    Exists,
    Delete,
    Free,
    Rename,
    ListStatus,
    ListOptions,
    GetBlockLocations,
    SetAttr,
    Symlink,
    Link,
    ResizeFile,
    AssignWorker,
    GetLock,
    SetLock,
    Mount,
    UnMount,
    GetMountTable,
    GetMountInfo,
    MetricsReport,
    WorkerHeartbeat,
    WorkerBlockReport,
    ReportBlockReplicationResult,
    SubmitJob,
    GetJobStatus,
    CancelJob,
    ReportTask,
    GetFilesystemInfo,
    GetCvMetadataSnapshotPage,
    GetCvMetadataDeltaPage,
}

/// Who serves a request.
#[derive(Clone, Copy, Debug, PartialEq, Eq, Structural)]
pub enum Route {
    /// This master does not lead the cluster.
    NotLeader,
    /// The handler of the request's code.
    Serve,
    /// The replication service.
    Replication,
    /// The replication service, which is not there.
    ReplicationMissing,
    /// Nobody.
    Unsupported,
}

impl RpcCode {
    /// The request is served without blocking the connection.
    pub open spec fn is_async(self) -> bool {
        self is SubmitJob || self is GetJobStatus || self is CancelJob || self is ReportTask
            || self is GetFilesystemInfo || self is GetCvMetadataSnapshotPage
            || self is GetCvMetadataDeltaPage
    }
}

/// What a worker sends with a heartbeat.
pub struct WorkerHeartbeatRequest {
    pub status: HeartbeatStatus,
    pub cluster_id: String,
    pub worker_id: u32,
    pub address: WorkerAddress,
    pub weight: Option<u32>,
    pub fs_ctime: i64,
    pub worker_session_id: Option<String>,
    pub software_version: String,
    pub transfer_task_submit: Option<bool>,
    pub transfer_report_target: Option<bool>,
    pub transfer_query_task: Option<bool>,
    pub transfer_attempt_safe_output: Option<bool>,
    pub transfer_source_read_plan: Option<bool>,
    pub storages: Vec<StorageInfo>,
    pub component_info: Option<ComponentInfo>,
}

pub open spec fn is_set(b: Option<bool>) -> bool {
    b == Some(true)
}

fn flag(b: Option<bool>) -> (r: bool)
    ensures
        r == is_set(b),
{
    match b {
        Some(v) => v,
        None => false,
    }
}

impl WorkerHeartbeatRequest {
    pub open spec fn session(self) -> Seq<char> {
        match self.worker_session_id {
            Some(s) => s@,
            None => Seq::empty(),
        }
    }

    /// The start time of the worker's process; none before the epoch.
    pub open spec fn startup(self) -> u64 {
        if self.fs_ctime < 0 {
            0
        } else {
            self.fs_ctime as u64
        }
    }

    /// What the worker says of itself.
    pub open spec fn registration(self) -> RegistrationView {
        RegistrationView {
            address: self.address@,
            weight: match self.weight {
                Some(w) => w,
                None => DEFAULT_WORKER_WEIGHT,
            },
            worker_session_id: self.session(),
            transfer_capabilities: TransferWorkerCapabilities {
                task_submit: is_set(self.transfer_task_submit),
                report_target: is_set(self.transfer_report_target),
                query_task: is_set(self.transfer_query_task),
                attempt_safe_output: is_set(self.transfer_attempt_safe_output),
                source_read_plan: is_set(self.transfer_source_read_plan),
            },
            software_version: self.software_version@,
            startup_time_ms: self.startup(),
            storages: crate::model::storages_of(self.storages@),
            component_info: crate::model::component_of(self.component_info),
        }
    }
}

impl FilesystemView {
    /// The worker may return, but its cleanup is under way.
    pub open spec fn must_wait(
        self,
        cluster_id: Seq<char>,
        status: HeartbeatStatus,
        reg: RegistrationView,
    ) -> bool {
        status == HeartbeatStatus::Running && cluster_id == self.manager.cluster_id
            && self.manager.accepts_running(
            reg.address,
            reg.worker_session_id,
            reg.startup_time_ms,
        ) && self.cleanups.contains_key(reg.address.worker_id)
    }

    /// The reports of the worker's previous process, where a new one starts,
    /// are forgotten.
    pub open spec fn before_heartbeat(
        self,
        status: HeartbeatStatus,
        reg: RegistrationView,
    ) -> FilesystemView {
        if status == HeartbeatStatus::Start && !self.manager.is_duplicate_start(
            reg.address,
            reg.worker_session_id,
            reg.startup_time_ms,
        ) {
            self.reset_report(reg.address.worker_id)
        } else {
            self
        }
    }

    /// The state after a heartbeat was taken in with this outcome. A refused
    /// heartbeat changes nothing.
    pub open spec fn after_heartbeat(
        self,
        status: HeartbeatStatus,
        reg: RegistrationView,
        outcome: HeartbeatOutcome,
    ) -> FilesystemView {
        match outcome {
            HeartbeatOutcome::Accepted { state, .. } => FilesystemView {
                manager: state,
                ..self.before_heartbeat(status, reg)
            },
            _ => self,
        }
    }
}

/// What the retry cache answers for a request: it was carried out before, or
/// it was not. Without a cache no request was.
pub open spec fn seen_before(cached: Option<Result<bool, FsError>>) -> Result<bool, FsError> {
    match cached {
        Some(r) => r,
        None => Ok(false),
    }
}

/// How a request that may be a retry goes on.
#[derive(Clone, Copy, Debug, PartialEq, Eq, Structural)]
pub enum RetryStep {
    /// Answer from the current state.
    Replay,
    /// Carry the request out, and remember how it went.
    Execute,
}

/// What the handler keeps between requests.
pub struct MasterHandler {
    pub compatibility_policy: CompatibilityPolicy,
    /// The verdict last warned about, for each peer.
    pub compat_warned: DashMap<String, CompatibilityVerdict>,
}

/// The answer to a worker's heartbeat, and what is to be recorded with it.
pub struct HeartbeatReply {
    /// The record of the check. A refusal stands in the answer, not here.
    pub check: Option<CompatibilityCheck>,
    pub result: Result<Vec<WorkerCommand>, FsError>,
}

/// The error of a peer that is refused.
pub open spec fn is_rejection(e: FsError, peer: Seq<char>, detail: Seq<char>) -> bool {
    e matches FsError::PeerRejected { peer: p, detail: d } && p@ == peer && d@ == detail
}

/// The key of a worker's warnings.
pub open spec fn worker_key(worker_id: u32) -> Seq<char> {
    "worker:"@ + crate::text::decimal(worker_id as nat)
}

/// The result of a heartbeat for a state and an outcome.
pub open spec fn is_heartbeat_result(
    r: Result<Vec<WorkerCommand>, FsError>,
    s: FilesystemView,
    header: WorkerHeartbeatRequest,
    now_ms: u64,
) -> bool {
    let reg = header.registration();
    let outcome = s.manager.heartbeat(header.cluster_id@, header.status, reg, now_ms);
    if s.must_wait(header.cluster_id@, header.status, reg) {
        r matches Err(FsError::CleanupPending { address }) && address@ == reg.address
    } else {
        match r {
            Ok(c) => outcome matches HeartbeatOutcome::Accepted { commands, .. } && commands
                == crate::block_map::commands_of(c@),
            Err(e) => crate::manager_model::refusal(
                outcome,
                s.manager.cluster_id,
                header.cluster_id@,
                reg.address,
                e,
            ),
        }
    }
}

/// The state after a heartbeat.
pub open spec fn state_after_heartbeat(
    s: FilesystemView,
    header: WorkerHeartbeatRequest,
    now_ms: u64,
) -> FilesystemView {
    let reg = header.registration();
    if s.must_wait(header.cluster_id@, header.status, reg) {
        s
    } else {
        s.after_heartbeat(
            header.status,
            reg,
            s.manager.heartbeat(header.cluster_id@, header.status, reg, now_ms),
        )
    }
}

impl MasterHandler {
    /// A handler that has warned about nobody.
    pub fn new(compatibility_policy: CompatibilityPolicy) -> (r: Self)
        ensures
            r.compatibility_policy == compatibility_policy,
            crate::compatibility::verdicts_in(r.compat_warned) == Map::<
                Seq<char>,
                crate::compatibility::VerdictView,
            >::empty(),
    {
        let compat_warned = crate::compatibility::verdicts_new();
        assert(crate::compatibility::verdicts_in(compat_warned) =~= Map::<
            Seq<char>,
            crate::compatibility::VerdictView,
        >::empty());
        MasterHandler { compatibility_policy, compat_warned }
    }

    /// Whether a request is served while the connection waits.
    pub fn is_sync(code: RpcCode) -> (r: bool)
        ensures
            r == !code.is_async(),
    {
        match code {
            RpcCode::SubmitJob => false,
            RpcCode::GetJobStatus => false,
            RpcCode::CancelJob => false,
            RpcCode::ReportTask => false,
            RpcCode::GetFilesystemInfo => false,
            RpcCode::GetCvMetadataSnapshotPage => false,
            RpcCode::GetCvMetadataDeltaPage => false,
            _ => true,
        }
    }

    /// Who serves a request while the connection waits.
    pub fn handle(code: RpcCode, is_active: bool, has_replication: bool) -> (r: Route)
        ensures
            r == sync_route(code, is_active, has_replication),
    {
        if !is_active {
            return Route::NotLeader;
        }
        match code {
            RpcCode::ReportBlockReplicationResult => {
                if has_replication {
                    Route::Replication
                } else {
                    Route::ReplicationMissing
                }
            },
            RpcCode::Undefined => Route::Unsupported,
            _ => {
                if Self::is_sync(code) {
                    Route::Serve
                } else {
                    Route::Unsupported
                }
            },
        }
    }

    /// Who serves a request without blocking the connection.
    pub fn async_handle(code: RpcCode, is_active: bool) -> (r: Route)
        ensures
            r == async_route(code, is_active),
    {
        if !is_active {
            Route::NotLeader
        } else if Self::is_sync(code) {
            Route::Unsupported
        } else {
            Route::Serve
        }
    }

    /// Whether a request runs on the runtime that is kept for workers and the
    /// state of the cluster.
    pub fn get_rt(code: RpcCode) -> (r: bool)
        ensures
            r == (code is WorkerHeartbeat || code is WorkerBlockReport
                || code is GetFilesystemInfo),
    {
        match code {
            RpcCode::WorkerHeartbeat => true,
            RpcCode::WorkerBlockReport => true,
            RpcCode::GetFilesystemInfo => true,
            _ => false,
        }
    }

    /// Whether the duration of a request is observed: heartbeats are too many.
    pub fn record_rpc_observability(code: RpcCode) -> (r: bool)
        ensures
            r == !(code is WorkerHeartbeat),
    {
        match code {
            RpcCode::WorkerHeartbeat => false,
            _ => true,
        }
    }

    /// Whether a request was carried out before, by the word of the cache.
    pub fn check_is_retry(cached: Option<Result<bool, FsError>>) -> (r: Result<bool, FsError>)
        ensures
            r == seen_before(cached),
    {
        match cached {
            Some(answer) => answer,
            None => Ok(false),
        }
    }

    /// How a request that changes something goes on.
    pub fn retry_step(cached: Option<Result<bool, FsError>>) -> (r: Result<RetryStep, FsError>)
        ensures
            r == (match seen_before(cached) {
                Ok(true) => Ok(RetryStep::Replay),
                Ok(false) => Ok(RetryStep::Execute),
                Err(e) => Err(e),
            }),
    {
        match Self::check_is_retry(cached) {
            Ok(true) => Ok(RetryStep::Replay),
            Ok(false) => Ok(RetryStep::Execute),
            Err(e) => Err(e),
        }
    }

    /// How opening a file goes on. Reading never counts as a retry.
    pub fn open_file0(read_only: bool, cached: Option<Result<bool, FsError>>) -> (r: Result<
        RetryStep,
        FsError,
    >)
        ensures
            read_only ==> r == Ok::<RetryStep, FsError>(RetryStep::Replay),
            !read_only ==> r == (match seen_before(cached) {
                Ok(true) => Ok(RetryStep::Replay),
                Ok(false) => Ok(RetryStep::Execute),
                Err(e) => Err(e),
            }),
    {
        if read_only {
            return Ok(RetryStep::Replay);
        }
        Self::retry_step(cached)
    }

    /// How a deletion goes on. The root of a mount cannot be deleted.
    pub fn delete0(
        cached: Option<Result<bool, FsError>>,
        path: &str,
        mount_root: Option<String>,
    ) -> (r: Result<RetryStep, FsError>)
        ensures
            match seen_before(cached) {
                Err(e) => r == Err::<RetryStep, FsError>(e),
                Ok(true) => r == Ok::<RetryStep, FsError>(RetryStep::Replay),
                Ok(false) => match r {
                    Ok(step) => step == RetryStep::Execute && crate::model::text_of(mount_root)
                        != Some(path@),
                    Err(e) => crate::model::text_of(mount_root) == Some(path@) && (
                    e matches FsError::DeleteMountRoot { path: p } && p@ == path@),
                },
            },
    {
        let step: RetryStep = Self::retry_step(cached)?;
        if step == RetryStep::Replay {
            return Ok(step);
        }
        if let Some(root) = mount_root {
            if same_text(path, root.as_str()) {
                return Err(FsError::DeleteMountRoot { path: root });
            }
        }
        Ok(step)
    }

    /// The request id under which a file of a batch is remembered.
    pub fn batch_req_id(req_id: i64, index: usize) -> (r: i64)
        requires
            req_id + index <= i64::MAX,
        ensures
            r == req_id + index,
    {
        (req_id as i128 + index as i128) as i64
    }

    /// Whether a file is flushed without an answer, rather than completed.
    pub fn complete_file0(only_flush: bool, return_file_blocks: Option<bool>) -> (r: bool)
        ensures
            r == (only_flush && return_file_blocks == Some(false)),
    {
        match return_file_blocks {
            Some(wanted) => only_flush && !wanted,
            None => false,
        }
    }

    /// A listing has no limit below zero.
    pub fn list_options(limit: Option<i64>) -> (r: Result<(), FsError>)
        ensures
            r == (match limit {
                Some(n) => if n < 0 {
                    Err::<(), FsError>(FsError::NegativeListLimit { given: n })
                } else {
                    Ok(())
                },
                None => Ok(()),
            }),
    {
        match limit {
            Some(n) => if n < 0 {
                Err(FsError::NegativeListLimit { given: n })
            } else {
                Ok(())
            },
            None => Ok(()),
        }
    }

    /// The number of entries that a page is to hold.
    pub fn page_size(requested: Option<u32>) -> (r: usize)
        ensures
            r == (match requested {
                Some(n) => n as usize,
                None => DEFAULT_PAGE_SIZE,
            }),
    {
        match requested {
            Some(n) => n as usize,
            None => DEFAULT_PAGE_SIZE,
        }
    }

    /// Takes in a worker's heartbeat. A worker that may return waits until
    /// its cleanup is done, so that registration does not cancel it.
    pub fn process_worker_heartbeat(
        fs: &mut MasterFilesystem,
        header: WorkerHeartbeatRequest,
        now_ms: u64,
    ) -> (r: Result<Vec<WorkerCommand>, FsError>)
        requires
            old(fs)@.manager.wf(),
        ensures
            final(fs)@.manager.wf(),
            is_heartbeat_result(r, old(fs)@, header, now_ms),
            final(fs)@ == state_after_heartbeat(old(fs)@, header, now_ms),
    {
        let ghost reg = header.registration();
        let ghost given = header;
        let status: HeartbeatStatus = header.status;
        let address: WorkerAddress = header.address;
        let worker_id: u32 = address.worker_id;
        let weight: u32 = match header.weight {
            Some(w) => w,
            None => DEFAULT_WORKER_WEIGHT,
        };
        let session: String = match header.worker_session_id {
            Some(s) => s,
            None => String::new(),
        };
        assert(session@ =~= given.session());
        let startup_time_ms: u64 = if header.fs_ctime < 0 {
            0
        } else {
            header.fs_ctime as u64
        };
        if status == HeartbeatStatus::Running {
            let can_resume: bool = same_text(
                header.cluster_id.as_str(),
                fs.worker_manager.cluster_id.as_str(),
            ) && fs.worker_manager.accepts_running_heartbeat(
                &address,
                session.as_str(),
                startup_time_ms,
            );
            if can_resume && fs.has_pending_worker_cleanup(worker_id) {
                return Err(FsError::CleanupPending { address });
            }
        }
        if status == HeartbeatStatus::Start {
            if let Err(e) = fs.worker_manager.validate_worker_start(
                header.cluster_id.as_str(),
                &address,
                session.as_str(),
                startup_time_ms,
            ) {
                return Err(e);
            }
            if !fs.worker_manager.is_duplicate_worker_start(
                &address,
                session.as_str(),
                startup_time_ms,
            ) {
                fs.reset_full_block_report(worker_id);
            }
        }
        assert(fs@ == old(fs)@.before_heartbeat(status, reg));
        let capabilities = TransferWorkerCapabilities {
            task_submit: flag(header.transfer_task_submit),
            report_target: flag(header.transfer_report_target),
            query_task: flag(header.transfer_query_task),
            attempt_safe_output: flag(header.transfer_attempt_safe_output),
            source_read_plan: flag(header.transfer_source_read_plan),
        };
        fs.worker_manager.heartbeat(
            header.cluster_id.as_str(),
            status,
            address,
            weight,
            session,
            capabilities,
            header.software_version,
            startup_time_ms,
            header.storages,
            header.component_info,
            now_ms,
        )
    }

    /// Answers a worker's heartbeat. A worker whose compatibility is checked
    /// and refused is not taken in.
    pub fn worker_heartbeat(
        &mut self,
        fs: &mut MasterFilesystem,
        header: WorkerHeartbeatRequest,
        verdict: CompatibilityVerdict,
        now_ms: u64,
    ) -> (r: HeartbeatReply)
        requires
            old(fs)@.manager.wf(),
        ensures
            final(fs)@.manager.wf(),
            final(self).compatibility_policy == old(self).compatibility_policy,
            ({
                let policy = old(self).compatibility_policy;
                let checked = policy.mode == crate::compatibility::CompatibilityMode::Enforce
                    || policy.has_bounds || header.component_info is Some;
                let refused = checked && verdict@.rejected(policy.mode);
                let warned = crate::compatibility::verdicts_in(old(self).compat_warned);
                &&& r.check is Some == checked
                &&& r.check matches Some(c) ==> c.result is Ok
                    && crate::compatibility::is_record_of(
                    c,
                    "worker"@,
                    worker_key(header.worker_id),
                    warned,
                    policy.mode,
                    verdict@,
                )
                &&& crate::compatibility::verdicts_in(final(self).compat_warned) == (if checked {
                    crate::compatibility::warned_after(
                        warned,
                        worker_key(header.worker_id),
                        verdict@,
                        policy.mode,
                    )
                } else {
                    warned
                })
                &&& refused ==> final(fs)@ == old(fs)@ && (r.result matches Err(e) && is_rejection(
                    e,
                    "worker"@,
                    verdict@.description(),
                ))
                &&& !refused ==> is_heartbeat_result(r.result, old(fs)@, header, now_ms)
                    && final(fs)@ == state_after_heartbeat(old(fs)@, header, now_ms)
            }),
    {
        let mut check: Option<CompatibilityCheck> = None;
        if self.compatibility_policy.should_evaluate(header.component_info.is_some()) {
            let mut key: String = "worker:".to_owned();
            append_u64(&mut key, header.worker_id as u64);
            let ghost description = verdict@.description();
            let mut outcome: CompatibilityCheck = check_peer_compatibility(
                "worker",
                key.as_str(),
                &mut self.compat_warned,
                self.compatibility_policy.mode,
                verdict,
            );
            let mut refused: Option<FsError> = None;
            match outcome.result {
                Ok(_) => {},
                Err(e) => {
                    refused = Some(e);
                },
            }
            outcome.result = Ok(());
            check = Some(outcome);
            if let Some(e) = refused {
                return HeartbeatReply { check, result: Err(e) };
            }
        }
        let result = Self::process_worker_heartbeat(fs, header, now_ms);
        HeartbeatReply { check, result }
    }

    /// Checks the compatibility of a client that asks for the state of the
    /// cluster, where something can follow from it.
    pub fn check_client(
        &mut self,
        client_ip: &str,
        has_component_info: bool,
        verdict: CompatibilityVerdict,
    ) -> (r: Option<CompatibilityCheck>)
        ensures
            final(self).compatibility_policy == old(self).compatibility_policy,
            ({
                let policy = old(self).compatibility_policy;
                let checked = policy.mode == crate::compatibility::CompatibilityMode::Enforce
                    || policy.has_bounds || has_component_info;
                let key = "client:"@ + client_ip@;
                let warned = crate::compatibility::verdicts_in(old(self).compat_warned);
                &&& r is Some == checked
                &&& r matches Some(c) ==> crate::compatibility::is_record_of(
                    c,
                    "client"@,
                    key,
                    warned,
                    policy.mode,
                    verdict@,
                )
                &&& r matches Some(c) ==> match c.result {
                    Ok(_) => !verdict@.rejected(policy.mode),
                    Err(e) => verdict@.rejected(policy.mode) && is_rejection(
                        e,
                        "client"@,
                        verdict@.description(),
                    ),
                }
                &&& crate::compatibility::verdicts_in(final(self).compat_warned) == (if checked {
                    crate::compatibility::warned_after(warned, key, verdict@, policy.mode)
                } else {
                    warned
                })
            }),
    {
        if !self.compatibility_policy.should_evaluate(has_component_info) {
            return None;
        }
        let mut key: String = "client:".to_owned();
        key.append(client_ip);
        Some(
            check_peer_compatibility(
                "client",
                key.as_str(),
                &mut self.compat_warned,
                self.compatibility_policy.mode,
                verdict,
            ),
        )
    }

    /// The answer to a block report: the worker is told to delete what no
    /// file needs.
    pub fn process_block_report(result: BlockReportResult) -> (r: Vec<WorkerCommand>)
        ensures
            crate::block_map::commands_of(r@) == (if result.delete_blocks@.len() == 0 {
                Seq::<Seq<i64>>::empty()
            } else {
                seq![result.delete_blocks@]
            }),
    {
        let mut cmds: Vec<WorkerCommand> = Vec::new();
        if result.delete_blocks.len() > 0 {
            cmds.push(WorkerCommand::DeleteBlock { blocks: result.delete_blocks });
        }
        assert(crate::block_map::commands_of(cmds@) =~= (if result.delete_blocks@.len() == 0 {
            Seq::<Seq<i64>>::empty()
        } else {
            seq![result.delete_blocks@]
        }));
        cmds
    }
}

/// Who serves a request while the connection waits.
pub open spec fn sync_route(code: RpcCode, is_active: bool, has_replication: bool) -> Route {
    if !is_active {
        Route::NotLeader
    } else if code is ReportBlockReplicationResult {
        if has_replication {
            Route::Replication
        } else {
            Route::ReplicationMissing
        }
    } else if code is Undefined || code.is_async() {
        Route::Unsupported
    } else {
        Route::Serve
    }
}

/// Who serves a request without blocking the connection.
pub open spec fn async_route(code: RpcCode, is_active: bool) -> Route {
    if !is_active {
        Route::NotLeader
    } else if code.is_async() {
        Route::Serve
    } else {
        Route::Unsupported
    }
}

/// A master that does not lead serves nothing, either way.
pub proof fn standby_serves_nothing(code: RpcCode, has_replication: bool)
    ensures
        sync_route(code, false, has_replication) == Route::NotLeader,
        async_route(code, false) == Route::NotLeader,
{
}

/// On the active master every known request is served on exactly the side
/// that it is sorted to.
pub proof fn every_request_is_served_on_one_side(code: RpcCode)
    requires
        !(code is Undefined),
    ensures
        code.is_async() ==> async_route(code, true) == Route::Serve && sync_route(code, true, true)
            == Route::Unsupported,
        !code.is_async() ==> async_route(code, true) == Route::Unsupported && (sync_route(
            code,
            true,
            true,
        ) == Route::Serve || sync_route(code, true, true) == Route::Replication),
{
}

/// A refused heartbeat leaves the whole service as it was.
pub proof fn refused_heartbeat_changes_nothing(
    s: FilesystemView,
    header: WorkerHeartbeatRequest,
    now_ms: u64,
)
    requires
        !(s.manager.heartbeat(
            header.cluster_id@,
            header.status,
            header.registration(),
            now_ms,
        ) is Accepted) || s.must_wait(header.cluster_id@, header.status, header.registration()),
    ensures
        state_after_heartbeat(s, header, now_ms) == s,
{
}

/// No worker becomes live while its cleanup is under way.
pub proof fn pending_cleanup_blocks_registration(
    s: FilesystemView,
    header: WorkerHeartbeatRequest,
    now_ms: u64,
)
    requires
        s.manager.wf(),
        !s.manager.workers.contains_key(header.address@.worker_id),
        s.cleanups.contains_key(header.address@.worker_id),
    ensures
        !state_after_heartbeat(s, header, now_ms).manager.workers.contains_key(
            header.address@.worker_id,
        ),
{
}

} // verus!
