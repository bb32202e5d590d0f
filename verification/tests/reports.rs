//! Block reports, reconciliation and the cleanup of lost workers, run against
//! a small namespace in memory.

use curvine_master::block_map::{DeleteResult, WorkerCommand};
use curvine_master::block_report::{
    apply_reported_blocks, finalized, report, BlockOwner, BlockReportInfo, BlockReportList,
    BlockReportStatus, BLOCK_REPORT_WRITE_CHUNK, FULL_BLOCK_REPORT_TTL_MS,
};
use curvine_master::cleanup::{
    CacheInvalidationResult, CurrentBlocks, LostWorkerLocationCleanup, RemovalTask,
};
use curvine_master::completion_hooks::{
    pause_completed_reconcile_for_test, reconcile_completion_hooks, ReconcileCompletionHooks,
    ReconcileCompletionPause,
};
use curvine_master::conf::MasterConf;
use curvine_master::error::FsError;
use curvine_master::ids::BlockIds;
use curvine_master::master_filesystem::MasterFilesystem;
use curvine_master::master_handler::{MasterHandler, WorkerHeartbeatRequest};
use curvine_master::model::{
    BlockLocation, BlockMeta, ClientAddress, FileBlocks, FileStatus, FileType, HeartbeatStatus,
    InodeFile, StorageInfo, StorageType, WorkerAddress, WorkerInfo,
};
use curvine_master::namespace::discard_cache;
use curvine_master::reconcile::{ReconcileNext, ReconcileStep};
use curvine_master::report_diagnostics::BlockReportDiagnostics;
use curvine_master::snapshot::FileRecord;
use curvine_master::worker_manager::WorkerManager;
use std::collections::{BTreeMap, BTreeSet};

const NOW: u64 = 1_700_000_000_000;
const BLOCKS_PER_INODE: i64 = 1000;

fn block_id(inode: i64, index: i64) -> i64 {
    inode * BLOCKS_PER_INODE + index
}

fn inode_of(block: i64) -> i64 {
    block / BLOCKS_PER_INODE
}

#[derive(Clone, Copy, PartialEq)]
enum TtlAction {
    Delete,
    Free,
}

struct Cached {
    path: String,
    file: InodeFile,
    ttl_action: TtlAction,
    ufs_mtime: Option<i64>,
    cv_exists: bool,
    next_block: i64,
}

impl Cached {
    fn ufs_exists(&self) -> bool {
        self.ufs_mtime.is_some()
    }
}

/// A file as a test sees it.
#[derive(Clone, Copy, Debug, PartialEq)]
struct Seen {
    len: i64,
    ufs_mtime: Option<i64>,
    cv_valid: bool,
}

struct Master {
    fs: MasterFilesystem,
    files: BTreeMap<i64, Cached>,
    dirs: BTreeSet<i64>,
    locations: BTreeMap<i64, Vec<BlockLocation>>,
    corrupt: BTreeSet<i64>,
    /// Files whose invalidation is not in the journal yet.
    unjournaled: BTreeSet<i64>,
    journal: Vec<i64>,
    next_inode: i64,
    /// Keep reconciliations waiting instead of running them at once.
    hold_executor: bool,
    queued: Vec<u32>,
    refuse_spawn: bool,
    fail_chunk_of: Option<i64>,
    fail_before_invalidate: bool,
    fail_after_invalidate: bool,
    logs: Vec<String>,
    hooks: ReconcileCompletionHooks,
    paused: Vec<u64>,
    /// The blocks that were reported as short of replicas.
    reported: Vec<i64>,
    /// Whether reports ask for replication.
    replicate: bool,
    now: u64,
}

impl Master {
    fn new() -> Master {
        let conf = MasterConf::default();
        let manager = WorkerManager::new("curvine", conf.worker_lost_interval_ms);
        Master {
            fs: MasterFilesystem::new(conf, manager),
            files: BTreeMap::new(),
            dirs: BTreeSet::new(),
            locations: BTreeMap::new(),
            corrupt: BTreeSet::new(),
            unjournaled: BTreeSet::new(),
            journal: vec![],
            next_inode: 1000,
            hold_executor: false,
            queued: vec![],
            refuse_spawn: false,
            fail_chunk_of: None,
            fail_before_invalidate: false,
            fail_after_invalidate: false,
            logs: vec![],
            hooks: reconcile_completion_hooks(),
            paused: vec![],
            reported: vec![],
            replicate: false,
            now: NOW,
        }
    }

    // The namespace.

    fn create(&mut self, path: &str, ttl_action: TtlAction, block_size: i64) -> i64 {
        self.next_inode += 1;
        let id = self.next_inode;
        self.files.insert(
            id,
            Cached {
                path: path.to_string(),
                file: InodeFile {
                    id,
                    len: 0,
                    block_size,
                    replicas: 1,
                    storage_type: StorageType::Disk,
                    file_type: FileType::File,
                    blocks: vec![],
                },
                ttl_action,
                ufs_mtime: None,
                cv_exists: true,
                next_block: 0,
            },
        );
        id
    }

    fn attach_block(&mut self, inode: i64, len: i64, workers: &[u32]) -> i64 {
        let cached = self.files.get_mut(&inode).unwrap();
        let id = block_id(inode, cached.next_block);
        cached.next_block += 1;
        cached.file.blocks.push(BlockMeta { id, len, alloc_opts: None });
        cached.file.len += len;
        cached.cv_exists = true;
        let locs = workers.iter().map(|w| BlockLocation::with_id(*w)).collect();
        self.locations.insert(id, locs);
        id
    }

    fn cache_file(&mut self, path: &str, ttl: TtlAction, ufs_backed: bool, worker: u32) -> i64 {
        let inode = self.create(path, ttl, 128);
        let block = self.attach_block(inode, 128, &[worker]);
        if ufs_backed {
            self.files.get_mut(&inode).unwrap().ufs_mtime = Some(12_345);
        }
        block
    }

    fn file(&self, path: &str) -> &Cached {
        self.files.values().find(|f| f.path == path).unwrap()
    }

    fn seen(&self, path: &str) -> Seen {
        let f = self.file(path);
        Seen { len: f.file.len, ufs_mtime: f.ufs_mtime, cv_valid: f.cv_exists }
    }

    fn holds(&self, block: i64) -> Result<BlockOwner, FsError> {
        let inode = inode_of(block);
        if self.corrupt.contains(&inode) {
            return Err(FsError::Common { message: format!("inode {inode} is corrupt") });
        }
        if self.dirs.contains(&inode) {
            return Ok(BlockOwner::NotFile);
        }
        Ok(match self.files.get(&inode) {
            None => BlockOwner::Missing,
            Some(f) => BlockOwner::File { holds: f.file.blocks.iter().any(|b| b.id == block) },
        })
    }

    fn block_locations(&self, block: i64) -> Vec<BlockLocation> {
        self.locations.get(&block).cloned().unwrap_or_default()
    }

    fn worker_blocks(&self, worker: u32) -> Vec<i64> {
        self.locations
            .iter()
            .filter(|(_, locs)| locs.iter().any(|l| l.worker_id == worker))
            .map(|(id, _)| *id)
            .collect()
    }

    fn apply(&mut self, edits: Vec<(bool, i64, BlockLocation)>) {
        for (add, id, loc) in edits {
            let locs = self.locations.entry(id).or_default();
            locs.retain(|l| l.worker_id != loc.worker_id);
            if add {
                locs.push(loc);
            }
        }
    }

    fn get_block_locations(&self, path: &str) -> Result<FileBlocks, FsError> {
        let cached = self.file(path);
        let status = FileStatus {
            id: cached.file.id,
            path: path.to_string(),
            name: path.trim_start_matches('/').to_string(),
            len: cached.file.len,
            is_dir: false,
        };
        let record = FileRecord {
            file: InodeFile {
                id: cached.file.id,
                len: cached.file.len,
                block_size: cached.file.block_size,
                replicas: cached.file.replicas,
                storage_type: cached.file.storage_type,
                file_type: cached.file.file_type,
                blocks: cached.file.blocks.clone(),
            },
            locations: cached
                .file
                .blocks
                .iter()
                .map(|b| (b.id, self.block_locations(b.id)))
                .collect(),
        };
        self.fs.get_block_locations(path, Some((status, &record)))
    }

    // Reports.

    fn block_report(&mut self, list: BlockReportList) -> Result<Vec<i64>, FsError> {
        let (worker_id, full_report) = (list.worker_id, list.full_report);
        let mut task = self.fs.block_report(list, self.replicate, self.now)?;
        let mut diagnostics = BlockReportDiagnostics::new(worker_id, full_report);
        let mut failure = None;
        while let Some(chunk) = task.next_chunk() {
            if self.fail_chunk_of == Some(chunk[0].id) {
                self.fail_chunk_of = None;
                return Err(FsError::Common { message: "second chunk rejected".to_string() });
            }
            let mut owners = vec![];
            for info in &chunk {
                let owner =
                    if info.needs_owner() { self.holds(info.id) } else { Ok(BlockOwner::Unread) };
                match owner {
                    Ok(owner) => owners.push(owner),
                    Err(e) => {
                        failure = Some((*info, e));
                        break;
                    }
                }
            }
            diagnostics.observe(&chunk, &owners);
            if failure.is_some() {
                break;
            }
            let changes = apply_reported_blocks(worker_id, full_report, &chunk, &owners);
            self.apply(changes.edits);
            self.fs.block_report_chunk_applied(&mut task, changes.obsolete, self.now);
        }
        let error_line =
            failure.as_ref().map(|(info, e)| format!("block_report {:?}: {}", info, e.message()));
        self.logs.extend(diagnostics.warnings(error_line));
        if let Some((_, e)) = failure {
            return Err(e);
        }
        let (result, spawn) = self.fs.finish_block_report(task, self.now);
        if spawn {
            if self.refuse_spawn {
                self.fs.spawn_full_block_reconcile_failed(worker_id, self.now);
                return Err(FsError::Common { message: "queue is full".to_string() });
            }
            self.spawn(worker_id);
        }
        Ok(deleted_by(&MasterHandler::process_block_report(result)))
    }

    fn spawn(&mut self, worker_id: u32) {
        if self.hold_executor {
            self.queued.push(worker_id);
        } else {
            self.run_reconcile(worker_id);
        }
    }

    fn release_executor(&mut self) {
        self.hold_executor = false;
        for worker_id in std::mem::take(&mut self.queued) {
            self.run_reconcile(worker_id);
        }
    }

    fn run_reconcile(&mut self, worker_id: u32) {
        loop {
            let job = match self.fs.run_full_block_reconcile(worker_id) {
                ReconcileStep::Done => return,
                ReconcileStep::Skip => continue,
                ReconcileStep::Run(job) => job,
            };
            let existing = self.worker_blocks(worker_id);
            let outcome = match self.fs.reconcile_full_block_report(worker_id, &job, existing) {
                None => Ok(vec![]),
                Some(stale) => {
                    let task = self.fs.cleanup_worker_locations(worker_id, stale);
                    self.cleanup(task).map(|c| c.replication_block_ids)
                }
            };
            let failed = outcome.is_err();
            match self.fs.full_block_reconcile_ended(worker_id, job, outcome, self.now) {
                ReconcileNext::Again => continue,
                ReconcileNext::Report(ids) => self.reported.extend(ids),
                ReconcileNext::Stop => {}
            }
            if !failed {
                let held = pause_completed_reconcile_for_test(&mut self.hooks, worker_id);
                self.paused.extend(held.map(|hook| hook.ticket));
            }
            return;
        }
    }

    // Cleanup.

    fn cleanup(&mut self, mut task: RemovalTask) -> Result<LostWorkerLocationCleanup, FsError> {
        let worker_id = task.worker_id;
        while let Some(batch) = task.next_batch() {
            self.apply(batch);
        }
        let mut task = self.fs.invalidate_lost_worker_cache(worker_id);
        while let Some(chunk) = task.next_chunk() {
            if std::mem::take(&mut self.fail_before_invalidate) {
                return Err(FsError::Common { message: "injected failure".to_string() });
            }
            let current = CurrentBlocks {
                owners: chunk.iter().map(|id| inode_of(*id)).collect(),
                files: self
                    .files
                    .values()
                    .map(|f| (f.file.id, f.file.blocks.iter().map(|b| b.id).collect()))
                    .collect(),
            };
            let gone = MasterFilesystem::discarded_cleanup_blocks(&chunk, &current);
            let blocks = gone.iter().map(|id| (*id, self.block_locations(*id))).collect();
            let mut result = CacheInvalidationResult::discarded(&gone, blocks);
            let mut prepared = vec![];
            let invalidation = self.invalidate_lost_cache_files(worker_id, &chunk, &mut prepared);
            self.fs.retain_prepared_invalidation(worker_id, &prepared);
            result.extend(invalidation?);
            self.fs.invalidation_chunk_applied(&mut task, result);
        }
        Ok(self.fs.finish_invalidation(task))
    }

    fn invalidate_lost_cache_files(
        &mut self,
        worker_id: u32,
        chunk: &[i64],
        prepared: &mut Vec<i64>,
    ) -> Result<CacheInvalidationResult, FsError> {
        let mut invalidated = vec![];
        let mut deletes = vec![];
        let inodes: BTreeSet<i64> = chunk.iter().map(|id| inode_of(*id)).collect();
        for inode in inodes {
            let Some(cached) = self.files.get_mut(&inode) else { continue };
            let held: Vec<i64> = cached.file.blocks.iter().map(|b| b.id).collect();
            let lost = held.iter().any(|id| {
                chunk.contains(id) && self.locations.get(id).map_or(true, |l| l.is_empty())
            });
            if !lost || cached.ttl_action != TtlAction::Delete || !cached.ufs_exists() {
                continue;
            }
            let locs: Vec<(i64, Vec<BlockLocation>)> = held
                .iter()
                .map(|id| (*id, self.locations.get(id).cloned().unwrap_or_default()))
                .collect();
            let dropped = discard_cache(&mut cached.file, &locs, worker_id, false);
            cached.cv_exists = false;
            prepared.extend(held.iter().copied());
            invalidated.extend(held);
            deletes.extend(dropped.blocks);
            self.unjournaled.insert(inode);
        }
        if std::mem::take(&mut self.fail_after_invalidate) {
            return Err(FsError::Common { message: "journal append unavailable".to_string() });
        }
        self.journal.extend(std::mem::take(&mut self.unjournaled));
        Ok(CacheInvalidationResult::discarded(&invalidated, deletes))
    }

    fn delete_locations(&mut self, worker: u32) -> Result<LostWorkerLocationCleanup, FsError> {
        let task = self.fs.delete_locations(worker, self.worker_blocks(worker));
        self.cleanup(task)
    }

    fn delete_lost_worker_locations(
        &mut self,
        worker: &WorkerInfo,
    ) -> Result<LostWorkerLocationCleanup, FsError> {
        let ids = self.worker_blocks(worker.worker_id());
        let task = self.fs.delete_lost_worker_locations(worker, ids);
        let outcome = task.map(|task| self.cleanup(task));
        self.fs.lost_worker_cleanup_ended(worker, outcome)
    }

    fn take_expired(&mut self, now: u64) -> Vec<WorkerInfo> {
        self.fs.worker_manager.take_expired_offline_workers(now)
    }

    fn retry_reconciles(&mut self, now: u64) {
        for worker_id in self.fs.retry_full_block_reconciles(now) {
            self.spawn(worker_id);
        }
    }

    fn worker(&self, id: u32) -> Option<&WorkerInfo> {
        self.fs.worker_manager.get_worker(id)
    }

    // Workers.

    fn try_heartbeat(&mut self, h: &Header, status: HeartbeatStatus) -> Result<Vec<i64>, FsError> {
        let request = WorkerHeartbeatRequest {
            status,
            cluster_id: "curvine".to_string(),
            worker_id: h.worker_id,
            address: WorkerAddress {
                worker_id: h.worker_id,
                hostname: h.hostname.clone(),
                ip_addr: "127.0.0.1".to_string(),
                rpc_port: h.rpc_port,
                web_port: 5678,
            },
            weight: None,
            fs_ctime: h.fs_ctime,
            worker_session_id: Some(h.session.clone()),
            software_version: String::new(),
            transfer_task_submit: None,
            transfer_report_target: None,
            transfer_query_task: None,
            transfer_attempt_safe_output: None,
            transfer_source_read_plan: None,
            storages: vec![StorageInfo {
                capacity: 1 << 40,
                available: 1 << 40,
                ..Default::default()
            }],
            component_info: None,
        };
        let now = self.now;
        let commands = MasterHandler::process_worker_heartbeat(&mut self.fs, request, now)?;
        Ok(deleted_by(&commands))
    }

    fn heartbeat(&mut self, h: &Header, status: HeartbeatStatus) -> Vec<i64> {
        self.try_heartbeat(h, status).unwrap()
    }

    fn try_report(
        &mut self,
        h: &Header,
        full_report: bool,
        total_len: u64,
        ids: &[i64],
    ) -> Result<Vec<i64>, FsError> {
        self.block_report(BlockReportList {
            cluster_id: "curvine".to_string(),
            worker_id: h.worker_id,
            worker_session_id: h.session.clone(),
            full_report,
            total_len,
            blocks: ids.iter().map(|id| finalized(*id)).collect(),
        })
    }

    fn report(&mut self, h: &Header, full_report: bool, ids: &[i64]) -> Vec<i64> {
        self.try_report(h, full_report, ids.len() as u64, ids).unwrap()
    }

    fn report_complete(&self, h: &Header) -> bool {
        self.fs.worker_manager.worker_block_report_complete(h.worker_id, &h.session)
    }

    fn assert_kept(&self, path: &str, block: i64, worker: u32) {
        let kept = self.get_block_locations(path).unwrap();
        assert!(self.seen(path).cv_valid, "reported cache {path} was lost");
        assert_eq!(kept.block_locs.len(), 1);
        assert_eq!(kept.block_locs[0].block.id, block);
        assert_eq!(kept.block_locs[0].locs.len(), 1);
        assert_eq!(kept.block_locs[0].locs[0].worker_id, worker);
    }

    fn assert_invalidated(&self, path: &str, before: Seen) {
        let after = self.seen(path);
        assert!(!after.cv_valid);
        assert!(self.file(path).ufs_exists());
        assert_eq!(after.len, before.len);
        assert_eq!(after.ufs_mtime, before.ufs_mtime);
        assert!(self.get_block_locations(path).unwrap().block_locs.is_empty());
    }
}

fn deleted_by(commands: &[WorkerCommand]) -> Vec<i64> {
    let mut ids = vec![];
    for WorkerCommand::DeleteBlock { blocks } in commands {
        ids.extend(blocks.iter().copied());
    }
    ids
}

#[derive(Clone)]
struct Header {
    worker_id: u32,
    hostname: String,
    rpc_port: u32,
    session: String,
    fs_ctime: i64,
}

fn restarted(h: &Header, session: &str) -> Header {
    Header { session: session.to_string(), fs_ctime: h.fs_ctime + 1, ..h.clone() }
}

fn offline_worker_fs() -> (Master, Header) {
    offline_worker_fs_with_id(7)
}

fn offline_worker_fs_with_id(worker_id: u32) -> (Master, Header) {
    let mut m = Master::new();
    let header = Header {
        worker_id,
        hostname: "offline-worker".to_string(),
        rpc_port: 1234,
        session: "original-session".to_string(),
        fs_ctime: 123_456,
    };
    m.heartbeat(&header, HeartbeatStatus::Running);
    (m, header)
}

/// A second worker that also holds the blocks.
fn with_survivor(
    m: &mut Master,
    header: &Header,
    hostname: &str,
    rpc_port: u32,
    blocks: &[i64],
) -> Header {
    let survivor =
        Header { worker_id: 8, hostname: hostname.to_string(), rpc_port, ..header.clone() };
    m.heartbeat(&survivor, HeartbeatStatus::Running);
    for id in blocks {
        m.apply(vec![(true, *id, BlockLocation::with_id(8))]);
    }
    survivor
}

#[test]
fn offline_worker_restart_full_report_preserves_reported_cache() {
    let (mut m, header) = offline_worker_fs();
    let path = "/retained-cache";
    let block = m.cache_file(path, TtlAction::Delete, true, 7);
    m.heartbeat(&header, HeartbeatStatus::End);

    let restarted = restarted(&header, "retained-storage-session");
    m.heartbeat(&restarted, HeartbeatStatus::Start);
    assert!(m.report(&restarted, true, &[block]).is_empty());
    assert!(m.report_complete(&restarted));
    m.heartbeat(&restarted, HeartbeatStatus::Running);
    m.assert_kept(path, block, header.worker_id);
}

#[test]
fn offline_worker_expiry_after_full_report_deletes_cache_on_first_running() {
    let (mut m, header) = offline_worker_fs();
    let path = "/expired-before-running-cache";
    let block = m.cache_file(path, TtlAction::Delete, true, 7);
    let before = m.seen(path);
    m.heartbeat(&header, HeartbeatStatus::End);

    let restarted = restarted(&header, "reported-before-expiry-session");
    m.heartbeat(&restarted, HeartbeatStatus::Start);
    assert!(m.report(&restarted, true, &[block]).is_empty());
    assert!(m.report_complete(&restarted));
    assert!(m.seen(path).cv_valid);
    assert!(m.worker(7).is_none());

    // A completed report does not cancel the deadline until the worker is
    // ready. Expire the retained cache before its first Running heartbeat.
    let expired = m.take_expired(u64::MAX);
    assert_eq!(expired.len(), 1);
    let cleanup = m.delete_lost_worker_locations(&expired[0]).unwrap();
    assert_eq!(cleanup.removed_block_ids, vec![block]);
    assert!(cleanup.replication_block_ids.is_empty());
    assert!(!m.seen(path).cv_valid);

    assert_eq!(m.heartbeat(&restarted, HeartbeatStatus::Running), vec![block]);
    assert!(m.worker(7).is_some());
    assert!(m.worker_blocks(7).is_empty());
    m.assert_invalidated(path, before);
}

#[test]
fn offline_worker_running_waits_for_partial_timeout_cleanup_before_registering() {
    let (mut m, header) = offline_worker_fs_with_id(92_001);
    let path = "/partial-timeout-cleanup-cache";
    let block = m.cache_file(path, TtlAction::Delete, true, 92_001);
    let before = m.seen(path);
    let expired = m.fs.worker_manager.remove_expired_worker(92_001).unwrap();
    m.fail_before_invalidate = true;
    assert!(m.delete_lost_worker_locations(&expired).is_err());
    assert!(m.seen(path).cv_valid);
    assert!(m.worker_blocks(92_001).is_empty());
    m.fs.worker_manager.queue_offline_worker(expired);

    // A worker recovering from a heartbeat timeout sends Running directly.
    let refused = m.try_heartbeat(&header, HeartbeatStatus::Running).unwrap_err();
    assert!(matches!(
        &refused,
        FsError::CleanupPending { address } if address.worker_id == 92_001
    ));
    assert_eq!(
        refused.message(),
        "Worker offline-worker:1234 cleanup is pending; retry heartbeat"
    );
    assert!(m.worker(92_001).is_none());
    assert!(m.seen(path).cv_valid);
    let pending = m.take_expired(u64::MAX);
    assert_eq!(pending.len(), 1, "Running must preserve the cleanup retry");
    let cleanup = m.delete_lost_worker_locations(&pending[0]).unwrap();
    assert_eq!(cleanup.removed_block_ids, vec![block]);
    assert!(cleanup.replication_block_ids.is_empty());

    assert!(m.heartbeat(&header, HeartbeatStatus::Running).contains(&block));
    m.assert_invalidated(path, before);
    assert!(m.worker_blocks(92_001).is_empty());
    assert_eq!(m.worker(92_001).unwrap().worker_session_id, header.session);
    assert!(m.take_expired(u64::MAX).is_empty());
}

#[test]
fn offline_worker_cleanup_racing_rejoin_keeps_cache_and_locations_consistent() {
    // The work on one worker is serialized: either comes first.
    for cleanup_first in [false, true] {
        let (mut m, header) = offline_worker_fs();
        let path = "/concurrent-rejoin-cache";
        let block = m.cache_file(path, TtlAction::Delete, true, 7);
        let before = m.seen(path);
        m.heartbeat(&header, HeartbeatStatus::End);
        let pending = m.take_expired(u64::MAX);
        assert_eq!(pending.len(), 1);

        if cleanup_first {
            m.delete_lost_worker_locations(&pending[0]).unwrap();
        }
        let restarted = restarted(&header, "concurrent-session");
        m.heartbeat(&restarted, HeartbeatStatus::Start);
        let mut deleted = m.report(&restarted, true, &[block]);
        assert!(m.report_complete(&restarted));
        deleted.extend(m.heartbeat(&restarted, HeartbeatStatus::Running));
        if !cleanup_first {
            m.delete_lost_worker_locations(&pending[0]).unwrap();
        }

        assert_eq!(m.worker(7).unwrap().worker_session_id, "concurrent-session");
        if m.seen(path).cv_valid {
            assert!(deleted.is_empty(), "retained cache must not be deleted");
            m.assert_kept(path, block, 7);
            assert_eq!(m.worker_blocks(7), vec![block]);
        } else {
            m.assert_invalidated(path, before);
            assert!(m.worker_blocks(7).is_empty());
            assert!(deleted.contains(&block));
        }
        assert_eq!(m.seen(path).cv_valid, !cleanup_first);
    }
}

#[test]
fn offline_worker_restart_empty_full_report_invalidates_missing_cache() {
    let (mut m, header) = offline_worker_fs();
    let path = "/lost-on-restart-cache";
    m.cache_file(path, TtlAction::Delete, true, 7);
    let before = m.seen(path);
    m.heartbeat(&header, HeartbeatStatus::End);

    let restarted = restarted(&header, "empty-storage-session");
    m.heartbeat(&restarted, HeartbeatStatus::Start);
    assert!(m.report(&restarted, true, &[]).is_empty());
    assert!(m.report_complete(&restarted));
    m.heartbeat(&restarted, HeartbeatStatus::Running);
    assert!(m.worker_blocks(7).is_empty());
    m.assert_invalidated(path, before);
}

#[test]
fn offline_worker_partial_full_report_waits_before_invalidating_missing_cache() {
    let (mut m, header) = offline_worker_fs();
    let first = m.cache_file("/first-reported-cache", TtlAction::Delete, true, 7);
    let last = m.cache_file("/last-reported-cache", TtlAction::Delete, true, 7);
    let missing = m.cache_file("/missing-from-report-cache", TtlAction::Delete, true, 7);
    let before = m.seen("/missing-from-report-cache");
    m.heartbeat(&header, HeartbeatStatus::End);

    let restarted = restarted(&header, "partial-report-session");
    m.heartbeat(&restarted, HeartbeatStatus::Start);
    assert!(m.try_report(&restarted, true, 2, &[first]).unwrap().is_empty());
    m.heartbeat(&restarted, HeartbeatStatus::Running);
    assert!(m.worker(7).is_none());
    assert!(m.seen("/missing-from-report-cache").cv_valid);
    assert!(m.worker_blocks(7).contains(&missing));

    assert!(m.try_report(&restarted, true, 2, &[last]).unwrap().is_empty());
    assert!(m.report_complete(&restarted));
    m.heartbeat(&restarted, HeartbeatStatus::Running);
    m.assert_invalidated("/missing-from-report-cache", before);
    m.assert_kept("/first-reported-cache", first, 7);
    m.assert_kept("/last-reported-cache", last, 7);
}

#[test]
fn offline_worker_incremental_report_between_full_chunks_preserves_recovery() {
    let (mut m, header) = offline_worker_fs();
    let first = m.cache_file("/interleaved-first-cache", TtlAction::Delete, true, 7);
    let last = m.cache_file("/interleaved-last-cache", TtlAction::Delete, true, 7);
    let incremental = m.cache_file("/interleaved-current-cache", TtlAction::Delete, true, 7);
    m.cache_file("/interleaved-missing-cache", TtlAction::Delete, true, 7);
    let before = m.seen("/interleaved-missing-cache");
    m.heartbeat(&header, HeartbeatStatus::End);
    let restarted = restarted(&header, "interleaved-report-session");
    m.heartbeat(&restarted, HeartbeatStatus::Start);

    assert!(m.try_report(&restarted, true, 2, &[first]).unwrap().is_empty());
    assert!(m.report(&restarted, false, &[incremental]).is_empty());
    // Incremental ids must supplement the inventory without counting as
    // missing chunks of the startup snapshot or canceling its progress.
    assert!(!m.report_complete(&restarted));
    m.heartbeat(&restarted, HeartbeatStatus::Running);
    assert!(m.worker(7).is_none());

    assert!(m.try_report(&restarted, true, 2, &[last]).unwrap().is_empty());
    assert!(m.report_complete(&restarted));
    m.heartbeat(&restarted, HeartbeatStatus::Running);
    m.assert_kept("/interleaved-first-cache", first, 7);
    m.assert_kept("/interleaved-last-cache", last, 7);
    m.assert_kept("/interleaved-current-cache", incremental, 7);
    m.assert_invalidated("/interleaved-missing-cache", before);
}

#[test]
fn offline_worker_incremental_report_preserves_queued_full_reconcile() {
    let (mut m, header) = offline_worker_fs();
    let snapshot = m.cache_file("/queued-snapshot-cache", TtlAction::Delete, true, 7);
    let incremental = m.cache_file("/queued-current-cache", TtlAction::Delete, true, 7);
    m.cache_file("/queued-missing-cache", TtlAction::Delete, true, 7);
    let before = m.seen("/queued-missing-cache");
    m.heartbeat(&header, HeartbeatStatus::End);
    let restarted = restarted(&header, "queued-report-session");
    m.heartbeat(&restarted, HeartbeatStatus::Start);

    m.hold_executor = true;
    assert!(m.report(&restarted, true, &[snapshot]).is_empty());
    assert!(m.report(&restarted, false, &[incremental]).is_empty());
    assert!(!m.report_complete(&restarted));
    m.release_executor();
    assert!(m.report_complete(&restarted));
    m.heartbeat(&restarted, HeartbeatStatus::Running);

    m.assert_kept("/queued-snapshot-cache", snapshot, 7);
    m.assert_kept("/queued-current-cache", incremental, 7);
    m.assert_invalidated("/queued-missing-cache", before);
    assert_eq!(m.worker_blocks(7), vec![snapshot, incremental]);
}

#[test]
fn offline_worker_stale_start_preserves_full_report_progress_and_live_session() {
    let (mut m, header) = offline_worker_fs();
    let first = m.cache_file("/stale-start-first-cache", TtlAction::Delete, true, 7);
    let last = m.cache_file("/stale-start-last-cache", TtlAction::Delete, true, 7);
    m.heartbeat(&header, HeartbeatStatus::End);
    let restarted = restarted(&header, "newer-start-session");
    m.heartbeat(&restarted, HeartbeatStatus::Start);

    assert!(m.try_report(&restarted, true, 2, &[first]).unwrap().is_empty());
    assert!(m.try_heartbeat(&header, HeartbeatStatus::Start).is_err());
    assert!(m.try_report(&restarted, true, 2, &[last]).unwrap().is_empty());
    assert!(m.report_complete(&restarted));
    m.heartbeat(&restarted, HeartbeatStatus::Running);
    assert!(m.try_heartbeat(&header, HeartbeatStatus::Start).is_err());
    assert_eq!(m.worker(7).unwrap().worker_session_id, "newer-start-session");
    assert!(m.take_expired(u64::MAX).is_empty());
    m.assert_kept("/stale-start-first-cache", first, 7);
    m.assert_kept("/stale-start-last-cache", last, 7);
}

#[test]
fn offline_worker_empty_full_report_preserves_surviving_replica() {
    let (mut m, header) = offline_worker_fs();
    let path = "/replicated-cache";
    let block = m.cache_file(path, TtlAction::Delete, true, 7);
    with_survivor(&mut m, &header, "surviving-worker", header.rpc_port, &[block]);
    m.heartbeat(&header, HeartbeatStatus::End);

    let restarted = restarted(&header, "empty-replica-session");
    m.heartbeat(&restarted, HeartbeatStatus::Start);
    assert!(m.report(&restarted, true, &[]).is_empty());
    assert!(m.report_complete(&restarted));
    m.heartbeat(&restarted, HeartbeatStatus::Running);
    m.assert_kept(path, block, 8);
    assert!(m.worker_blocks(7).is_empty());
}

#[test]
fn offline_worker_stale_session_full_report_cannot_delete_recovered_cache() {
    let (mut m, header) = offline_worker_fs();
    let path = "/current-session-cache";
    let block = m.cache_file(path, TtlAction::Delete, true, 7);
    m.heartbeat(&header, HeartbeatStatus::End);
    let restarted = restarted(&header, "current-report-session");
    m.heartbeat(&restarted, HeartbeatStatus::Start);
    assert!(m.report(&restarted, true, &[block]).is_empty());
    assert!(m.report_complete(&restarted));
    m.heartbeat(&restarted, HeartbeatStatus::Running);

    let stale = Err(FsError::StaleReportSession { worker_id: 7 });
    assert_eq!(m.try_report(&header, true, 0, &[]), stale);
    assert!(m.try_report(&header, false, 1, &[block]).is_err());
    m.assert_kept(path, block, 7);
}

#[test]
fn offline_worker_late_finalized_report_cannot_resurrect_cleaned_cache() {
    let (mut m, header) = offline_worker_fs();
    let path = "/late-reported-cache";
    let block = m.cache_file(path, TtlAction::Delete, true, 7);
    let before = m.seen(path);
    m.heartbeat(&header, HeartbeatStatus::End);
    let pending = m.take_expired(u64::MAX);
    assert_eq!(pending.len(), 1);
    m.delete_lost_worker_locations(&pending[0]).unwrap();
    assert!(!m.seen(path).cv_valid);

    let restarted = restarted(&header, "late-finalized-session");
    m.heartbeat(&restarted, HeartbeatStatus::Start);
    assert_eq!(m.report(&restarted, true, &[block]), vec![block]);
    assert!(m.report_complete(&restarted));
    m.heartbeat(&restarted, HeartbeatStatus::Running);
    assert!(m.worker_blocks(7).is_empty());
    m.assert_invalidated(path, before);
}

#[test]
fn offline_worker_end_retains_cache_until_grace_expires() {
    let (mut m, header) = offline_worker_fs();
    let path = "/grace-period-cache";
    let block = m.cache_file(path, TtlAction::Delete, true, 7);
    let before = m.seen(path);
    let grace_ms = m.fs.worker_manager.worker_lost_interval_ms;
    assert!(grace_ms > 0);
    m.heartbeat(&header, HeartbeatStatus::End);
    assert!(m.take_expired(NOW + grace_ms - 1).is_empty());
    assert!(m.worker(7).is_none());
    assert!(m.seen(path).cv_valid);
    assert!(m.worker_blocks(7).contains(&block));
    assert!(m.get_block_locations(path).is_err());

    let expired = m.take_expired(u64::MAX);
    assert_eq!(expired.len(), 1);
    m.delete_lost_worker_locations(&expired[0]).unwrap();
    m.assert_invalidated(path, before);
}

#[test]
fn offline_worker_cleanup_preserves_storage_policy_guarantees() {
    for (ttl_action, ufs_backed, survivor) in [
        (TtlAction::Delete, true, false),
        (TtlAction::Delete, true, true),
        (TtlAction::Free, true, false),
        (TtlAction::Delete, false, false),
    ] {
        let (mut m, header) = offline_worker_fs();
        let path = "/offline-cache";
        let block = m.cache_file(path, ttl_action, ufs_backed, 7);
        let before = m.seen(path);
        if survivor {
            with_survivor(&mut m, &header, "surviving-worker", header.rpc_port, &[block]);
        }

        m.heartbeat(&header, HeartbeatStatus::End);
        m.heartbeat(&header, HeartbeatStatus::End);
        let pending = m.take_expired(u64::MAX);
        assert_eq!(pending.len(), 1, "duplicate End must not duplicate cleanup");
        let cleanup = m.delete_lost_worker_locations(&pending[0]).unwrap();
        assert_eq!(cleanup.removed_block_ids, vec![block]);

        let invalidated = ttl_action == TtlAction::Delete && ufs_backed && !survivor;
        let after = m.seen(path);
        assert_eq!(after.cv_valid, !invalidated);
        assert_eq!(after.len, before.len);
        assert_eq!(after.ufs_mtime, before.ufs_mtime);
        if invalidated {
            assert!(cleanup.replication_block_ids.is_empty());
            assert!(m.get_block_locations(path).unwrap().block_locs.is_empty());
        } else {
            assert_eq!(cleanup.replication_block_ids, vec![block]);
        }
        if survivor {
            m.assert_kept(path, block, 8);
        }
    }
}

#[test]
fn offline_worker_cleanup_skips_same_id_restart() {
    let (mut m, header) = offline_worker_fs();
    let path = "/restart-cache";
    let block = m.cache_file(path, TtlAction::Delete, true, 7);
    m.heartbeat(&header, HeartbeatStatus::End);
    let mut pending = m.take_expired(u64::MAX);
    assert_eq!(pending.len(), 1);

    let restarted = restarted(&header, "restarted-session");
    m.heartbeat(&restarted, HeartbeatStatus::Start);
    assert!(m.report(&restarted, true, &[block]).is_empty());
    assert!(m.report_complete(&restarted));
    m.heartbeat(&restarted, HeartbeatStatus::Running);
    let cleanup = m.delete_lost_worker_locations(&pending[0]).unwrap();
    assert!(cleanup.removed_block_ids.is_empty());
    m.fs.worker_manager.queue_offline_worker(pending.remove(0));
    assert!(m.take_expired(u64::MAX).is_empty());
    m.assert_kept(path, block, 7);
}

#[test]
fn offline_worker_failed_restart_after_cleanup_gets_new_expiry() {
    let (mut m, header) = offline_worker_fs();
    let path = "/restart-after-cleanup-cache";
    let block = m.cache_file(path, TtlAction::Delete, true, 7);
    let before = m.seen(path);
    let port = header.rpc_port + 1;
    let survivor =
        with_survivor(&mut m, &header, "restart-cleanup-survivor", port, &[block]);

    m.heartbeat(&header, HeartbeatStatus::End);
    let first_expiry = m.take_expired(u64::MAX);
    assert_eq!(first_expiry.len(), 1);
    m.delete_lost_worker_locations(&first_expiry[0]).unwrap();
    assert!(m.take_expired(u64::MAX).is_empty());
    m.assert_kept(path, block, survivor.worker_id);

    let restarted = restarted(&header, "restart-after-completed-cleanup");
    m.heartbeat(&restarted, HeartbeatStatus::Start);
    assert!(m.try_report(&restarted, true, 2, &[block]).unwrap().is_empty());
    assert!(m.worker(7).is_none());
    assert!(m.worker_blocks(7).contains(&block));

    // This startup never completes its inventory or sends Running. The
    // previous cleanup finished, so Start must have armed a fresh deadline.
    let second_expiry = m.take_expired(u64::MAX);
    assert_eq!(second_expiry.len(), 1, "failed restart needs a new cleanup");
    let cleanup = m.delete_lost_worker_locations(&second_expiry[0]).unwrap();
    assert_eq!(cleanup.removed_block_ids, vec![block]);
    assert!(m.seen(path).cv_valid);
    assert!(m.worker_blocks(7).is_empty());

    // Losing the remaining replica must now invalidate the cache, without
    // the failed startup's partial report masquerading as a surviving copy.
    let last_worker = m.fs.worker_manager.remove_expired_worker(8).unwrap();
    let cleanup = m.delete_lost_worker_locations(&last_worker).unwrap();
    assert!(cleanup.replication_block_ids.is_empty());
    m.assert_invalidated(path, before);
}

#[test]
fn offline_worker_partial_report_after_expiry_gets_new_cleanup() {
    let (mut m, header) = offline_worker_fs();
    let path = "/late-partial-report-cache";
    let late = m.cache_file(path, TtlAction::Delete, true, 7);
    let early = m.cache_file("/early-partial-report-cache", TtlAction::Delete, true, 7);
    let before = m.seen(path);
    let port = header.rpc_port + 1;
    with_survivor(&mut m, &header, "late-report-survivor", port, &[early, late]);

    let restarted = restarted(&header, "partial-report-spans-expiry");
    m.heartbeat(&restarted, HeartbeatStatus::Start);
    assert!(m.try_report(&restarted, true, 3, &[early]).unwrap().is_empty());
    let first_expiry = m.take_expired(u64::MAX);
    assert_eq!(first_expiry.len(), 1);
    m.delete_lost_worker_locations(&first_expiry[0]).unwrap();
    assert!(m.take_expired(u64::MAX).is_empty());
    assert!(m.worker_blocks(7).is_empty());
    assert!(m.seen(path).cv_valid);

    // The worker continues its original report after cleanup has finished,
    // but never sends the third chunk or reaches Running. Accepting this
    // late location must create another bounded cleanup opportunity.
    assert!(m.try_report(&restarted, true, 3, &[late]).unwrap().is_empty());
    assert!(!m.report_complete(&restarted));
    assert!(m.worker(7).is_none());
    assert_eq!(m.worker_blocks(7), vec![late]);
    let second_expiry = m.take_expired(u64::MAX);
    assert_eq!(second_expiry.len(), 1, "late report needs a new cleanup");
    let cleanup = m.delete_lost_worker_locations(&second_expiry[0]).unwrap();
    assert_eq!(cleanup.removed_block_ids, vec![late]);
    assert!(m.worker_blocks(7).is_empty());

    let last_worker = m.fs.worker_manager.remove_expired_worker(8).unwrap();
    let cleanup = m.delete_lost_worker_locations(&last_worker).unwrap();
    assert!(cleanup.replication_block_ids.is_empty());
    m.assert_invalidated(path, before);
    m.assert_invalidated("/early-partial-report-cache", before);
}

#[test]
fn offline_worker_cleanup_survives_failed_restart() {
    let (mut m, header) = offline_worker_fs();
    let path = "/failed-restart-cache";
    let block = m.cache_file(path, TtlAction::Delete, true, 7);
    let before = m.seen(path);
    m.heartbeat(&header, HeartbeatStatus::End);

    // A worker can announce Start and fail before sending Running. It has
    // not recovered its data, so the original loss must still be cleaned.
    let restarted = restarted(&header, "failed-restart-session");
    m.heartbeat(&restarted, HeartbeatStatus::Start);
    assert!(m.worker(7).is_none());
    let pending = m.take_expired(u64::MAX);
    assert_eq!(pending.len(), 1);

    let cleanup = m.delete_lost_worker_locations(&pending[0]).unwrap();
    assert_eq!(cleanup.removed_block_ids, vec![block]);
    assert!(cleanup.replication_block_ids.is_empty());
    m.assert_invalidated(path, before);
}

#[test]
fn offline_worker_ignores_end_from_previous_session() {
    let (mut m, header) = offline_worker_fs();
    let path = "/new-session-cache";
    let block = m.cache_file(path, TtlAction::Delete, true, 7);
    let restarted = restarted(&header, "restarted-session");
    m.heartbeat(&restarted, HeartbeatStatus::Start);
    assert!(m.report(&restarted, true, &[block]).is_empty());
    assert!(m.report_complete(&restarted));
    m.heartbeat(&restarted, HeartbeatStatus::Running);
    m.heartbeat(&header, HeartbeatStatus::End);

    let wrong_endpoint =
        Header { hostname: "different-worker".to_string(), ..restarted.clone() };
    m.heartbeat(&wrong_endpoint, HeartbeatStatus::End);

    assert!(m.take_expired(u64::MAX).is_empty());
    assert_eq!(m.worker(7).unwrap().worker_session_id, "restarted-session");
    m.assert_kept(path, block, 7);
}

#[test]
fn offline_worker_cleanup_keeps_different_id_replacement() {
    let (mut m, header) = offline_worker_fs();
    let path = "/lost-cache";
    let lost = m.cache_file(path, TtlAction::Delete, true, 7);
    m.heartbeat(&header, HeartbeatStatus::End);
    let pending = m.take_expired(u64::MAX);
    assert_eq!(pending.len(), 1);

    let replacement = Header { worker_id: 8, ..restarted(&header, "fresh-storage") };
    m.heartbeat(&replacement, HeartbeatStatus::Start);
    assert!(m.report(&replacement, true, &[]).is_empty());
    assert!(m.report_complete(&replacement));
    m.heartbeat(&replacement, HeartbeatStatus::Running);
    let fresh = m.cache_file("/new-cache", TtlAction::Delete, true, 8);

    let cleanup = m.delete_lost_worker_locations(&pending[0]).unwrap();
    assert_eq!(cleanup.removed_block_ids, vec![lost]);
    assert!(cleanup.replication_block_ids.is_empty());
    assert!(!m.seen(path).cv_valid);
    m.assert_kept("/new-cache", fresh, 8);
}

fn fixture(session: &str, worker_id: u32) -> (Master, Header, i64) {
    let mut m = Master::new();
    let header = Header {
        worker_id,
        hostname: String::new(),
        rpc_port: 0,
        session: session.to_string(),
        fs_ctime: 0,
    };
    let mut worker = WorkerInfo::default();
    worker.address.worker_id = worker_id;
    worker.worker_session_id = session.to_string();
    m.fs.worker_manager.add_test_worker(worker);
    let block = m.cache_file("/cache", TtlAction::Delete, true, worker_id);
    (m, header, block)
}

#[test]
fn lost_cache_invalidation_retries_after_worker_index_is_empty() {
    let (mut m, header, block) = fixture("lost-location-retry", 91_001);
    m.fail_before_invalidate = true;
    assert!(m.delete_locations(91_001).is_err());
    assert!(m.worker_blocks(91_001).is_empty());
    assert!(m.seen("/cache").cv_valid);

    let cleanup = m.delete_locations(91_001).unwrap();
    assert_eq!(cleanup.removed_block_ids, vec![block]);
    assert!(cleanup.replication_block_ids.is_empty());
    assert!(!m.seen("/cache").cv_valid);
    assert!(
        m.heartbeat(&header, HeartbeatStatus::Running).contains(&block),
        "the removed worker must receive deletion of its discarded cache block"
    );
}

#[test]
fn failed_full_reconcile_is_retried_before_worker_becomes_ready() {
    let (mut m, header, block) = fixture("full-report-retry", 91_002);
    let restarted = restarted(&header, "restarted-full-report-retry");
    m.heartbeat(&restarted, HeartbeatStatus::Start);
    m.fail_before_invalidate = true;
    m.report(&restarted, true, &[]);
    let state = m.fs.full_block_reconciles.get(91_002).unwrap();
    assert!(!state.running);
    assert!(state.pending.is_some(), "failed reconciliation must remain pending");
    assert_eq!(state.retry_at_ms, NOW + m.fs.conf.worker_check_interval_ms);
    assert!(!m.report_complete(&restarted));
    assert!(m.worker_blocks(91_002).is_empty());
    assert!(m.seen("/cache").cv_valid);

    m.retry_reconciles(NOW);
    assert!(!m.report_complete(&restarted), "not due yet");
    m.retry_reconciles(u64::MAX);
    assert!(m.report_complete(&restarted));
    assert!(!m.seen("/cache").cv_valid);
    assert!(m.heartbeat(&restarted, HeartbeatStatus::Running).contains(&block));
}

#[test]
fn invalidation_retry_journals_applied_inode_and_deletes_surviving_blocks() {
    let block_len: i64 = 1 << 20;
    let (mut m, header, fixture_block) = fixture("post-apply-retry", 91_003);
    let survivor = Header {
        worker_id: 91_004,
        rpc_port: 1,
        session: "survivor-post-apply-retry".to_string(),
        ..header.clone()
    };
    m.heartbeat(&survivor, HeartbeatStatus::Running);
    let inode = m.create("/multi-cache", TtlAction::Delete, block_len);
    let first = m.attach_block(inode, block_len, &[91_003]);
    let second = m.attach_block(inode, block_len, &[91_004]);
    m.files.get_mut(&inode).unwrap().ufs_mtime = Some(12_345);
    let before = m.seen("/multi-cache");
    assert_eq!(before.len, block_len * 2);

    m.fail_after_invalidate = true;
    assert!(m.delete_locations(91_003).is_err());
    assert!(!m.seen("/multi-cache").cv_valid);
    assert!(m.journal.is_empty(), "fault precedes journal append");
    let cleanup = m.delete_locations(91_003).unwrap();
    assert_eq!(cleanup.removed_block_ids, vec![fixture_block, first]);
    assert!(cleanup.replication_block_ids.is_empty());
    assert!(m.journal.contains(&inode), "retry must journal the current invalidated inode");
    m.assert_invalidated("/multi-cache", before);
    for (target, block) in [(&header, first), (&survivor, second)] {
        assert!(
            m.heartbeat(target, HeartbeatStatus::Running).contains(&block),
            "retry must reclaim block {block} on worker {}",
            target.worker_id
        );
    }
}

#[test]
fn partial_incremental_report_preserves_successfully_applied_chunk_in_queued_reconcile() {
    let (mut m, header, _) = fixture("partial-report-original", 92_101);
    let snapshot_id = m.cache_file("/snapshot-cache", TtlAction::Delete, true, 92_101);
    let accepted_id = m.cache_file("/accepted-cache", TtlAction::Delete, true, 92_101);
    let failed_id = m.cache_file("/failed-cache", TtlAction::Delete, true, 92_101);
    // The incremental report will install this valid location for the first
    // time. Its file metadata is already complete and backed by UFS.
    m.apply(vec![(false, accepted_id, BlockLocation::with_id(92_101))]);
    assert!(m.block_locations(accepted_id).is_empty());

    let restarted = restarted(&header, "partial-report-restarted");
    m.heartbeat(&restarted, HeartbeatStatus::Start);

    // Keep reconciliation queued until both report chunks have been attempted.
    m.hold_executor = true;
    m.report(&restarted, true, &[snapshot_id]);
    m.fail_chunk_of = Some(failed_id);
    // Duplicate ids exercise the chunk boundary without creating thousands of
    // files or block records.
    let mut incremental = vec![accepted_id; BLOCK_REPORT_WRITE_CHUNK];
    incremental.push(failed_id);
    let error = m
        .try_report(&restarted, false, incremental.len() as u64, &incremental)
        .err()
        .expect("the second incremental chunk must fail");
    assert!(error.message().contains("second chunk rejected"));
    assert_eq!(m.block_locations(accepted_id).len(), 1);
    assert!(!m.report_complete(&restarted));
    m.release_executor();

    assert!(m.report_complete(&restarted));
    for (path, id) in [("/snapshot-cache", snapshot_id), ("/accepted-cache", accepted_id)] {
        assert!(m.seen(path).cv_valid, "accepted cache {path} was discarded");
        let locations = m.block_locations(id);
        assert_eq!(locations.len(), 1);
        assert_eq!(locations[0].worker_id, 92_101);
    }
    assert!(!m.seen("/failed-cache").cv_valid);
    assert!(m.block_locations(failed_id).is_empty());
}

#[test]
fn incremental_report_after_reconcile_completion_does_not_orphan_cleanup() {
    let (mut m, header, block) = fixture("partial-report-original", 92_102);
    let restarted = restarted(&header, "completion-boundary-restarted");
    m.heartbeat(&restarted, HeartbeatStatus::Start);

    let pause = ReconcileCompletionPause::install(&mut m.hooks, 92_102, 1);
    m.report(&restarted, true, &[block]);
    assert_eq!(m.paused, vec![1], "reconciliation did not reach the completion boundary");
    assert!(m.report_complete(&restarted));
    assert!(!m.fs.has_pending_worker_cleanup(92_102));

    // This incremental report must not mistake the completed job's bookkeeping
    // for another inventory that needs cleanup.
    m.report(&restarted, false, &[block]);
    assert!(!m.fs.has_pending_worker_cleanup(92_102));
    let mut address = WorkerAddress::default();
    address.worker_id = 92_102;
    address.ip_addr = "127.0.0.1".to_string();
    address.web_port = 5678;
    assert!(m.fs.worker_manager.accepts_running_heartbeat(&address, &restarted.session, 1));
    assert!(m.seen("/cache").cv_valid);
    assert_eq!(m.block_locations(block).len(), 1);
    pause.release(&mut m.hooks);
    assert!(!m.fs.has_pending_worker_cleanup(92_102));
    // The hold applied once.
    assert!(pause_completed_reconcile_for_test(&mut m.hooks, 92_102).is_none());
}

fn membership_fs() -> Master {
    let mut m = Master::new();
    let mut worker = WorkerInfo::default();
    worker.address.worker_id = 100;
    m.fs.worker_manager.add_test_worker(worker);
    m
}

fn report_one(
    m: &mut Master,
    worker_id: u32,
    id: i64,
    status: BlockReportStatus,
    full_report: bool,
) -> Vec<i64> {
    m.block_report(BlockReportList {
        cluster_id: "curvine".to_string(),
        worker_id,
        worker_session_id: String::new(),
        full_report,
        total_len: 1,
        blocks: vec![BlockReportInfo::new(id, status, StorageType::Disk, 128)],
    })
    .unwrap()
}

#[test]
fn reports_reject_discarded_blocks_after_cache_invalidation() {
    let mut m = membership_fs();
    let path = "/cached-file";
    let block = m.cache_file(path, TtlAction::Delete, true, 100);
    let before = m.seen(path);
    assert!(before.cv_valid);
    m.delete_locations(100).unwrap();
    assert!(!m.seen(path).cv_valid);

    for (status, full_report) in
        [(BlockReportStatus::Finalized, false), (BlockReportStatus::Writing, true)]
    {
        assert_eq!(report_one(&mut m, 100, block, status, full_report), vec![block]);
        assert!(m.block_locations(block).is_empty());
        m.assert_invalidated(path, before);
    }
}

#[test]
fn reports_reject_old_blocks_after_overwrite_preserving_current_blocks() {
    let mut m = membership_fs();
    let path = "/overwritten-file";
    let old = m.cache_file(path, TtlAction::Free, false, 100);
    let inode = inode_of(old);
    let locs = vec![(old, m.block_locations(old))];
    let dropped: DeleteResult =
        discard_cache(&mut m.files.get_mut(&inode).unwrap().file, &locs, 100, true);
    assert_eq!(dropped.blocks, locs);
    assert_eq!(m.file(path).file.len, 0);
    let current = m.attach_block(inode, 128, &[100]);
    assert_ne!(old, current);

    let rejected = report_one(&mut m, 100, old, BlockReportStatus::Finalized, false);
    assert_eq!(rejected, vec![old]);
    assert!(m.block_locations(old).is_empty());
    m.assert_kept(path, current, 100);
}

#[test]
fn reports_accept_current_blocks_and_remove_deleted_locations() {
    let mut m = membership_fs();
    let block = m.cache_file("/current-file", TtlAction::Free, false, 100);
    let mut replica = WorkerInfo::default();
    replica.address.worker_id = 101;
    m.fs.worker_manager.add_test_worker(replica);

    for (status, full_report) in
        [(BlockReportStatus::Finalized, true), (BlockReportStatus::Writing, false)]
    {
        assert!(report_one(&mut m, 101, block, status, full_report).is_empty());
        assert!(m.block_locations(block).iter().any(|l| l.worker_id == 101));
        assert!(report_one(&mut m, 101, block, BlockReportStatus::Deleted, false).is_empty());
        assert!(m.block_locations(block).iter().all(|l| l.worker_id != 101));
    }
}

#[test]
fn incremental_writing_report_defers_unattached_block_without_adding_location() {
    let mut m = membership_fs();
    let inode = m.create("/writing-file", TtlAction::Free, 128);
    let id = block_id(inode, 0);
    assert!(report_one(&mut m, 100, id, BlockReportStatus::Writing, false).is_empty());
    assert!(m.block_locations(id).is_empty());

    // Once allocation attaches the id, the same writing report is valid.
    assert_eq!(m.attach_block(inode, 128, &[]), id);
    assert!(report_one(&mut m, 100, id, BlockReportStatus::Writing, false).is_empty());
    assert_eq!(m.block_locations(id).len(), 1);
}

fn info(id: i64, status: BlockReportStatus) -> BlockReportInfo {
    BlockReportInfo::new(id, status, StorageType::Disk, 128)
}

/// Applies a report chunk to the namespace, as one step.
fn apply_chunk(m: &mut Master, full_report: bool, chunk: Vec<BlockReportInfo>) -> Vec<i64> {
    let owners = chunk.iter().map(|b| m.holds(b.id).unwrap()).collect();
    let changes = apply_reported_blocks(100, full_report, &chunk, &owners);
    m.apply(changes.edits);
    changes.obsolete
}

#[test]
fn atomic_upgrade_preserves_mixed_status_order_for_duplicate_ids() {
    let mut m = membership_fs();
    let id = m.cache_file("/cached-file", TtlAction::Delete, true, 100);
    for (statuses, expected_locations) in [
        (vec![BlockReportStatus::Finalized, BlockReportStatus::Deleted], 0),
        (
            vec![
                BlockReportStatus::Deleted,
                BlockReportStatus::Writing,
                BlockReportStatus::Finalized,
            ],
            1,
        ),
    ] {
        let chunk = statuses.into_iter().map(|status| info(id, status)).collect();
        assert!(apply_chunk(&mut m, false, chunk).is_empty());
        assert_eq!(m.block_locations(id).len(), expected_locations);
    }
}

#[test]
fn atomic_upgrade_leaves_unknown_incremental_writing_until_authoritative_report() {
    let mut m = membership_fs();
    let current_id = m.cache_file("/cached-file", TtlAction::Delete, true, 100);
    let unknown_id = block_id(inode_of(current_id), 100);
    for (full_report, status, reject) in [
        (false, BlockReportStatus::Writing, false),
        (false, BlockReportStatus::Finalized, true),
        (true, BlockReportStatus::Writing, true),
    ] {
        // A location left from an older report must survive a non-authoritative
        // Writing report, but an authoritative report removes it.
        m.apply(vec![(true, unknown_id, BlockLocation::with_id(100))]);
        let obsolete = apply_chunk(&mut m, full_report, vec![info(unknown_id, status)]);
        if reject {
            assert_eq!(obsolete, vec![unknown_id]);
            assert!(m.block_locations(unknown_id).is_empty());
        } else {
            assert!(obsolete.is_empty());
            assert_eq!(m.block_locations(unknown_id).len(), 1);
        }
        assert_eq!(m.block_locations(current_id).len(), 1);
    }
}

#[test]
fn atomic_upgrade_allows_reader_and_commits_before_competing_writer() {
    for overwrite in [false, true] {
        let mut m = membership_fs();
        let id = m.cache_file("/cached-file", TtlAction::Delete, true, 100);
        // The file holds its block, but no location is on record.
        m.apply(vec![(false, id, BlockLocation::with_id(100))]);
        assert_eq!(m.holds(id).unwrap(), BlockOwner::File { holds: true });
        assert!(m.block_locations(id).is_empty());
        let obsolete = apply_chunk(&mut m, false, vec![info(id, BlockReportStatus::Finalized)]);
        assert!(obsolete.is_empty());
        assert_eq!(m.block_locations(id).len(), 1, "the report commits before the writer runs");

        if !overwrite {
            m.apply(vec![(false, id, BlockLocation::with_id(100))]);
        }
        let locs = vec![(id, m.block_locations(id))];
        let file = &mut m.files.get_mut(&inode_of(id)).unwrap().file;
        discard_cache(file, &locs, 100, overwrite);
        // A report arriving after either writer must reject the detached id.
        // For overwrite this also removes the location awaiting worker cleanup.
        let obsolete = apply_chunk(&mut m, false, vec![info(id, BlockReportStatus::Finalized)]);
        assert_eq!(obsolete, vec![id]);
        assert!(m.block_locations(id).is_empty());
    }
}

#[test]
fn atomic_upgrade_rejects_report_when_writer_discards_cache_first() {
    for overwrite in [false, true] {
        let mut m = membership_fs();
        let id = m.cache_file("/cached-file", TtlAction::Delete, true, 100);
        if !overwrite {
            m.apply(vec![(false, id, BlockLocation::with_id(100))]);
        }
        let locs = vec![(id, m.block_locations(id))];
        let file = &mut m.files.get_mut(&inode_of(id)).unwrap().file;
        let dropped = discard_cache(file, &locs, 100, overwrite);
        assert!(dropped.blocks.iter().any(|(block, _)| *block == id));
        // Overwrite detaches the block; its location remains until a later
        // authoritative or Deleted report.
        assert_eq!(m.block_locations(id).is_empty(), !overwrite);
        let obsolete = apply_chunk(&mut m, false, vec![info(id, BlockReportStatus::Finalized)]);
        assert_eq!(obsolete, vec![id]);
        assert!(m.block_locations(id).is_empty());
    }
}

fn capture_report(
    m: &mut Master,
    full_report: bool,
    blocks: Vec<BlockReportInfo>,
) -> (Result<Vec<i64>, FsError>, Vec<String>) {
    m.logs.clear();
    let result = m.block_report(BlockReportList {
        cluster_id: "curvine".to_string(),
        worker_id: 100,
        worker_session_id: String::new(),
        full_report,
        // These are partial full reports: nothing is reconciled.
        total_len: blocks.len() as u64 + 1,
        blocks,
    });
    (result, m.logs.clone())
}

const MISSING: i64 = 10_000_000 * BLOCKS_PER_INODE;

fn logging_fs() -> (Master, i64, i64, i64) {
    let mut m = membership_fs();
    let current = m.cache_file("/current", TtlAction::Free, false, 100);
    let stale = block_id(inode_of(current), 100);
    m.next_inode += 1;
    m.dirs.insert(m.next_inode);
    let directory = block_id(m.next_inode, 0);
    (m, current, stale, directory)
}

#[test]
fn block_report_logs_original_warnings_and_separate_stale_summary() {
    let (mut m, current, stale, directory) = logging_fs();
    let mut blocks = vec![
        info(current, BlockReportStatus::Finalized),
        info(current, BlockReportStatus::Writing),
    ];
    for status in [
        BlockReportStatus::Writing,
        BlockReportStatus::Deleted,
        BlockReportStatus::Finalized,
        BlockReportStatus::Finalized,
    ] {
        for id in [MISSING, directory, stale] {
            blocks.push(info(id, status));
        }
    }
    let (result, logs) = capture_report(&mut m, false, blocks);
    assert_eq!(
        result.unwrap(),
        vec![MISSING, directory, stale, MISSING, directory, stale]
    );
    assert_eq!(
        logs,
        vec![
            format!("block_report deferred deletion for writing block {MISSING} on worker 100 because its inode is missing"),
            format!("block_report deferred deletion for writing block {directory} on worker 100 because its inode is not a file"),
            "block_report found 2 missing-inode and 2 non-file-inode blocks for worker 100; scheduling worker deletion".to_string(),
            "block_report found 2 obsolete blocks in existing files for worker 100; scheduling worker deletion".to_string(),
        ]
    );
}

#[test]
fn block_report_logs_one_full_report_summary_across_chunks_and_duplicates() {
    let (mut m, _, stale, directory) = logging_fs();
    // Repeated ids span the chunk boundary.
    let mut blocks = vec![];
    for _ in 0..2048 {
        blocks.push(info(MISSING, BlockReportStatus::Writing));
        blocks.push(info(directory, BlockReportStatus::Writing));
    }
    blocks.extend([
        info(MISSING, BlockReportStatus::Finalized),
        info(directory, BlockReportStatus::Finalized),
        info(stale, BlockReportStatus::Writing),
    ]);
    let (result, logs) = capture_report(&mut m, true, blocks);
    assert_eq!(result.unwrap().len(), 4099);
    assert_eq!(
        logs,
        vec![
            "block_report found 2049 missing-inode and 2049 non-file-inode blocks for worker 100; scheduling worker deletion",
            "block_report found 1 obsolete blocks in existing files for worker 100; scheduling worker deletion",
        ]
    );
}

#[test]
fn block_report_logs_inode_error_without_committing_deleted_locations() {
    let (mut m, healthy, _, _) = logging_fs();
    let corrupt = m.cache_file("/corrupt", TtlAction::Free, false, 100);
    m.corrupt.insert(inode_of(corrupt));
    let blocks = || {
        vec![
            info(MISSING, BlockReportStatus::Writing),
            info(healthy, BlockReportStatus::Deleted),
            info(corrupt, BlockReportStatus::Deleted),
            info(MISSING, BlockReportStatus::Finalized),
            info(corrupt, BlockReportStatus::Finalized),
            info(corrupt, BlockReportStatus::Writing),
        ]
    };
    let (result, logs) = capture_report(&mut m, false, blocks());
    let error = result.err().expect("corrupt inode must fail the report");
    assert_eq!(
        logs,
        vec![
            format!("block_report deferred deletion for writing block {MISSING} on worker 100 because its inode is missing"),
            format!("block_report {:?}: {}", info(corrupt, BlockReportStatus::Finalized), error.message()),
        ]
    );
    assert_eq!(m.block_locations(healthy), vec![BlockLocation::with_id(100)]);
    assert_eq!(m.block_locations(corrupt), vec![BlockLocation::with_id(100)]);

    m.corrupt.clear();
    let (result, logs) = capture_report(&mut m, false, blocks());
    assert_eq!(result.unwrap(), vec![MISSING]);
    assert_eq!(logs.len(), 2);
    assert!(m.block_locations(healthy).is_empty());
    assert_eq!(m.block_locations(corrupt), vec![BlockLocation::with_id(100)]);
}

#[test]
fn block_report_deleted_only_does_not_read_or_log_corrupt_inode() {
    for full_report in [false, true] {
        let (mut m, id, _, _) = logging_fs();
        m.corrupt.insert(inode_of(id));
        let (result, logs) = capture_report(
            &mut m,
            full_report,
            vec![info(id, BlockReportStatus::Deleted), info(id, BlockReportStatus::Deleted)],
        );
        assert!(result.unwrap().is_empty());
        assert!(logs.is_empty());
        assert!(m.block_locations(id).is_empty());
    }
}

#[test]
fn block_report_error_summary_excludes_failed_chunk() {
    let (mut m, corrupt, _, _) = logging_fs();
    m.corrupt.insert(inode_of(corrupt));
    let mut blocks = vec![info(MISSING, BlockReportStatus::Finalized); 4097];
    blocks.push(info(corrupt, BlockReportStatus::Finalized));
    let (result, logs) = capture_report(&mut m, false, blocks);
    let error = result.err().expect("corrupt inode must fail the report");
    assert_eq!(
        logs,
        vec![
            format!("block_report {:?}: {}", info(corrupt, BlockReportStatus::Finalized), error.message()),
            "block_report found 4096 missing-inode and 0 non-file-inode blocks for worker 100; scheduling worker deletion".to_string(),
        ]
    );
}

#[test]
fn resent_chunks_do_not_complete_an_inventory() {
    let (mut m, header) = offline_worker_fs();
    let a = m.cache_file("/a", TtlAction::Free, false, 7);
    let b = m.cache_file("/b", TtlAction::Free, false, 7);
    let restarted = restarted(&header, "again");
    m.heartbeat(&restarted, HeartbeatStatus::Start);
    for _ in 0..3 {
        m.try_report(&restarted, true, 2, &[a]).unwrap();
        assert!(!m.report_complete(&restarted));
    }
    // In either order the two chunks make the inventory.
    m.try_report(&restarted, true, 2, &[b]).unwrap();
    assert!(m.report_complete(&restarted));
}

#[test]
fn inventory_with_another_length_starts_anew() {
    let (mut m, header) = offline_worker_fs();
    let a = m.cache_file("/a", TtlAction::Free, false, 7);
    let b = m.cache_file("/b", TtlAction::Free, false, 7);
    let restarted = restarted(&header, "again");
    m.heartbeat(&restarted, HeartbeatStatus::Start);
    m.try_report(&restarted, true, 3, &[a]).unwrap();
    m.try_report(&restarted, true, 2, &[b]).unwrap();
    assert!(!m.report_complete(&restarted));
    m.try_report(&restarted, true, 2, &[a]).unwrap();
    assert!(m.report_complete(&restarted));
}

#[test]
fn unfinished_inventory_is_forgotten_after_its_time() {
    let (mut m, header) = offline_worker_fs();
    let a = m.cache_file("/a", TtlAction::Free, false, 7);
    let b = m.cache_file("/b", TtlAction::Free, false, 7);
    let restarted = restarted(&header, "again");
    m.heartbeat(&restarted, HeartbeatStatus::Start);
    m.try_report(&restarted, true, 2, &[a]).unwrap();
    m.now = NOW + FULL_BLOCK_REPORT_TTL_MS + 1;
    m.try_report(&restarted, true, 2, &[b]).unwrap();
    assert!(!m.report_complete(&restarted));
    m.now += FULL_BLOCK_REPORT_TTL_MS;
    m.try_report(&restarted, true, 2, &[a]).unwrap();
    assert!(m.report_complete(&restarted));
}

#[test]
fn newer_start_outdates_a_queued_inventory() {
    let (mut m, header) = offline_worker_fs();
    let a = m.cache_file("/a", TtlAction::Delete, true, 7);
    let first = restarted(&header, "first");
    m.heartbeat(&first, HeartbeatStatus::Start);
    m.hold_executor = true;
    m.report(&first, true, &[]);
    let second = restarted(&first, "second");
    m.heartbeat(&second, HeartbeatStatus::Start);
    m.release_executor();
    assert!(!m.report_complete(&second));
    assert!(m.seen("/a").cv_valid, "an outdated inventory must not discard anything");
    m.report(&second, true, &[a]);
    assert!(m.report_complete(&second));
    m.heartbeat(&second, HeartbeatStatus::Running);
    m.assert_kept("/a", a, 7);
}

#[test]
fn reconciliation_that_could_not_be_queued_is_retried() {
    let (mut m, header) = offline_worker_fs();
    let a = m.cache_file("/a", TtlAction::Delete, true, 7);
    let restarted = restarted(&header, "again");
    m.heartbeat(&restarted, HeartbeatStatus::Start);
    m.refuse_spawn = true;
    assert!(m.try_report(&restarted, true, 1, &[a]).is_err());
    m.refuse_spawn = false;
    let due = NOW + m.fs.conf.worker_check_interval_ms;
    m.retry_reconciles(due - 1);
    assert!(!m.report_complete(&restarted));
    m.retry_reconciles(due);
    assert!(m.report_complete(&restarted));
}

#[test]
fn report_of_the_current_process_is_built_from_the_worker() {
    let mut worker = WorkerInfo::default();
    worker.address.worker_id = 9;
    worker.worker_session_id = "s".to_string();
    let list = report(&worker, true, vec![finalized(4), finalized(5)]);
    assert_eq!(list.cluster_id, "curvine");
    assert_eq!((list.worker_id, list.total_len, list.full_report), (9, 2, true));
    assert_eq!(list.worker_session_id, "s");
    assert_eq!(list.blocks[1], info(5, BlockReportStatus::Finalized));
}

#[test]
fn chunk_boundaries_do_not_change_a_report() {
    let (m, current, stale, directory) = logging_fs();
    let blocks: Vec<BlockReportInfo> = [current, MISSING, stale, directory, current]
        .iter()
        .zip([
            BlockReportStatus::Finalized,
            BlockReportStatus::Writing,
            BlockReportStatus::Finalized,
            BlockReportStatus::Finalized,
            BlockReportStatus::Deleted,
        ])
        .map(|(id, status)| info(*id, status))
        .collect();
    let owners: Vec<BlockOwner> = blocks.iter().map(|b| m.holds(b.id).unwrap()).collect();
    let whole = apply_reported_blocks(100, false, &blocks, &owners);
    let mut seen = BlockReportDiagnostics::new(100, false);
    seen.observe(&blocks, &owners);
    for cut in 0..blocks.len() {
        let mut edits = vec![];
        let mut obsolete = vec![];
        let mut parts = BlockReportDiagnostics::new(100, false);
        for (b, o) in [(&blocks[..cut], &owners[..cut]), (&blocks[cut..], &owners[cut..])] {
            let changes = apply_reported_blocks(100, false, &b.to_vec(), &o.to_vec());
            edits.extend(changes.edits);
            obsolete.extend(changes.obsolete);
            parts.observe(&b.to_vec(), &o.to_vec());
        }
        assert_eq!(edits, whole.edits);
        assert_eq!(obsolete, whole.obsolete);
        assert_eq!(parts.deferred, seen.deferred);
        assert_eq!(parts.summary(), seen.summary());
    }
    assert_eq!(whole.obsolete, vec![stale, directory]);
}

#[test]
fn removal_goes_in_bounded_batches() {
    let mut m = Master::new();
    let ids: Vec<i64> = (0..BLOCK_REPORT_WRITE_CHUNK as i64 + 1).collect();
    let mut task = m.fs.delete_locations(3, ids);
    let first = task.next_batch().unwrap();
    assert_eq!(first.len(), BLOCK_REPORT_WRITE_CHUNK);
    assert_eq!(first[0], (false, 0, BlockLocation::with_id(3)));
    assert_eq!(task.next_batch().unwrap().len(), 1);
    assert!(task.next_batch().is_none());
    assert!(m.fs.has_pending_worker_cleanup(3));
}

#[test]
fn discarded_blocks_are_found_from_what_files_hold() {
    let current = CurrentBlocks {
        owners: vec![1, 1, 2, 3],
        files: vec![(1, vec![10]), (2, vec![])],
    };
    let gone = MasterFilesystem::discarded_cleanup_blocks(&vec![10, 11, 20, 30], &current);
    assert_eq!(gone, vec![11, 20, 30]);
}

#[test]
fn block_ids_are_a_set_in_order() {
    let mut ids = BlockIds::new();
    assert!(ids.is_empty());
    ids.extend(&vec![5, -3, 5, 9]);
    ids.remove(9);
    ids.insert(0);
    assert_eq!(ids.len(), 3);
    assert!(ids.contains(-3) && !ids.contains(9));
    assert_eq!(ids.to_vec(), vec![-3, 0, 5]);
}

#[test]
fn client_is_named_with_a_block_request() {
    let client = ClientAddress { client_name: "c".to_string(), hostname: "h".to_string() };
    let file = InodeFile {
        id: 1,
        len: 0,
        block_size: 128,
        replicas: 2,
        storage_type: StorageType::Disk,
        file_type: FileType::File,
        blocks: vec![],
    };
    let request = MasterFilesystem::validate_add_block(&file, &client, None).unwrap();
    assert_eq!((request.replicas, request.block_size), (2, 128));
    assert_eq!(request.client_host, "h");
}

#[test]
fn warnings_come_before_the_summary_and_the_error_between_them() {
    let mut findings = BlockReportDiagnostics::new(7, false);
    let chunk = vec![
        BlockReportInfo::new(1, BlockReportStatus::Writing, StorageType::Disk, 1),
        finalized(2),
        finalized(3),
    ];
    let owners =
        vec![BlockOwner::Missing, BlockOwner::NotFile, BlockOwner::File { holds: false }];
    findings.observe(&chunk, &owners);
    assert_eq!(
        findings.warnings(Some("unreadable".to_string())),
        [
            "block_report deferred deletion for writing block 1 on worker 7 because its inode \
             is missing",
            "unreadable",
            "block_report found 0 missing-inode and 1 non-file-inode blocks for worker 7; \
             scheduling worker deletion",
            "block_report found 1 obsolete blocks in existing files for worker 7; scheduling \
             worker deletion",
        ]
    );
    assert!(BlockReportDiagnostics::new(7, false).warnings(None).is_empty());
}

#[test]
fn cleanup_stays_scheduled_until_it_succeeds() {
    let (mut m, header) = offline_worker_fs();
    m.heartbeat(&header, HeartbeatStatus::End);
    let worker = m.take_expired(u64::MAX).remove(0);
    let failed = FsError::Common { message: "unavailable".to_string() };
    let ended = m.fs.lost_worker_cleanup_ended(&worker, Some(Err(failed)));
    assert_eq!(ended.err().unwrap().message(), "unavailable");
    assert!(m.fs.worker_manager.offline_workers.contains_key(7));

    // A worker that came back leaves nothing to do, and nothing to finish.
    let ended = m.fs.lost_worker_cleanup_ended(&worker, None).ok().unwrap();
    assert!(ended.removed_block_ids.is_empty() && ended.replication_block_ids.is_empty());
    assert!(m.fs.worker_manager.offline_workers.contains_key(7));

    let cleanup = LostWorkerLocationCleanup {
        removed_block_ids: vec![1, 2],
        replication_block_ids: vec![2],
    };
    let ended = m.fs.lost_worker_cleanup_ended(&worker, Some(Ok(cleanup))).ok().unwrap();
    assert_eq!((ended.removed_block_ids, ended.replication_block_ids), (vec![1, 2], vec![2]));
    assert!(!m.fs.worker_manager.offline_workers.contains_key(7));
    assert!(m.take_expired(u64::MAX).is_empty());
}

#[test]
fn invalidation_results_add_up() {
    let at = |id: i64| (id, vec![BlockLocation::with_id(1)]);
    let mut sum = CacheInvalidationResult::discarded(&vec![1], vec![at(1)]);
    let mut more = CacheInvalidationResult::discarded(&vec![2, 1], vec![at(2)]);
    more.delete_result.inodes = 3;
    more.delete_result.bytes = i64::MAX;
    sum.extend(more);
    let mut last = CacheInvalidationResult::discarded(&vec![], vec![]);
    last.delete_result.inodes = 1;
    last.delete_result.bytes = 1;
    sum.extend(last);
    assert_eq!(sum.invalidated_block_ids.to_vec(), vec![1, 2]);
    assert_eq!(sum.delete_result.blocks, vec![at(1), at(2)]);
    assert_eq!((sum.delete_result.inodes, sum.delete_result.bytes), (4, i64::MAX));
}

#[test]
fn reconciliation_reports_what_it_leaves_short_of_replicas() {
    for replicate in [false, true] {
        let (mut m, header) = offline_worker_fs();
        m.replicate = replicate;
        let kept = m.cache_file("/kept-cache", TtlAction::Free, true, 7);
        let short = m.cache_file("/short-cache", TtlAction::Free, true, 7);
        assert!(m.report(&header, true, &[kept, short]).is_empty());
        assert!(m.reported.is_empty(), "nothing is missing");
        assert!(m.report(&header, true, &[kept]).is_empty());
        assert_eq!(m.reported, if replicate { vec![short] } else { vec![] });
    }
}
