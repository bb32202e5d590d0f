//! How workers start, run, end, time out and come back.

use curvine_master::block_map::{DeleteResult, WorkerCommand};
use curvine_master::error::{ErrorKind, FsError};
use curvine_master::model::{
    BlockLocation, ExtendedBlock, FileType, HeartbeatStatus, StorageInfo, StorageType,
    TransferWorkerCapabilities, WorkerAddress, WorkerInfo, WorkerStatus,
};
use curvine_master::worker_manager::WorkerManager;

const NOW: u64 = 1_700_000_000_000;
const GRACE: u64 = 600_000;

fn lifecycle_manager() -> WorkerManager {
    WorkerManager::new("curvine", GRACE)
}

fn address(worker_id: u32) -> WorkerAddress {
    WorkerAddress {
        worker_id,
        hostname: format!("worker-{worker_id}"),
        ip_addr: "127.0.0.1".to_string(),
        rpc_port: 8997,
        web_port: 9001,
    }
}

fn heartbeat_from(
    manager: &mut WorkerManager,
    status: HeartbeatStatus,
    addr: WorkerAddress,
    session: &str,
    startup: u64,
    now: u64,
) -> Result<Vec<WorkerCommand>, FsError> {
    manager.heartbeat(
        "curvine",
        status,
        addr,
        1,
        session.to_string(),
        TransferWorkerCapabilities::default(),
        "test".to_string(),
        startup,
        vec![],
        None,
        now,
    )
}

fn try_lifecycle_heartbeat(
    manager: &mut WorkerManager,
    status: HeartbeatStatus,
    session: &str,
    startup: u64,
) -> Result<(), FsError> {
    heartbeat_from(manager, status, address(7), session, startup, NOW).map(|_| ())
}

fn lifecycle_heartbeat(
    manager: &mut WorkerManager,
    status: HeartbeatStatus,
    session: &str,
    startup: u64,
) {
    try_lifecycle_heartbeat(manager, status, session, startup).unwrap();
}

fn ended_manager() -> WorkerManager {
    let mut manager = lifecycle_manager();
    lifecycle_heartbeat(&mut manager, HeartbeatStatus::Running, "old", 1);
    lifecycle_heartbeat(&mut manager, HeartbeatStatus::End, "old", 1);
    manager
}

fn deadline_of(manager: &WorkerManager, id: u32) -> u64 {
    manager.offline_workers.get(id).unwrap().deadline_ms
}

#[test]
fn offline_grace_dispatches_at_deadline_once() {
    let mut manager = ended_manager();
    let deadline = deadline_of(&manager, 7);
    assert_eq!(deadline, NOW + GRACE);
    assert!(manager.take_expired_offline_workers(deadline - 1).is_empty());
    let due = manager.take_expired_offline_workers(deadline);
    assert_eq!(due.len(), 1);
    assert!(manager.take_expired_offline_workers(u64::MAX).is_empty());
    manager.finish_offline_worker_cleanup(&due[0]);
    assert!(manager.offline_workers.ids().is_empty());
}

#[test]
fn duplicate_end_and_cleanup_retry_preserve_original_deadline() {
    let mut manager = ended_manager();
    let deadline = deadline_of(&manager, 7);
    lifecycle_heartbeat(&mut manager, HeartbeatStatus::End, "old", 1);
    assert_eq!(deadline_of(&manager, 7), deadline);

    let worker = manager.take_expired_offline_workers(deadline).remove(0);
    manager.queue_offline_worker(worker);
    assert_eq!(deadline_of(&manager, 7), deadline);
    assert_eq!(manager.take_expired_offline_workers(deadline).len(), 1);
}

#[test]
fn failed_restart_and_early_running_do_not_cancel_grace() {
    let mut manager = ended_manager();
    let deadline = deadline_of(&manager, 7);
    lifecycle_heartbeat(&mut manager, HeartbeatStatus::Start, "new", 2);
    lifecycle_heartbeat(&mut manager, HeartbeatStatus::Running, "new", 2);
    assert!(manager.get_worker(7).is_none());
    assert_eq!(deadline_of(&manager, 7), deadline);
    assert_eq!(manager.take_expired_offline_workers(deadline).len(), 1);
}

#[test]
fn completed_current_report_and_running_cancel_grace() {
    let mut manager = ended_manager();
    lifecycle_heartbeat(&mut manager, HeartbeatStatus::Start, "new", 2);
    assert!(!manager.block_report_session_matches(7, "old"));
    assert!(manager.block_report_session_matches(7, "new"));
    assert!(manager.block_report_session_matches(7, ""));
    manager.complete_worker_block_report(7, "old");
    lifecycle_heartbeat(&mut manager, HeartbeatStatus::Running, "new", 2);
    assert!(manager.get_worker(7).is_none());

    manager.complete_worker_block_report(7, "new");
    lifecycle_heartbeat(&mut manager, HeartbeatStatus::Running, "old", 1);
    assert!(manager.get_worker(7).is_none());
    lifecycle_heartbeat(&mut manager, HeartbeatStatus::Running, "new", 2);
    assert_eq!(manager.get_worker(7).unwrap().worker_session_id, "new");
    assert!(manager.take_expired_offline_workers(u64::MAX).is_empty());
}

#[test]
fn end_requires_start_even_after_cleanup_finishes() {
    let mut manager = ended_manager();
    lifecycle_heartbeat(&mut manager, HeartbeatStatus::Running, "old", 1);
    assert!(manager.get_worker(7).is_none());
    assert!(!manager.block_report_session_matches(7, "old"));

    let worker = manager.take_expired_offline_workers(u64::MAX).remove(0);
    manager.finish_offline_worker_cleanup(&worker);
    lifecycle_heartbeat(&mut manager, HeartbeatStatus::Running, "old", 1);
    assert!(manager.get_worker(7).is_none());
}

#[test]
fn ended_worker_rejects_reports_without_session() {
    let mut manager = ended_manager();
    assert!(!manager.block_report_session_matches(7, ""));
    let worker = manager.take_expired_offline_workers(u64::MAX).remove(0);
    manager.finish_offline_worker_cleanup(&worker);
    assert!(!manager.block_report_session_matches(7, ""));
}

#[test]
fn legacy_report_can_complete_start_and_running_registration() {
    for session in ["", "current-session"] {
        let mut manager = lifecycle_manager();
        lifecycle_heartbeat(&mut manager, HeartbeatStatus::Start, session, 1);
        assert!(manager.block_report_session_matches(7, ""));
        manager.complete_worker_block_report(7, "");
        lifecycle_heartbeat(&mut manager, HeartbeatStatus::Running, session, 1);
        assert!(manager.get_worker(7).is_some());
        assert!(manager.block_report_session_matches(7, ""));
    }
}

#[test]
fn start_of_live_worker_keeps_failed_restart_cleanup() {
    let mut manager = lifecycle_manager();
    lifecycle_heartbeat(&mut manager, HeartbeatStatus::Running, "old", 1);
    lifecycle_heartbeat(&mut manager, HeartbeatStatus::Start, "new", 2);
    assert!(manager.get_worker(7).is_none());
    assert_eq!(manager.take_expired_offline_workers(u64::MAX).len(), 1);
}

#[test]
fn fresh_start_failure_has_cleanup_deadline() {
    let mut manager = lifecycle_manager();
    lifecycle_heartbeat(&mut manager, HeartbeatStatus::Start, "new", 2);
    let worker = &manager.offline_workers.get(7).unwrap().worker;
    assert_eq!(worker.worker_session_id, "new");
    assert_eq!(worker.startup_time_ms, 2);
    assert_eq!(worker.software_version, "test");
    let deadline = deadline_of(&manager, 7);
    assert!(manager.take_expired_offline_workers(deadline - 1).is_empty());
    lifecycle_heartbeat(&mut manager, HeartbeatStatus::End, "new", 2);
    assert_eq!(manager.take_expired_offline_workers(deadline).len(), 1);
}

#[test]
fn duplicate_start_preserves_recovery_progress_and_live_registration() {
    let mut manager = lifecycle_manager();
    lifecycle_heartbeat(&mut manager, HeartbeatStatus::Start, "new", 2);
    let deadline = deadline_of(&manager, 7);
    lifecycle_heartbeat(&mut manager, HeartbeatStatus::Start, "new", 2);
    assert_eq!(deadline_of(&manager, 7), deadline);
    assert!(!manager.worker_block_report_complete(7, "new"));

    manager.complete_worker_block_report(7, "new");
    lifecycle_heartbeat(&mut manager, HeartbeatStatus::Start, "new", 2);
    assert!(manager.worker_block_report_complete(7, "new"));
    lifecycle_heartbeat(&mut manager, HeartbeatStatus::Running, "new", 2);
    assert!(manager.get_worker(7).is_some());

    lifecycle_heartbeat(&mut manager, HeartbeatStatus::Start, "new", 2);
    assert!(manager.get_worker(7).is_some());
    assert!(manager.offline_workers.ids().is_empty());
}

#[test]
fn ended_process_can_explicitly_register_again_without_extending_grace() {
    let mut manager = ended_manager();
    let deadline = deadline_of(&manager, 7);
    lifecycle_heartbeat(&mut manager, HeartbeatStatus::Start, "old", 1);
    assert_eq!(deadline_of(&manager, 7), deadline);
    assert!(manager.block_report_session_matches(7, "old"));
    manager.complete_worker_block_report(7, "old");
    lifecycle_heartbeat(&mut manager, HeartbeatStatus::Running, "old", 1);
    assert!(manager.get_worker(7).is_some());
}

#[test]
fn superseded_start_cannot_reset_recovery_or_evict_current_worker() {
    let mut manager = ended_manager();
    let deadline = deadline_of(&manager, 7);
    // Startup timestamps need not be monotonic across process restarts.
    lifecycle_heartbeat(&mut manager, HeartbeatStatus::Start, "new", 0);
    manager.complete_worker_block_report(7, "new");
    assert!(try_lifecycle_heartbeat(&mut manager, HeartbeatStatus::Start, "old", 1).is_err());
    assert_eq!(deadline_of(&manager, 7), deadline);
    assert!(manager.worker_block_report_complete(7, "new"));

    lifecycle_heartbeat(&mut manager, HeartbeatStatus::Running, "new", 0);
    let last_update = manager.get_worker(7).unwrap().last_update;
    assert!(try_lifecycle_heartbeat(&mut manager, HeartbeatStatus::Start, "old", 1).is_err());
    let current = manager.get_worker(7).unwrap();
    assert_eq!(current.worker_session_id, "new");
    assert_eq!(current.last_update, last_update);
    assert!(manager.offline_workers.ids().is_empty());
}

#[test]
fn legacy_empty_session_is_not_retired() {
    let mut manager = lifecycle_manager();
    lifecycle_heartbeat(&mut manager, HeartbeatStatus::Running, "", 1);
    lifecycle_heartbeat(&mut manager, HeartbeatStatus::Start, "new", 2);
    manager.complete_worker_block_report(7, "new");
    lifecycle_heartbeat(&mut manager, HeartbeatStatus::Running, "new", 2);
    lifecycle_heartbeat(&mut manager, HeartbeatStatus::Start, "", 3);
    manager.complete_worker_block_report(7, "");
    lifecycle_heartbeat(&mut manager, HeartbeatStatus::Running, "", 3);
    assert_eq!(manager.get_worker(7).unwrap().worker_session_id, "");
}

#[test]
fn replaced_worker_id_cannot_start_its_old_session_again() {
    let mut manager = ended_manager();
    let mut replacement = manager.worker_map.lost_workers.get(7).unwrap().address.clone();
    replacement.worker_id = 8;
    for status in [HeartbeatStatus::Start, HeartbeatStatus::Running] {
        heartbeat_from(&mut manager, status, replacement.clone(), "replacement", 2, NOW).unwrap();
        manager.complete_worker_block_report(8, "replacement");
    }
    assert!(try_lifecycle_heartbeat(&mut manager, HeartbeatStatus::Start, "old", 1).is_err());
    assert_eq!(manager.get_worker(8).unwrap().worker_session_id, "replacement");
    assert!(manager.get_worker(7).is_none());
}

#[test]
fn direct_running_replacement_retires_known_lost_session() {
    let mut manager = ended_manager();
    let mut replacement = manager.worker_map.lost_workers.get(7).unwrap().address.clone();
    replacement.worker_id = 8;
    heartbeat_from(&mut manager, HeartbeatStatus::Running, replacement, "replacement", 2, NOW)
        .unwrap();
    assert!(try_lifecycle_heartbeat(&mut manager, HeartbeatStatus::Start, "old", 1).is_err());
    assert_eq!(manager.get_worker(8).unwrap().worker_session_id, "replacement");
}

#[test]
fn heartbeat_timeout_retries_are_due_without_another_grace() {
    let mut manager = lifecycle_manager();
    lifecycle_heartbeat(&mut manager, HeartbeatStatus::Running, "old", 1);
    let worker = manager.remove_expired_worker(7).unwrap();
    manager.queue_offline_worker(worker);
    assert_eq!(manager.take_expired_offline_workers(0).len(), 1);
    lifecycle_heartbeat(&mut manager, HeartbeatStatus::Running, "old", 1);
    assert!(manager.get_worker(7).is_some());
    assert!(manager.take_expired_offline_workers(u64::MAX).is_empty());
}

#[test]
fn retired_running_cannot_replace_the_current_timed_out_process() {
    let mut manager = ended_manager();
    lifecycle_heartbeat(&mut manager, HeartbeatStatus::Start, "new", 2);
    manager.complete_worker_block_report(7, "new");
    lifecycle_heartbeat(&mut manager, HeartbeatStatus::Running, "new", 2);
    let lost = manager.remove_expired_worker(7).unwrap();

    lifecycle_heartbeat(&mut manager, HeartbeatStatus::Running, "old", 1);
    assert!(manager.get_worker(7).is_none());
    assert_eq!(manager.offline_workers.get(7).unwrap().worker.worker_session_id, "new");
    lifecycle_heartbeat(&mut manager, HeartbeatStatus::Running, "new", 99);
    assert!(manager.get_worker(7).is_none());
    lifecycle_heartbeat(&mut manager, HeartbeatStatus::Running, "unknown", 2);
    assert!(manager.get_worker(7).is_none());

    let mut wrong_endpoint = lost.address.clone();
    wrong_endpoint.rpc_port += 1;
    assert!(!manager.accepts_running_heartbeat(&wrong_endpoint, "new", 2));
    assert!(manager.accepts_running_heartbeat(&lost.address, "new", 2));
    lifecycle_heartbeat(&mut manager, HeartbeatStatus::Running, "new", 2);
    assert_eq!(manager.get_worker(7).unwrap().worker_session_id, "new");
    assert!(manager.offline_workers.ids().is_empty());
}

fn worker_with_available(worker_id: u32, available: i64) -> WorkerInfo {
    let mut worker = WorkerInfo::default();
    worker.address.worker_id = worker_id;
    worker.available = available;
    worker
}

#[test]
fn available_bytes_clamps_negative_values_and_saturates() {
    let mut manager = lifecycle_manager();
    manager.add_test_worker(worker_with_available(1, -10));
    manager.add_test_worker(worker_with_available(2, 20));
    assert_eq!(manager.available_bytes(), 20);

    manager.add_test_worker(worker_with_available(3, i64::MAX));
    assert_eq!(manager.available_bytes(), i64::MAX);
}

#[test]
fn other_cluster_is_refused_and_changes_nothing() {
    let mut manager = lifecycle_manager();
    let refused = manager.heartbeat(
        "elsewhere",
        HeartbeatStatus::Running,
        address(7),
        1,
        "s".to_string(),
        TransferWorkerCapabilities::default(),
        "test".to_string(),
        1,
        vec![],
        None,
        NOW,
    );
    assert_eq!(
        refused,
        Err(FsError::ClusterMismatch {
            expected: "curvine".to_string(),
            actual: "elsewhere".to_string(),
        })
    );
    assert!(manager.get_worker(7).is_none());
    assert!(manager.offline_workers.ids().is_empty());
}

#[test]
fn worker_id_cannot_move_to_another_endpoint_while_it_is_live() {
    let mut manager = lifecycle_manager();
    lifecycle_heartbeat(&mut manager, HeartbeatStatus::Running, "old", 1);
    let mut moved = address(7);
    moved.hostname = "elsewhere".to_string();
    let refused = heartbeat_from(&mut manager, HeartbeatStatus::Start, moved.clone(), "b", 1, NOW);
    assert_eq!(refused, Err(FsError::WorkerIdConflict { worker_id: 7 }));
    // A process that merely claims to run there is not taken in.
    let ignored = heartbeat_from(&mut manager, HeartbeatStatus::Running, moved, "b", 1, NOW);
    assert_eq!(ignored, Ok(vec![]));
    assert_eq!(manager.get_worker(7).unwrap().address.hostname, "worker-7");
}

#[test]
fn retired_start_names_its_worker() {
    let mut manager = ended_manager();
    lifecycle_heartbeat(&mut manager, HeartbeatStatus::Start, "new", 2);
    let refused = try_lifecycle_heartbeat(&mut manager, HeartbeatStatus::Start, "old", 1);
    assert_eq!(refused, Err(FsError::RetiredSession { address: address(7) }));
    // Retirement lasts through everything that the current process does.
    manager.complete_worker_block_report(7, "new");
    lifecycle_heartbeat(&mut manager, HeartbeatStatus::Running, "new", 2);
    lifecycle_heartbeat(&mut manager, HeartbeatStatus::End, "new", 2);
    assert!(manager.retired_worker_sessions.contains(7, "old"));
    assert!(!manager.retired_worker_sessions.contains(8, "old"));
    assert!(!manager.retired_worker_sessions.contains(7, "new"));
    let refused = try_lifecycle_heartbeat(&mut manager, HeartbeatStatus::Start, "old", 1);
    let port = address(7).rpc_port;
    assert_eq!(
        refused.unwrap_err().message(),
        format!("Worker worker-7:{port} Start uses a retired process session")
    );
}

#[test]
fn running_heartbeats_hand_out_deletions_until_they_are_confirmed() {
    let mut manager = lifecycle_manager();
    lifecycle_heartbeat(&mut manager, HeartbeatStatus::Running, "s", 1);
    manager.remove_block(7, 11);
    manager.remove_blocks(&DeleteResult {
        inodes: 0,
        bytes: 0,
        blocks: vec![(12, vec![BlockLocation::with_id(7), BlockLocation::with_id(8)])],
    });
    for _ in 0..2 {
        let commands =
            heartbeat_from(&mut manager, HeartbeatStatus::Running, address(7), "s", 1, NOW)
                .unwrap();
        assert_eq!(commands, vec![WorkerCommand::DeleteBlock { blocks: vec![11, 12] }]);
    }
    manager.deleted_block(7, 11);
    let commands =
        heartbeat_from(&mut manager, HeartbeatStatus::Running, address(7), "s", 1, NOW).unwrap();
    assert_eq!(commands, vec![WorkerCommand::DeleteBlock { blocks: vec![12] }]);
    manager.deleted_block(7, 12);
    let commands =
        heartbeat_from(&mut manager, HeartbeatStatus::Running, address(7), "s", 1, NOW).unwrap();
    assert!(commands.is_empty());
}

#[test]
fn grace_saturates_at_the_end_of_time() {
    let mut manager = lifecycle_manager();
    lifecycle_heartbeat(&mut manager, HeartbeatStatus::Running, "old", 1);
    heartbeat_from(&mut manager, HeartbeatStatus::End, address(7), "old", 1, u64::MAX - 1).unwrap();
    assert_eq!(deadline_of(&manager, 7), u64::MAX);
}

#[test]
fn end_of_another_process_is_ignored() {
    let mut manager = lifecycle_manager();
    lifecycle_heartbeat(&mut manager, HeartbeatStatus::Running, "current", 2);
    lifecycle_heartbeat(&mut manager, HeartbeatStatus::End, "former", 1);
    assert!(manager.get_worker(7).is_some());
    assert!(manager.offline_workers.ids().is_empty());
}

#[test]
fn late_report_of_a_lost_worker_is_cleaned_up_at_a_fresh_deadline() {
    let mut manager = lifecycle_manager();
    lifecycle_heartbeat(&mut manager, HeartbeatStatus::Start, "new", 2);
    let due = manager.take_expired_offline_workers(u64::MAX);
    manager.finish_offline_worker_cleanup(&due[0]);
    assert!(manager.take_expired_offline_workers(u64::MAX).is_empty());
    manager.ensure_report_cleanup(7, NOW + 5);
    assert_eq!(deadline_of(&manager, 7), NOW + 5 + GRACE);
    manager.ensure_report_cleanup(7, NOW + 50);
    assert_eq!(deadline_of(&manager, 7), NOW + 5 + GRACE);
    // A live worker needs no cleanup.
    manager.complete_worker_block_report(7, "new");
    lifecycle_heartbeat(&mut manager, HeartbeatStatus::Running, "new", 2);
    manager.ensure_report_cleanup(7, NOW + 60);
    assert!(manager.offline_workers.ids().is_empty());
}

#[test]
fn queued_worker_that_came_back_is_not_cleaned_up() {
    let mut manager = lifecycle_manager();
    lifecycle_heartbeat(&mut manager, HeartbeatStatus::Running, "old", 1);
    let gone = manager.remove_expired_worker(7).unwrap();
    assert!(manager.is_lost_worker(&gone));
    assert!(manager.remove_expired_worker(7).is_none());
    lifecycle_heartbeat(&mut manager, HeartbeatStatus::Running, "old", 1);
    assert!(!manager.is_lost_worker(&gone));
    manager.queue_offline_worker(gone);
    assert!(manager.take_expired_offline_workers(u64::MAX).is_empty());
}

#[test]
fn blacklisting_keeps_the_worker_registered() {
    let mut manager = lifecycle_manager();
    lifecycle_heartbeat(&mut manager, HeartbeatStatus::Running, "s", 1);
    let listed = manager.add_blacklist_worker(7).unwrap();
    assert_eq!(listed.address.worker_id, 7);
    assert_eq!(manager.get_worker(7).unwrap().status, WorkerStatus::Blacklist);
    assert!(manager.add_blacklist_worker(7).is_none());
    assert!(manager.add_blacklist_worker(8).is_none());
    lifecycle_heartbeat(&mut manager, HeartbeatStatus::Running, "s", 1);
    assert_eq!(manager.get_worker(7).unwrap().status, WorkerStatus::Live);
}

#[test]
fn last_heartbeats_are_listed_by_worker() {
    let mut manager = lifecycle_manager();
    heartbeat_from(&mut manager, HeartbeatStatus::Running, address(9), "b", 1, NOW + 2).unwrap();
    heartbeat_from(&mut manager, HeartbeatStatus::Running, address(3), "a", 1, NOW + 1).unwrap();
    assert_eq!(manager.get_last_heartbeat(), vec![(3, NOW + 1), (9, NOW + 2)]);
    assert_eq!(
        manager.worker_list(),
        vec!["3,worker-3:8997".to_string(), "9,worker-9:8997".to_string()]
    );
}

#[test]
fn decommissioned_workers_are_named_by_host() {
    let mut manager = lifecycle_manager();
    lifecycle_heartbeat(&mut manager, HeartbeatStatus::Running, "s", 1);
    assert!(manager.get_dcm().is_empty());
    let name = "worker-7".to_string();
    let added = manager.add_dcm(vec![name.clone(), "worker-9".to_string()]);
    assert_eq!(added, vec!["7,worker-7:8997".to_string()]);
    assert_eq!(manager.get_worker(7).unwrap().status, WorkerStatus::Decommission);
    assert_eq!(manager.get_dcm(), vec!["7,worker-7:8997".to_string()]);
    let removed = manager.remove_dcm(vec![name]);
    assert_eq!(removed, vec!["7,worker-7:8997".to_string()]);
    assert!(manager.get_dcm().is_empty());
}

#[test]
fn chosen_workers_must_be_some_and_not_too_many() {
    let two = || Ok(vec![address(1), address(2)]);
    assert_eq!(WorkerManager::choose_worker(2, two()).unwrap().len(), 2);
    assert_eq!(WorkerManager::choose_worker(1, two()), Err(FsError::TooManyForReplicas));
    assert_eq!(WorkerManager::choose_worker(1, Ok(vec![])), Err(FsError::NoAvailableWorker));
    assert_eq!(WorkerManager::choose_workers(2, two()).unwrap().len(), 2);
    assert_eq!(WorkerManager::choose_workers(1, two()), Err(FsError::TooManyForCount));
    assert_eq!(WorkerManager::choose_workers(1, Ok(vec![])), Err(FsError::NoAvailableWorker));
    let failed = FsError::Common { message: "policy".to_string() };
    assert_eq!(
        WorkerManager::choose_worker(1, Err(FsError::Common { message: "policy".to_string() })),
        Err(failed)
    );
}

fn block(id: i64) -> ExtendedBlock {
    ExtendedBlock {
        id,
        len: 4,
        storage_type: StorageType::Disk,
        file_type: FileType::File,
        alloc_opts: None,
    }
}

#[test]
fn located_block_names_its_live_workers_only() {
    let mut manager = lifecycle_manager();
    lifecycle_heartbeat(&mut manager, HeartbeatStatus::Running, "s", 1);
    let locs = vec![BlockLocation::with_id(8), BlockLocation::with_id(7)];
    let located = manager.create_locate_block("/f", block(5), &locs).unwrap();
    assert_eq!(located.block.id, 5);
    assert_eq!(located.locs, vec![address(7)]);
    assert!(!located.has_spdk);

    manager.remove_expired_worker(7);
    let lost = manager.create_locate_block("/f", block(5), &locs);
    assert_eq!(
        lost.err(),
        Some(FsError::AllReplicasLost { path: "/f".to_string(), block_id: 5 })
    );
}

#[test]
fn spdk_storage_of_a_named_worker_counts() {
    let mut manager = lifecycle_manager();
    let storage = StorageInfo { storage_type: StorageType::SpdkDisk, ..Default::default() };
    manager
        .heartbeat(
            "curvine",
            HeartbeatStatus::Running,
            address(7),
            1,
            "s".to_string(),
            TransferWorkerCapabilities::default(),
            "test".to_string(),
            1,
            vec![storage],
            None,
            NOW,
        )
        .unwrap();
    assert!(manager.workers_have_spdk(&vec![address(8), address(7)]));
    assert!(!manager.workers_have_spdk(&vec![address(8)]));
    // A located block goes by the storage that the replica itself lies on.
    let on_disk = vec![BlockLocation::with_id(7)];
    assert!(!manager.create_locate_block("/f", block(1), &on_disk).unwrap().has_spdk);
    let on_spdk = vec![BlockLocation { worker_id: 7, storage_type: StorageType::SpdkDisk }];
    assert!(manager.create_locate_block("/f", block(1), &on_spdk).unwrap().has_spdk);
}

#[test]
fn storages_add_up_and_failed_ones_do_not_count() {
    let mut worker = WorkerInfo::new(address(4), 1, NOW);
    let good = StorageInfo { capacity: 10, available: 6, block_num: 2, ..Default::default() };
    let bad = StorageInfo { failed: true, capacity: 100, available: 90, ..Default::default() };
    worker.add_storages(vec![good.clone(), bad, good]);
    assert_eq!((worker.capacity, worker.available, worker.block_num), (20, 12, 4));
    let huge = StorageInfo { capacity: i64::MAX, ..Default::default() };
    worker.add_storage(huge);
    assert_eq!(worker.capacity, i64::MAX);
}

#[test]
fn error_messages_of_worker_requests() {
    let mismatch = FsError::ClusterMismatch {
        expected: "curvine".to_string(),
        actual: "elsewhere".to_string(),
    };
    assert!(mismatch.message().contains("elsewhere"));
    assert_eq!(mismatch.kind(), ErrorKind::Common);
    let lost = FsError::AllReplicasLost { path: "/f".to_string(), block_id: -5 };
    assert!(lost.message().contains("-5"));
    assert!(lost.message().contains("/f"));
}
