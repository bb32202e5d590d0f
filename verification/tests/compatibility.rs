//! Compatibility checks, request routing and heartbeats through the handler.

use curvine_master::compatibility::{
    check_peer_compatibility, verdict_label, CompatibilityCheck, CompatibilityMode,
    CompatibilityPolicy, CompatibilityVerdict,
};
use curvine_master::conf::MasterConf;
use curvine_master::error::FsError;
use curvine_master::master_filesystem::MasterFilesystem;
use curvine_master::master_handler::{
    MasterHandler, RetryStep, Route, RpcCode, WorkerHeartbeatRequest,
};
use curvine_master::model::{ComponentInfo, HeartbeatStatus, WorkerAddress};
use curvine_master::worker_manager::WorkerManager;
use dashmap::DashMap;

const NOW: u64 = 1_700_000_000_000;

fn test_fs() -> MasterFilesystem {
    MasterFilesystem::new(MasterConf::default(), WorkerManager::new("curvine", 600_000))
}

fn too_old() -> CompatibilityVerdict {
    CompatibilityVerdict::VersionTooOld { peer: "0.1.0".to_string(), min: "0.2.0".to_string() }
}

fn sample_component_info() -> ComponentInfo {
    ComponentInfo {
        component: Some("worker".to_string()),
        release_version: Some("0.4.0-alpha".to_string()),
        git_commit: Some("24c848719b5b4fea74519d91cbe462bb49761b36".to_string()),
        git_tag: Some("v0.4.0-alpha".to_string()),
        git_branch: Some("main".to_string()),
        protocol_version: Some(1),
        min_protocol_version: Some(1),
        capabilities: vec!["transfer".to_string()],
    }
}

fn header(component_info: Option<ComponentInfo>) -> WorkerHeartbeatRequest {
    WorkerHeartbeatRequest {
        status: HeartbeatStatus::Running,
        cluster_id: "curvine".to_string(),
        worker_id: 7,
        address: WorkerAddress {
            worker_id: 7,
            hostname: "worker-host".to_string(),
            ip_addr: "127.0.0.1".to_string(),
            rpc_port: 1234,
            web_port: 5678,
        },
        weight: None,
        fs_ctime: 123_456,
        worker_session_id: None,
        software_version: "0.1.0-test".to_string(),
        transfer_task_submit: Some(true),
        transfer_report_target: None,
        transfer_query_task: Some(false),
        transfer_attempt_safe_output: None,
        transfer_source_read_plan: None,
        storages: vec![],
        component_info,
    }
}

#[test]
fn process_worker_heartbeat_stores_worker_report_fields() {
    let mut fs = test_fs();
    let component_info = sample_component_info();
    let request = header(Some(component_info.clone()));
    MasterHandler::process_worker_heartbeat(&mut fs, request, NOW).unwrap();

    assert!(fs.totals_fit());
    let info = fs.filesystem_info("m", &vec![], 0, 0);
    let worker = info.live_workers.iter().find(|w| w.address.worker_id == 7).unwrap();
    assert_eq!(worker.software_version, "0.1.0-test");
    assert_eq!(worker.startup_time_ms, 123_456);
    assert_eq!(worker.component_info, Some(component_info));
    assert_eq!(worker.weight, 1);
    assert!(worker.transfer_capabilities.task_submit);
    assert!(!worker.transfer_capabilities.query_task);
    assert_eq!(worker.last_update, NOW);
}

#[test]
fn start_times_before_the_epoch_count_as_the_epoch() {
    let mut fs = test_fs();
    let request = WorkerHeartbeatRequest { fs_ctime: -5, weight: Some(9), ..header(None) };
    MasterHandler::process_worker_heartbeat(&mut fs, request, NOW).unwrap();
    let worker = fs.worker_manager.get_worker(7).unwrap();
    assert_eq!((worker.startup_time_ms, worker.weight), (0, 9));
}

fn check(
    peer: &str,
    key: &str,
    warned: &mut DashMap<String, CompatibilityVerdict>,
    mode: CompatibilityMode,
    verdict: CompatibilityVerdict,
) -> CompatibilityCheck {
    check_peer_compatibility(peer, key, warned, mode, verdict)
}

#[test]
fn diagnose_warnings_are_deduped_per_peer() {
    let mode = CompatibilityMode::Diagnose;
    let mut warned = DashMap::new();
    // First occurrence warns and records the verdict.
    let first = check("worker", "worker:7", &mut warned, mode, too_old());
    assert!(first.result.is_ok());
    assert!(first.warning.is_some());
    assert!(warned.contains_key("worker:7"));

    // Identical verdict on a later heartbeat does not warn again but is
    // still allowed.
    let again = check("worker", "worker:7", &mut warned, mode, too_old());
    assert!(again.result.is_ok());
    assert!(again.warning.is_none());

    // A different incompatible verdict for the same peer warns again.
    let different = CompatibilityVerdict::ProtocolMismatch { peer: 2, min: 1, max: 1 };
    let changed = check("worker", "worker:7", &mut warned, mode, different.clone());
    assert!(changed.result.is_ok());
    assert!(changed.warning.is_some());
    assert_eq!(warned.get("worker:7").as_deref(), Some(&different));

    // A separate peer is tracked independently.
    assert!(!warned.contains_key("worker:8"));

    // A peer that is compatible again is forgotten, and warned about anew.
    let fine = check("worker", "worker:7", &mut warned, mode, CompatibilityVerdict::Compatible);
    assert!(fine.warning.is_none());
    assert!(!warned.contains_key("worker:7"));
    assert!(check("worker", "worker:7", &mut warned, mode, different).warning.is_some());
}

#[test]
fn diagnose_mode_allows_incompatible_worker_heartbeat() {
    let mode = CompatibilityMode::Diagnose;
    let mut warned = DashMap::new();
    assert!(check("worker", "worker:7", &mut warned, mode, too_old()).result.is_ok());
    // Legacy worker without component info: allowed in diagnose.
    let legacy = CompatibilityVerdict::MissingInfo;
    assert!(check("worker", "worker:7", &mut warned, mode, legacy).result.is_ok());

    let policy = CompatibilityPolicy { mode, has_bounds: true };
    let mut handler = MasterHandler::new(policy);
    let mut fs = test_fs();
    let reply = handler.worker_heartbeat(&mut fs, header(None), too_old(), NOW);
    assert!(reply.result.is_ok());
    assert!(reply.check.unwrap().warning.is_some());
    assert!(fs.worker_manager.get_worker(7).is_some());
}

#[test]
fn enforce_mode_rejects_incompatible_worker_heartbeat() {
    let mode = CompatibilityMode::Enforce;
    let mut warned = DashMap::new();
    let err = check("worker", "worker:7", &mut warned, mode, too_old()).result.unwrap_err();
    let msg = err.message();
    assert!(msg.contains("rejected by compatibility policy"), "{msg}");
    assert!(msg.contains("0.1.0"), "{msg}");
    assert!(msg.contains("or set master.compatibility.mode = \"diagnose\" to allow it"), "{msg}");

    let mut handler = MasterHandler::new(CompatibilityPolicy { mode, has_bounds: false });
    let mut fs = test_fs();
    let reply = handler.worker_heartbeat(&mut fs, header(None), too_old(), NOW);
    assert!(reply.result.is_err());
    assert!(fs.worker_manager.get_worker(7).is_none(), "a refused worker is not taken in");
}

#[test]
fn enforce_mode_rejects_legacy_client_without_component_info() {
    let policy = CompatibilityPolicy { mode: CompatibilityMode::Enforce, has_bounds: false };
    let mut handler = MasterHandler::new(policy);
    let legacy = CompatibilityVerdict::MissingInfo;
    let err =
        handler.check_client("127.0.0.1", false, legacy).unwrap().result.unwrap_err();
    assert!(err.message().contains("client rejected"));
}

#[test]
fn compatibility_metrics_record_verdicts_and_rejections() {
    let mut warned = DashMap::new();
    let value = |c: &CompatibilityCheck, worker: bool, peer: &str, label: &str| {
        c.gauges
            .iter()
            .find(|g| g.is_worker == worker && g.peer == peer && g.label == label)
            .map(|g| g.active)
    };
    // A compatible worker records the compatible verdict.
    let compatible = check(
        "worker",
        "worker:700",
        &mut warned,
        CompatibilityMode::Diagnose,
        CompatibilityVerdict::Compatible,
    );
    assert_eq!(value(&compatible, true, "700", "compatible"), Some(1));

    // When a peer's verdict changes, the previous label must be cleared.
    let old = check("worker", "worker:700", &mut warned, CompatibilityMode::Diagnose, too_old());
    assert_eq!(value(&old, true, "700", "version_too_old"), Some(1));
    assert_eq!(value(&old, true, "700", "compatible"), Some(0));
    assert_eq!(old.gauges.len(), 6);

    // An enforce-mode rejection bumps the counter and records the gauge.
    let rejected =
        check("worker-test", "worker:701", &mut warned, CompatibilityMode::Enforce, too_old());
    let message = rejected.result.as_ref().unwrap_err().message();
    assert!(message.contains("rejected by compatibility policy"));
    assert_eq!(rejected.rejected_label.as_deref(), Some("version_too_old"));
    assert_eq!(value(&rejected, true, "701", "version_too_old"), Some(1));
    assert!(!warned.contains_key("worker:701"));

    // Client verdicts use the client gauge.
    let client = check(
        "client",
        "client:10.0.0.1",
        &mut warned,
        CompatibilityMode::Diagnose,
        CompatibilityVerdict::MissingInfo,
    );
    assert_eq!(value(&client, false, "client:10.0.0.1", "missing_info"), Some(1));
    assert!(client.rejected_label.is_none());
}

#[test]
fn every_verdict_has_its_label() {
    let labels: Vec<&str> = [
        CompatibilityVerdict::Compatible,
        CompatibilityVerdict::MissingInfo,
        CompatibilityVerdict::Blocked("0.2.5".to_string()),
        CompatibilityVerdict::ProtocolMismatch { peer: 2, min: 1, max: 1 },
        too_old(),
        CompatibilityVerdict::VersionUnknown { peer: "x".to_string() },
    ]
    .iter()
    .map(|v| verdict_label(v))
    .collect();
    assert_eq!(
        labels,
        vec![
            "compatible",
            "missing_info",
            "blocked",
            "protocol_mismatch",
            "version_too_old",
            "version_unknown"
        ]
    );
}

#[test]
fn peers_are_checked_where_something_follows() {
    let lenient = CompatibilityPolicy { mode: CompatibilityMode::Diagnose, has_bounds: false };
    assert!(!lenient.should_evaluate(false));
    assert!(lenient.should_evaluate(true));
    let mut handler = MasterHandler::new(lenient);
    assert!(handler.check_client("h", false, CompatibilityVerdict::MissingInfo).is_none());
    let seen = handler.check_client("h", true, CompatibilityVerdict::MissingInfo).unwrap();
    assert!(seen.warning.is_some());
    assert!(handler.compat_warned.contains_key("client:h"));
}

#[test]
fn standby_master_serves_nothing() {
    for code in [RpcCode::Mkdir, RpcCode::WorkerHeartbeat, RpcCode::Undefined] {
        assert_eq!(MasterHandler::handle(code, false, true), Route::NotLeader);
        assert_eq!(MasterHandler::async_handle(code, false), Route::NotLeader);
    }
    assert_eq!(MasterHandler::handle(RpcCode::Mkdir, true, false), Route::Serve);
    assert_eq!(MasterHandler::handle(RpcCode::Undefined, true, false), Route::Unsupported);
    let replication = RpcCode::ReportBlockReplicationResult;
    assert_eq!(MasterHandler::handle(replication, true, true), Route::Replication);
    assert_eq!(MasterHandler::handle(replication, true, false), Route::ReplicationMissing);
}

#[test]
fn requests_are_served_on_one_side() {
    for code in [RpcCode::GetFilesystemInfo, RpcCode::SubmitJob, RpcCode::GetCvMetadataDeltaPage] {
        assert!(!MasterHandler::is_sync(code));
        assert_eq!(MasterHandler::async_handle(code, true), Route::Serve);
        assert_eq!(MasterHandler::handle(code, true, true), Route::Unsupported);
    }
    assert!(MasterHandler::is_sync(RpcCode::Delete));
    assert_eq!(MasterHandler::async_handle(RpcCode::Delete, true), Route::Unsupported);
    assert!(MasterHandler::get_rt(RpcCode::WorkerHeartbeat));
    assert!(MasterHandler::get_rt(RpcCode::WorkerBlockReport));
    assert!(!MasterHandler::get_rt(RpcCode::Delete));
    assert!(!MasterHandler::record_rpc_observability(RpcCode::WorkerHeartbeat));
    assert!(MasterHandler::record_rpc_observability(RpcCode::Delete));
}

#[test]
fn retried_requests_are_not_carried_out_again() {
    let failed = || FsError::Common { message: "former attempt".to_string() };
    assert_eq!(MasterHandler::check_is_retry(None), Ok(false));
    assert_eq!(MasterHandler::check_is_retry(Some(Ok(true))), Ok(true));
    assert_eq!(MasterHandler::retry_step(Some(Ok(false))), Ok(RetryStep::Execute));
    assert_eq!(MasterHandler::retry_step(Some(Ok(true))), Ok(RetryStep::Replay));
    assert_eq!(MasterHandler::retry_step(Some(Err(failed()))), Err(failed()));
    assert_eq!(MasterHandler::open_file0(true, Some(Err(failed()))), Ok(RetryStep::Replay));
    assert_eq!(MasterHandler::open_file0(false, None), Ok(RetryStep::Execute));
    let root = || Some("/mnt".to_string());
    assert_eq!(MasterHandler::delete0(None, "/mnt/a", root()), Ok(RetryStep::Execute));
    assert_eq!(MasterHandler::delete0(Some(Ok(true)), "/mnt", root()), Ok(RetryStep::Replay));
    let err = MasterHandler::delete0(None, "/mnt", root()).unwrap_err();
    assert_eq!(err.message(), "cannot delete mount point root: /mnt");
}

#[test]
fn small_request_rules() {
    assert_eq!(MasterHandler::batch_req_id(40, 2), 42);
    assert!(MasterHandler::complete_file0(true, Some(false)));
    assert!(!MasterHandler::complete_file0(true, None));
    assert!(!MasterHandler::complete_file0(false, Some(false)));
    assert!(MasterHandler::list_options(None).is_ok());
    assert!(MasterHandler::list_options(Some(0)).is_ok());
    assert_eq!(
        MasterHandler::list_options(Some(-1)).unwrap_err().message(),
        "list options limit must be greater than 0"
    );
    assert_eq!(MasterHandler::page_size(None), 10_000);
    assert_eq!(MasterHandler::page_size(Some(3)), 3);
}
