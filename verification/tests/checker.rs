//! The periodic check of heartbeats.

use curvine_master::cleanup::LostWorkerLocationCleanup;
use curvine_master::conf::MasterConf;
use curvine_master::error::FsError;
use curvine_master::heartbeat_checker::HeartbeatChecker;
use curvine_master::master_filesystem::MasterFilesystem;
use curvine_master::model::{
    HeartbeatStatus, TransferWorkerCapabilities, WorkerAddress, WorkerStatus,
};
use curvine_master::worker_manager::WorkerManager;

const NOW: u64 = 1_700_000_000_000;
const BLACKLIST: u64 = 30_000;
const LOST: u64 = 600_000;

fn fs_with(workers: &[(u32, u64)]) -> MasterFilesystem {
    let conf = MasterConf::default();
    let mut fs =
        MasterFilesystem::new(conf, WorkerManager::new("curvine", conf.worker_lost_interval_ms));
    for (id, at) in workers {
        beat(&mut fs, *id, HeartbeatStatus::Running, *at);
    }
    fs
}

fn beat(fs: &mut MasterFilesystem, id: u32, status: HeartbeatStatus, at: u64) {
    fs.worker_manager
        .heartbeat(
            "curvine",
            status,
            WorkerAddress {
                worker_id: id,
                hostname: format!("worker-{id}"),
                ip_addr: String::new(),
                rpc_port: 1,
                web_port: 2,
            },
            1,
            "s".to_string(),
            TransferWorkerCapabilities::default(),
            String::new(),
            1,
            vec![],
            None,
            at,
        )
        .unwrap();
}

fn checker(fs: &MasterFilesystem) -> HeartbeatChecker {
    HeartbeatChecker::new(&fs.conf)
}

#[test]
fn standby_master_checks_nothing() {
    let mut fs = fs_with(&[(1, NOW)]);
    assert!(checker(&fs).run(&mut fs, false, u64::MAX).is_none());
    assert_eq!(fs.worker_manager.get_worker(1).unwrap().status, WorkerStatus::Live);
}

#[test]
fn silence_leads_to_the_blacklist_and_then_to_removal() {
    let mut fs = fs_with(&[(1, NOW), (2, NOW + BLACKLIST)]);
    let checker = checker(&fs);
    let pass = checker.run(&mut fs, true, NOW + BLACKLIST).unwrap();
    assert!(pass.candidates.is_empty(), "exactly on time");

    let now = NOW + BLACKLIST + 1;
    let pass = checker.run(&mut fs, true, now).unwrap();
    assert_eq!(pass.candidates.len(), 1);
    let settled = checker.settle(&mut fs, &pass.candidates[0], now);
    assert_eq!(settled.blacklisted.unwrap().address.worker_id, 1);
    assert!(settled.removed.is_none());
    assert_eq!(fs.worker_manager.get_worker(1).unwrap().status, WorkerStatus::Blacklist);

    // Listed once only.
    let pass = checker.run(&mut fs, true, now + 1).unwrap();
    let settled = checker.settle(&mut fs, &pass.candidates[0], now + 1);
    assert!(settled.blacklisted.is_none() && settled.removed.is_none());

    let late = NOW + LOST + 1;
    let pass = checker.run(&mut fs, true, late).unwrap();
    let mut removed = vec![];
    for candidate in &pass.candidates {
        removed.extend(checker.settle(&mut fs, candidate, late).removed);
    }
    assert_eq!(removed.len(), 1);
    assert!(fs.worker_manager.get_worker(1).is_none());
    assert!(fs.worker_manager.get_worker(2).is_some());
    // Its cleanup is handed out once.
    let due = checker.due_cleanups(&mut fs, removed, late);
    assert_eq!(due.len(), 1);
    assert_eq!(due[0].status, WorkerStatus::Lost);
    assert!(checker.due_cleanups(&mut fs, vec![], u64::MAX).is_empty());
    // Where it fails it is due again at once, and nothing is reported.
    for worker in due {
        let failed = Err(FsError::Common { message: "queue is full".to_string() });
        assert_eq!(checker.cleanup_ended(&mut fs, worker, failed), None);
    }
    assert_eq!(checker.due_cleanups(&mut fs, vec![], late).len(), 1);
}

#[test]
fn heartbeat_after_the_pass_began_saves_the_worker() {
    let mut fs = fs_with(&[(1, NOW)]);
    let checker = checker(&fs);
    let now = NOW + LOST + 1;
    let pass = checker.run(&mut fs, true, now).unwrap();
    beat(&mut fs, 1, HeartbeatStatus::Running, now);
    let settled = checker.settle(&mut fs, &pass.candidates[0], now);
    assert!(settled.blacklisted.is_none() && settled.removed.is_none());
    assert_eq!(fs.worker_manager.get_worker(1).unwrap().status, WorkerStatus::Live);
}

#[test]
fn ended_workers_are_cleaned_up_when_their_grace_runs_out() {
    let mut fs = fs_with(&[(1, NOW), (2, NOW)]);
    beat(&mut fs, 1, HeartbeatStatus::End, NOW);
    let checker = checker(&fs);
    assert!(checker.due_cleanups(&mut fs, vec![], NOW + LOST - 1).is_empty());
    let due = checker.due_cleanups(&mut fs, vec![], NOW + LOST);
    assert_eq!(due.iter().map(|w| w.address.worker_id).collect::<Vec<_>>(), vec![1]);
}

#[test]
fn cleanup_that_is_done_reports_its_blocks_and_is_not_repeated() {
    let mut fs = fs_with(&[(1, NOW)]);
    beat(&mut fs, 1, HeartbeatStatus::End, NOW);
    let checker = checker(&fs);
    let worker = checker.due_cleanups(&mut fs, vec![], NOW + LOST).remove(0);
    let cleanup = LostWorkerLocationCleanup {
        removed_block_ids: vec![10, 11, 12],
        replication_block_ids: vec![11],
    };
    let cleanup = fs.lost_worker_cleanup_ended(&worker, Some(Ok(cleanup)));
    assert_eq!(checker.cleanup_ended(&mut fs, worker, cleanup), Some(vec![11]));
    assert!(checker.due_cleanups(&mut fs, vec![], u64::MAX).is_empty());
}

#[test]
fn failed_cleanup_keeps_its_deadline() {
    let mut fs = fs_with(&[(1, NOW)]);
    beat(&mut fs, 1, HeartbeatStatus::End, NOW);
    let checker = checker(&fs);
    let worker = checker.due_cleanups(&mut fs, vec![], NOW + LOST).remove(0);
    let failed = Err(FsError::Common { message: "unavailable".to_string() });
    assert_eq!(checker.cleanup_ended(&mut fs, worker, failed), None);
    assert!(checker.due_cleanups(&mut fs, vec![], NOW + LOST - 1).is_empty());
    assert_eq!(checker.due_cleanups(&mut fs, vec![], NOW + LOST).len(), 1);
}
