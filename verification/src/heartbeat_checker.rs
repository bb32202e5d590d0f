//! The periodic check of workers whose heartbeats stopped.
//!
//! The caller serializes the work on one worker: it asks for the candidates,
//! settles each of them under that worker's lock, and then takes the workers
//! whose locations are to be removed. What came of each removal is handed back.

use vstd::prelude::*;

use crate::cleanup::LostWorkerLocationCleanup;
use crate::conf::MasterConf;
use crate::error::FsError;
use crate::master_filesystem::{FilesystemView, MasterFilesystem};
use crate::model::{WorkerInfo, WorkerStatus, WorkerView};
use crate::text::same_text;
use crate::manager_model::ManagerView;
use crate::worker_manager::WorkerManager;

verus! {

#[derive(Clone, Copy)]
pub struct HeartbeatChecker {
    pub worker_blacklist_ms: u64,
    pub worker_lost_ms: u64,
}

/// One pass of the check.
pub struct CheckPass {
    pub now_ms: u64,
    /// The workers whose reconciliation is to be started.
    pub reconciles: Vec<u32>,
    /// The workers whose heartbeats are overdue.
    pub candidates: Vec<WorkerInfo>,
}

/// What became of a candidate.
pub struct Settled {
    pub blacklisted: Option<WorkerInfo>,
    pub removed: Option<WorkerInfo>,
}

/// A heartbeat at `last_update` is older than the interval allows.
pub open spec fn is_overdue(last_update: u64, interval_ms: u64, now_ms: u64) -> bool {
    now_ms > last_update + interval_ms
}

/// The same worker as before, without a heartbeat since.
pub open spec fn is_unchanged(current: WorkerView, seen: WorkerView) -> bool {
    current.last_update == seen.last_update && current.address == seen.address
        && current.worker_session_id == seen.worker_session_id && current.startup_time_ms
        == seen.startup_time_ms
}

impl HeartbeatChecker {
    /// The worker is overdue for one of the two intervals.
    pub open spec fn is_candidate(self, w: WorkerView, now_ms: u64) -> bool {
        is_overdue(w.last_update, self.worker_blacklist_ms, now_ms) || is_overdue(
            w.last_update,
            self.worker_lost_ms,
            now_ms,
        )
    }

    /// The overdue workers.
    pub open spec fn candidates(self, m: ManagerView, now_ms: u64) -> Set<u32> {
        Set::new(|k: u32| m.workers.contains_key(k) && self.is_candidate(m.workers[k], now_ms))
    }

    /// The candidate is blacklisted.
    pub open spec fn blacklists(self, m: ManagerView, seen: WorkerView, now_ms: u64) -> bool {
        let id = seen.address.worker_id;
        m.workers.contains_key(id) && is_unchanged(m.workers[id], seen) && is_overdue(
            seen.last_update,
            self.worker_blacklist_ms,
            now_ms,
        ) && m.can_blacklist(id)
    }

    /// The candidate is removed.
    pub open spec fn removes(self, m: ManagerView, seen: WorkerView, now_ms: u64) -> bool {
        let id = seen.address.worker_id;
        m.workers.contains_key(id) && is_unchanged(m.workers[id], seen) && is_overdue(
            seen.last_update,
            self.worker_lost_ms,
            now_ms,
        )
    }

    /// The workers after a candidate is settled.
    pub open spec fn settled(self, m: ManagerView, seen: WorkerView, now_ms: u64) -> ManagerView {
        let id = seen.address.worker_id;
        let s = if self.blacklists(m, seen, now_ms) {
            ManagerView {
                workers: m.workers.insert(
                    id,
                    m.workers[id].with_status(WorkerStatus::Blacklist),
                ),
                ..m
            }
        } else {
            m
        };
        if self.removes(m, seen, now_ms) {
            s.expire(id)
        } else {
            s
        }
    }

    /// The workers after all candidates are settled in turn.
    pub open spec fn all_settled(
        self,
        m: ManagerView,
        seen: Seq<WorkerView>,
        now_ms: u64,
    ) -> ManagerView
        decreases seen.len(),
    {
        if seen.len() == 0 {
            m
        } else {
            self.settled(
                self.all_settled(m, seen.drop_last(), now_ms),
                seen.last(),
                now_ms,
            )
        }
    }

    pub fn new(conf: &MasterConf) -> (r: Self)
        ensures
            r.worker_blacklist_ms == conf.worker_blacklist_interval_ms,
            r.worker_lost_ms == conf.worker_lost_interval_ms,
    {
        HeartbeatChecker {
            worker_blacklist_ms: conf.worker_blacklist_interval_ms,
            worker_lost_ms: conf.worker_lost_interval_ms,
        }
    }

    fn overdue(last_update: u64, interval_ms: u64, now_ms: u64) -> (r: bool)
        ensures
            r == is_overdue(last_update, interval_ms, now_ms),
    {
        now_ms > last_update.saturating_add(interval_ms)
    }

    /// Begins a pass. A master that is not active does nothing.
    pub fn run(&self, fs: &mut MasterFilesystem, is_active: bool, now_ms: u64) -> (r: Option<
        CheckPass,
    >)
        ensures
            match r {
                None => !is_active && final(fs)@ == old(fs)@,
                Some(pass) => is_active && final(fs)@ == old(fs)@.mark_running(
                    old(fs)@.reconciles_due(now_ms),
                ) && pass.now_ms == now_ms && pass.reconciles@ == crate::ids::workers_in_order(
                    old(fs)@.reconciles_due(now_ms),
                ) && crate::worker_map::workers_of(pass.candidates@) == crate::worker_map::pick(
                    old(fs)@.manager.workers,
                    crate::ids::workers_in_order(self.candidates(old(fs)@.manager, now_ms)),
                ),
            },
            r matches Some(pass) ==> crate::ids::ascending_workers(pass.reconciles@)
                && pass.reconciles@.to_set() == old(fs)@.reconciles_due(now_ms),
            ({
                let ids = crate::ids::workers_in_order(self.candidates(old(fs)@.manager, now_ms));
                crate::ids::ascending_workers(ids) && ids.to_set() == self.candidates(
                    old(fs)@.manager,
                    now_ms,
                )
            }),
    {
        proof {
            crate::ids::workers_in_order_lists(self.candidates(fs@.manager, now_ms));
            crate::ids::workers_in_order_lists(fs@.reconciles_due(now_ms));
        }
        if !is_active {
            return None;
        }
        let reconciles: Vec<u32> = fs.retry_full_block_reconciles(now_ms);
        let candidates: Vec<WorkerInfo> = self.overdue_workers(&fs.worker_manager, now_ms);
        Some(CheckPass { now_ms, reconciles, candidates })
    }

    fn overdue_workers(&self, wm: &WorkerManager, now_ms: u64) -> (r: Vec<WorkerInfo>)
        ensures
            crate::worker_map::workers_of(r@) == crate::worker_map::pick(
                wm@.workers,
                crate::ids::workers_in_order(self.candidates(wm@, now_ms)),
            ),
    {
        let beats: Vec<(u32, u64)> = wm.get_last_heartbeat();
        let ghost ids = crate::ids::workers_in_order(wm@.workers.dom());
        let ghost wanted = self.candidates(wm@, now_ms);
        let ghost mut done = Seq::<u32>::empty();
        let mut r: Vec<WorkerInfo> = Vec::new();
        let all: Vec<u32> = wm.worker_map.workers.ids();
        let mut i: usize = 0;
        while i < beats.len()
            invariant
                i <= beats.len(),
                ids == all@,
                crate::ids::ascending_workers(ids),
                ids.to_set() == wm@.workers.dom(),
                beats@ == ids.map_values(|k: u32| (k, wm@.workers[k].last_update)),
                beats@.len() == ids.len(),
                wanted == self.candidates(wm@, now_ms),
                crate::ids::ascending_workers(done),
                forall|k: u32| #[trigger]
                    done.contains(k) <==> wanted.contains(k) && ids.take(i as int).contains(k),
                crate::worker_map::workers_of(r@) == crate::worker_map::pick(wm@.workers, done),
            decreases beats.len() - i,
        {
            let id: u32 = beats[i].0;
            let last_update: u64 = beats[i].1;
            let ghost before = r@;
            proof {
                assert(beats@[i as int] == (ids[i as int], wm@.workers[ids[i as int]].last_update));
                assert(ids.contains(id));
                assert(ids.to_set().contains(id));
                crate::ids::step_members(ids, i as int, wanted, done);
            }
            if Self::overdue(last_update, self.worker_blacklist_ms, now_ms) || Self::overdue(
                last_update,
                self.worker_lost_ms,
                now_ms,
            ) {
                if let Some(worker) = wm.get_worker(id) {
                    r.push(worker.clone());
                    proof {
                        let longer = done.push(id);
                        assert(crate::worker_map::workers_of(r@)
                            =~= crate::worker_map::workers_of(before).push(wm@.workers[id]));
                        assert(crate::worker_map::pick(wm@.workers, longer)
                            =~= crate::worker_map::pick(wm@.workers, done).push(wm@.workers[id]));
                        done = longer;
                    }
                }
            }
            i += 1;
        }
        proof {
            crate::ids::all_members(ids, wanted, done);
        }
        r
    }

    /// Blacklists or removes a candidate, unless it has been heard of since
    /// it became one.
    pub fn settle(&self, fs: &mut MasterFilesystem, candidate: &WorkerInfo, now_ms: u64) -> (r:
        Settled)
        requires
            old(fs)@.manager.wf(),
        ensures
            final(fs)@ == (FilesystemView {
                manager: self.settled(old(fs)@.manager, candidate@, now_ms),
                ..old(fs)@
            }),
            final(fs)@.manager.wf(),
            r.blacklisted is Some == self.blacklists(old(fs)@.manager, candidate@, now_ms),
            r.removed is Some == self.removes(old(fs)@.manager, candidate@, now_ms),
            r.removed matches Some(w) ==> w@ == old(
                fs,
            )@.manager.workers[candidate@.address.worker_id].with_status(WorkerStatus::Lost),
            r.blacklisted matches Some(w) ==> w@ == old(
                fs,
            )@.manager.workers[candidate@.address.worker_id].with_status(WorkerStatus::Blacklist),
    {
        let id: u32 = candidate.worker_id();
        let unchanged: bool = match fs.worker_manager.get_worker(id) {
            Some(current) => current.last_update == candidate.last_update
                && current.address.same_address(&candidate.address) && same_text(
                current.worker_session_id.as_str(),
                candidate.worker_session_id.as_str(),
            ) && current.startup_time_ms == candidate.startup_time_ms,
            None => false,
        };
        let mut blacklisted: Option<WorkerInfo> = None;
        let mut removed: Option<WorkerInfo> = None;
        if unchanged {
            if Self::overdue(candidate.last_update, self.worker_blacklist_ms, now_ms) {
                blacklisted = fs.worker_manager.add_blacklist_worker(id);
            }
            if Self::overdue(candidate.last_update, self.worker_lost_ms, now_ms) {
                removed = fs.worker_manager.remove_expired_worker(id);
                if let Some(w) = &removed {
                    assert(w@ =~= old(fs)@.manager.workers[id].with_status(WorkerStatus::Lost));
                }
            }
        }
        Settled { blacklisted, removed }
    }

    /// Ends a pass: the workers whose locations are to be removed are those
    /// that the pass removed, and those whose grace has run out.
    pub fn due_cleanups(&self, fs: &mut MasterFilesystem, removed: Vec<WorkerInfo>, now_ms: u64) -> (r:
        Vec<WorkerInfo>)
        requires
            old(fs)@.manager.wf(),
        ensures
            final(fs)@ == (FilesystemView {
                manager: old(fs)@.manager.dispatch(now_ms),
                ..old(fs)@
            }),
            final(fs)@.manager.wf(),
            crate::worker_map::workers_of(r@) == crate::worker_map::workers_of(removed@)
                + crate::ids::workers_in_order(old(fs)@.manager.due(now_ms)).map_values(
                |k: u32| old(fs)@.manager.offline[k].worker,
            ),
            crate::ids::ascending_workers(
                crate::ids::workers_in_order(old(fs)@.manager.due(now_ms)),
            ),
            crate::ids::workers_in_order(old(fs)@.manager.due(now_ms)).to_set() == old(
                fs,
            )@.manager.due(now_ms),
    {
        let mut offline: Vec<WorkerInfo> = fs.worker_manager.take_expired_offline_workers(now_ms);
        let ghost late = offline@;
        let ghost early = removed@;
        let mut r: Vec<WorkerInfo> = removed;
        r.append(&mut offline);
        assert(crate::worker_map::workers_of(r@) =~= crate::worker_map::workers_of(early)
            + crate::worker_map::workers_of(late));
        r
    }

    /// Takes in what came of the cleanup of a worker, and returns the blocks
    /// to report as short of replicas. A cleanup that could not be started, or
    /// failed, has nothing to report and is queued again.
    pub fn cleanup_ended(
        &self,
        fs: &mut MasterFilesystem,
        worker: WorkerInfo,
        outcome: Result<LostWorkerLocationCleanup, FsError>,
    ) -> (r: Option<Vec<i64>>)
        ensures
            match outcome {
                Ok(cleanup) => r == Some(cleanup.replication_block_ids) && final(fs)@ == old(fs)@,
                Err(_) => r is None && final(fs)@ == (FilesystemView {
                    manager: old(fs)@.manager.requeue(worker@),
                    ..old(fs)@
                }),
            },
    {
        match outcome {
            Ok(cleanup) => Some(cleanup.replication_block_ids),
            Err(_) => {
                fs.worker_manager.queue_offline_worker(worker);
                None
            },
        }
    }
}

/// A worker that has been heard of in time is neither blacklisted nor removed.
pub proof fn timely_workers_stay(
    checker: HeartbeatChecker,
    m: ManagerView,
    seen: WorkerView,
    now_ms: u64,
    id: u32,
)
    requires
        m.wf(),
        m.workers.contains_key(id),
        !checker.is_candidate(m.workers[id], now_ms),
    ensures
        !checker.candidates(m, now_ms).contains(id),
        checker.settled(m, seen, now_ms).workers.contains_key(id),
        checker.settled(m, seen, now_ms).workers[id] == m.workers[id],
{
}

/// A worker that sent a heartbeat after it became a candidate is left alone.
pub proof fn late_heartbeat_saves_the_worker(
    checker: HeartbeatChecker,
    m: ManagerView,
    seen: WorkerView,
    now_ms: u64,
)
    requires
        m.workers.contains_key(seen.address.worker_id),
        m.workers[seen.address.worker_id].last_update != seen.last_update,
    ensures
        checker.settled(m, seen, now_ms) == m,
{
}

/// What one pass makes of a worker, where no heartbeat comes in between:
/// those that were silent for too long are gone, with a cleanup that is under
/// way; those that were silent for a while are blacklisted; the others are as
/// before.
pub proof fn one_pass_settles_every_worker(
    checker: HeartbeatChecker,
    m: ManagerView,
    ids: Seq<u32>,
    now_ms: u64,
    id: u32,
)
    requires
        m.sound(),
        ids.to_set() == checker.candidates(m, now_ms),
        m.workers.contains_key(id),
    ensures
        ({
            let t = checker.all_settled(m, crate::worker_map::pick(m.workers, ids), now_ms);
            let w = m.workers[id];
            if is_overdue(w.last_update, checker.worker_lost_ms, now_ms) {
                &&& !t.workers.contains_key(id)
                &&& t.lost.contains_key(id)
                &&& t.is_scheduled(t.lost[id])
                &&& t.offline[id].in_flight
            } else {
                &&& t.workers.contains_key(id)
                &&& t.workers[id] == (if is_overdue(
                    w.last_update,
                    checker.worker_blacklist_ms,
                    now_ms,
                ) {
                    w.with_status(WorkerStatus::Blacklist)
                } else {
                    w
                })
            }
        }),
{
    assert forall|k: u32| #[trigger] ids.contains(k) implies m.workers.contains_key(k) by {
        assert(ids.to_set().contains(k));
    }
    settled_so_far(checker, m, ids, now_ms, id);
    assert(ids.to_set().contains(id) == checker.candidates(m, now_ms).contains(id));
}

proof fn settled_so_far(
    checker: HeartbeatChecker,
    m: ManagerView,
    ids: Seq<u32>,
    now_ms: u64,
    id: u32,
)
    requires
        m.sound(),
        m.workers.contains_key(id),
        forall|k: u32| #[trigger] ids.contains(k) ==> m.workers.contains_key(k),
    ensures
        ({
            let t = checker.all_settled(m, crate::worker_map::pick(m.workers, ids), now_ms);
            let w = m.workers[id];
            let gone = ids.contains(id) && is_overdue(
                w.last_update,
                checker.worker_lost_ms,
                now_ms,
            );
            &&& t.workers.contains_key(id) == !gone
            &&& gone ==> t.lost.contains_key(id) && t.is_scheduled(t.lost[id])
                && t.offline[id].in_flight
            &&& !gone ==> t.workers[id] == (if ids.contains(id) && is_overdue(
                w.last_update,
                checker.worker_blacklist_ms,
                now_ms,
            ) {
                w.with_status(WorkerStatus::Blacklist)
            } else {
                w
            }) && !t.offline.contains_key(id)
        }),
    decreases ids.len(),
{
    let seen = crate::worker_map::pick(m.workers, ids);
    if ids.len() > 0 {
        let fewer = ids.drop_last();
        let last = ids.last();
        let n = (ids.len() - 1) as int;
        crate::ids::take_step(ids, n);
        assert(ids.take(n) =~= fewer);
        assert(ids.take(n + 1) =~= ids);
        assert(seen.drop_last() =~= crate::worker_map::pick(m.workers, fewer));
        assert(seen.last() == m.workers[last]);
        assert(ids.contains(last));
        assert forall|k: u32| #[trigger] fewer.contains(k) implies m.workers.contains_key(k) by {
            assert(ids.take(n + 1).contains(k));
        }
        settled_so_far(checker, m, fewer, now_ms, id);
        settled_so_far(checker, m, fewer, now_ms, last);
        assert(m.workers[last].address.worker_id == last);
    }
}

/// A worker that the pass removed is not handed out a second time by the same
/// pass.
pub proof fn removed_worker_is_cleaned_once(
    checker: HeartbeatChecker,
    m: ManagerView,
    seen: WorkerView,
    now_ms: u64,
)
    requires
        m.wf(),
        checker.removes(m, seen, now_ms),
        !m.offline.contains_key(seen.address.worker_id),
    ensures
        checker.settled(m, seen, now_ms).offline.contains_key(seen.address.worker_id),
        !checker.settled(m, seen, now_ms).due(now_ms).contains(seen.address.worker_id),
{
}

/// The cleanup of a worker that is still lost comes up again after it failed:
/// at the deadline that it had, or at once where it had none.
pub proof fn failed_cleanup_comes_up_again(m: ManagerView, worker: WorkerView, now_ms: u64)
    requires
        m.is_lost(worker),
    ensures
        ({
            let id = worker.address.worker_id;
            let t = m.requeue(worker);
            &&& t.is_scheduled(worker)
            &&& t.due(now_ms).contains(id) == (!m.is_scheduled(worker) || now_ms
                >= m.offline[id].deadline_ms)
        }),
{
}

/// A cleanup that succeeded is over: no later pass hands it out.
pub proof fn finished_cleanup_is_over(m: ManagerView, worker: WorkerView, later_ms: u64)
    requires
        m.is_scheduled(worker),
    ensures
        !m.finish_cleanup(worker).offline.contains_key(worker.address.worker_id),
        !m.finish_cleanup(worker).due(later_ms).contains(worker.address.worker_id),
{
}

} // verus!
