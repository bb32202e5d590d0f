//! Worker registration, session fencing and the grace period of workers that
//! went offline.

use vstd::prelude::*;

use crate::block_map::{BlockMap, DeleteResult, WorkerCommand};
use crate::error::FsError;
use crate::ids::IdMap;
use crate::manager_model::{HeartbeatOutcome, ManagerView, OfflineView, RecoveryView};
use crate::model::{
    ComponentInfo, HeartbeatStatus, StorageInfo, TransferWorkerCapabilities, WorkerAddress,
    WorkerInfo, WorkerStatus, WorkerView,
};
use crate::sessions::RetiredSessions;
use crate::text::same_text;
use crate::worker_map::{Registration, RegistrationView, WorkerMap};

verus! {

/// A lost worker whose block locations are due for removal at a deadline.
pub struct OfflineWorker {
    pub worker: WorkerInfo,
    pub deadline_ms: u64,
    pub in_flight: bool,
}

impl View for OfflineWorker {
    type V = OfflineView;

    open spec fn view(&self) -> OfflineView {
        OfflineView {
            worker: self.worker@,
            deadline_ms: self.deadline_ms,
            in_flight: self.in_flight,
        }
    }
}

/// A worker process that announced itself and has not become live yet, or one
/// that ended.
pub struct WorkerRecovery {
    pub address: WorkerAddress,
    pub session_id: String,
    pub startup_time_ms: u64,
    pub report_complete: bool,
    pub ended: bool,
}

impl View for WorkerRecovery {
    type V = RecoveryView;

    open spec fn view(&self) -> RecoveryView {
        RecoveryView {
            address: self.address@,
            session_id: self.session_id@,
            startup_time_ms: self.startup_time_ms,
            report_complete: self.report_complete,
            ended: self.ended,
        }
    }
}

impl WorkerRecovery {
    pub fn matches(&self, address: &WorkerAddress, session: &str, startup_time_ms: u64) -> (r: bool)
        ensures
            r == self@.is_for(address@, session@, startup_time_ms),
    {
        self.address.same_endpoint(address) && same_text(self.session_id.as_str(), session)
            && self.startup_time_ms == startup_time_ms
    }

    pub fn accepts_report(&self, session: &str) -> (r: bool)
        ensures
            r == self@.accepts_report(session@),
    {
        !self.ended && (session.is_empty() || same_text(self.session_id.as_str(), session))
    }
}

/// The master's knowledge of its workers.
pub struct WorkerManager {
    pub worker_map: WorkerMap,
    pub block_map: BlockMap,
    pub cluster_id: String,
    pub worker_lost_interval_ms: u64,
    pub offline_workers: IdMap<OfflineWorker>,
    pub recovering_workers: IdMap<WorkerRecovery>,
    pub retired_worker_sessions: RetiredSessions,
}

impl View for WorkerManager {
    type V = ManagerView;

    open spec fn view(&self) -> ManagerView {
        ManagerView {
            workers: self.worker_map@.workers,
            lost: self.worker_map@.lost,
            deletes: self.block_map@,
            cluster_id: self.cluster_id@,
            worker_lost_interval_ms: self.worker_lost_interval_ms,
            offline: self.offline_workers@,
            recovering: self.recovering_workers@,
            retired: self.retired_worker_sessions@,
        }
    }
}

fn retire_from_workers(
    retired: &mut RetiredSessions,
    workers: &IdMap<WorkerInfo>,
    address: &WorkerAddress,
    session: &str,
)
    requires
        crate::worker_map::keyed_by_id(workers@),
    ensures
        final(retired)@ == old(retired)@.union(crate::manager_model::replaced_workers(workers@, address@, session@)),
{
    let ids: Vec<u32> = workers.ids();
    let ghost all = crate::manager_model::replaced_workers(workers@, address@, session@);
    let mut i: usize = 0;
    while i < ids.len()
        invariant
            i <= ids.len(),
            all == crate::manager_model::replaced_workers(workers@, address@, session@),
            crate::worker_map::keyed_by_id(workers@),
            ids@.to_set() == workers@.dom(),
            forall|p: (u32, Seq<char>)| #[trigger]
                retired@.contains(p) == (old(retired)@.contains(p) || (all.contains(p)
                    && ids@.take(i as int).contains(p.0))),
        decreases ids.len() - i,
    {
        let id: u32 = ids[i];
        let ghost before = retired@;
        assert(ids@.to_set().contains(id));
        if let Some(worker) = workers.get(id) {
            let known: &str = worker.worker_session_id.as_str();
            let replaced: bool = if known.is_empty() {
                false
            } else if id == address.worker_id {
                !same_text(known, session)
            } else {
                worker.address.same_endpoint(address)
            };
            if replaced {
                retired.retire(id, known);
            }
        }
        proof {
            let t0 = ids@.take(i as int);
            let t1 = ids@.take(i + 1);
            assert(t1[i as int] == id);
            assert forall|p: (u32, Seq<char>)| #[trigger]
                retired@.contains(p) == (old(retired)@.contains(p) || (all.contains(p)
                    && t1.contains(p.0))) by {
                assert(before.contains(p) == (old(retired)@.contains(p) || (all.contains(p)
                    && t0.contains(p.0))));
                if t0.contains(p.0) {
                    let j = choose|j: int| 0 <= j < t0.len() && t0[j] == p.0;
                    assert(t1[j] == p.0);
                }
                if t1.contains(p.0) && p.0 != id {
                    let j = choose|j: int| 0 <= j < t1.len() && t1[j] == p.0;
                    assert(t0[j] == p.0);
                }
            }
        }
        i += 1;
    }
    proof {
        assert(ids@.take(ids@.len() as int) =~= ids@);
        assert forall|p: (u32, Seq<char>)| retired@.contains(p) == old(retired)@.union(
            all,
        ).contains(p) by {
            if all.contains(p) {
                assert(ids@.to_set().contains(p.0));
            }
        }
        assert(retired@ =~= old(retired)@.union(all));
    }
}

fn retire_from_recoveries(
    retired: &mut RetiredSessions,
    recoveries: &IdMap<WorkerRecovery>,
    address: &WorkerAddress,
    session: &str,
)
    ensures
        final(retired)@ == old(retired)@.union(
            crate::manager_model::replaced_recoveries(recoveries@, address@, session@),
        ),
{
    let ids: Vec<u32> = recoveries.ids();
    let ghost all = crate::manager_model::replaced_recoveries(recoveries@, address@, session@);
    let mut i: usize = 0;
    while i < ids.len()
        invariant
            i <= ids.len(),
            all == crate::manager_model::replaced_recoveries(recoveries@, address@, session@),
            ids@.to_set() == recoveries@.dom(),
            forall|p: (u32, Seq<char>)| #[trigger]
                retired@.contains(p) == (old(retired)@.contains(p) || (all.contains(p)
                    && ids@.take(i as int).contains(p.0))),
        decreases ids.len() - i,
    {
        let id: u32 = ids[i];
        let ghost before = retired@;
        assert(ids@.to_set().contains(id));
        if let Some(recovery) = recoveries.get(id) {
            let known: &str = recovery.session_id.as_str();
            let replaced: bool = if known.is_empty() {
                false
            } else if id == address.worker_id {
                !same_text(known, session)
            } else {
                recovery.address.same_endpoint(address)
            };
            if replaced {
                retired.retire(id, known);
            }
        }
        proof {
            let t0 = ids@.take(i as int);
            let t1 = ids@.take(i + 1);
            assert(t1[i as int] == id);
            assert forall|p: (u32, Seq<char>)| #[trigger]
                retired@.contains(p) == (old(retired)@.contains(p) || (all.contains(p)
                    && t1.contains(p.0))) by {
                assert(before.contains(p) == (old(retired)@.contains(p) || (all.contains(p)
                    && t0.contains(p.0))));
                if t0.contains(p.0) {
                    let j = choose|j: int| 0 <= j < t0.len() && t0[j] == p.0;
                    assert(t1[j] == p.0);
                }
                if t1.contains(p.0) && p.0 != id {
                    let j = choose|j: int| 0 <= j < t1.len() && t1[j] == p.0;
                    assert(t0[j] == p.0);
                }
            }
        }
        i += 1;
    }
    proof {
        assert(ids@.take(ids@.len() as int) =~= ids@);
        assert forall|p: (u32, Seq<char>)| retired@.contains(p) == old(retired)@.union(
            all,
        ).contains(p) by {
            if all.contains(p) {
                assert(ids@.to_set().contains(p.0));
            }
        }
        assert(retired@ =~= old(retired)@.union(all));
    }
}

impl WorkerManager {
    /// A manager without workers.
    pub fn new(cluster_id: &str, worker_lost_interval_ms: u64) -> (r: Self)
        ensures
            r@ == (ManagerView {
                workers: Map::empty(),
                lost: Map::empty(),
                deletes: Set::empty(),
                cluster_id: cluster_id@,
                worker_lost_interval_ms,
                offline: Map::empty(),
                recovering: Map::empty(),
                retired: Set::empty(),
            }),
            r@.wf(),
    {
        WorkerManager {
            worker_map: WorkerMap::new(),
            block_map: BlockMap::new(),
            cluster_id: cluster_id.to_owned(),
            worker_lost_interval_ms,
            offline_workers: IdMap::new(),
            recovering_workers: IdMap::new(),
            retired_worker_sessions: RetiredSessions::new(),
        }
    }

    pub fn get_worker(&self, id: u32) -> (r: Option<&WorkerInfo>)
        ensures
            match r {
                Some(w) => self@.workers.contains_key(id) && w@ == self@.workers[id],
                None => !self@.workers.contains_key(id),
            },
    {
        self.worker_map.workers.get(id)
    }

    fn same_lost_worker(left: &WorkerInfo, right: &WorkerInfo) -> (r: bool)
        ensures
            r == left@.same_departure(right@),
    {
        left.address.same_endpoint(&right.address) && same_text(
            left.worker_session_id.as_str(),
            right.worker_session_id.as_str(),
        ) && left.startup_time_ms == right.startup_time_ms && left.last_update
            == right.last_update
    }

    pub fn is_lost_worker(&self, worker: &WorkerInfo) -> (r: bool)
        ensures
            r == self@.is_lost(worker@),
    {
        if self.get_worker(worker.worker_id()).is_some() {
            return false;
        }
        match self.worker_map.lost_workers.get(worker.worker_id()) {
            Some(lost) => Self::same_lost_worker(lost, worker),
            None => false,
        }
    }

    /// Schedules the cleanup of a lost worker; a scheduled one is kept.
    pub fn schedule_offline_worker(&mut self, worker: WorkerInfo, deadline_ms: u64, in_flight: bool)
        ensures
            final(self)@ == old(self)@.schedule(worker@, deadline_ms, in_flight),
            final(self)@.map() == old(self)@.map(),
    {
        if !self.is_lost_worker(&worker) {
            return;
        }
        let scheduled: bool = match self.offline_workers.get(worker.worker_id()) {
            Some(pending) => Self::same_lost_worker(&pending.worker, &worker),
            None => false,
        };
        if scheduled {
            return;
        }
        self.offline_workers.insert(
            worker.worker_id(),
            OfflineWorker { worker, deadline_ms, in_flight },
        );
    }

    fn remember_ended_worker(&mut self, worker: &WorkerInfo)
        ensures
            final(self)@ == (ManagerView {
                recovering: old(self)@.recovering.insert(
                    worker@.address.worker_id,
                    worker@.ended(),
                ),
                ..old(self)@
            }),
    {
        self.recovering_workers.insert(
            worker.worker_id(),
            WorkerRecovery {
                address: worker.address.clone(),
                session_id: worker.worker_session_id.clone(),
                startup_time_ms: worker.startup_time_ms,
                report_complete: false,
                ended: true,
            },
        );
    }

    fn retire_worker_session(&mut self, worker_id: u32, session: &str)
        ensures
            final(self)@ == (ManagerView {
                retired: if session@.len() == 0 {
                    old(self)@.retired
                } else {
                    old(self)@.retired.insert((worker_id, session@))
                },
                ..old(self)@
            }),
    {
        self.retired_worker_sessions.retire(worker_id, session);
    }

    fn retire_superseded_worker_sessions(&mut self, address: &WorkerAddress, session: &str)
        requires
            old(self)@.wf(),
        ensures
            final(self)@ == old(self)@.retire_superseded(address@, session@),
    {
        retire_from_workers(
            &mut self.retired_worker_sessions,
            &self.worker_map.workers,
            address,
            session,
        );
        retire_from_workers(
            &mut self.retired_worker_sessions,
            &self.worker_map.lost_workers,
            address,
            session,
        );
        retire_from_recoveries(
            &mut self.retired_worker_sessions,
            &self.recovering_workers,
            address,
            session,
        );
        assert(self@.retired =~= old(self)@.retire_superseded(address@, session@).retired);
    }

    /// Removes the other workers at the endpoint of `address` and schedules
    /// their cleanup.
    fn displace_same_endpoint(&mut self, address: &WorkerAddress, deadline_ms: u64, retire: bool)
        requires
            old(self)@.wf(),
        ensures
            final(self)@ == old(self)@.displace(address@, deadline_ms, retire),
            final(self)@.wf(),
    {
        let ghost ids = self@.map().displaced(address@);
        let stale: Vec<WorkerInfo> = self.worker_map.remove_same_endpoint(address);
        let ghost base = self@;
        let ghost order = crate::ids::workers_in_order(ids);
        proof {
            assert(base =~= old(self)@.with_map(old(self)@.map().move_to_lost(ids)));
            assert(base.set_offline(Set::empty(), deadline_ms, retire) =~= base);
            assert(order.take(0).to_set() =~= Set::<u32>::empty());
            let views = crate::worker_map::workers_of(stale@);
            assert(views.len() == stale.len());
            assert(crate::worker_map::pick(base.lost, order).len() == order.len());
            assert forall|j: int| 0 <= j < stale@.len() implies (#[trigger] stale@[j])@
                == base.lost[order[j]] by {
                assert(views[j] == stale@[j]@);
            }
        }
        let mut i: usize = 0;
        while i < stale.len()
            invariant
                i <= stale.len(),
                base.wf(),
                stale.len() == order.len(),
                forall|j: int|
                    0 <= j < stale@.len() ==> (#[trigger] stale@[j])@ == base.lost[order[j]],
                order.to_set() == ids,
                crate::ids::ascending_workers(order),
                forall|k: u32| #[trigger]
                    ids.contains(k) ==> base.lost.contains_key(k) && !base.workers.contains_key(k),
                self@ == base.set_offline(order.take(i as int).to_set(), deadline_ms, retire),
            decreases stale.len() - i,
        {
            let worker: &WorkerInfo = &stale[i];
            let ghost id = order[i as int];
            let ghost before = self@;
            let ghost done = order.take(i as int);
            proof {
                assert(order.contains(id));
                assert(order.to_set().contains(id));
                assert(ids.contains(id));
                assert(worker@ == base.lost[id]);
                assert(!done.contains(id)) by {
                    if done.contains(id) {
                        let j = choose|j: int| 0 <= j < done.len() && done[j] == id;
                        assert(order[j] == id);
                    }
                }
                assert(!done.to_set().contains(id));
            }
            if retire {
                self.retire_worker_session(worker.worker_id(), worker.worker_session_id.as_str());
            }
            self.remember_ended_worker(worker);
            self.schedule_offline_worker(worker.clone(), deadline_ms, false);
            proof {
                let next = order.take(i + 1);
                assert(next.to_set() =~= done.to_set().insert(id)) by {
                    assert(next =~= done.push(id));
                    assert forall|k: u32| next.contains(k) == (done.contains(k) || k == id) by {
                        assert(next[i as int] == id);
                        if done.contains(k) {
                            let j = choose|j: int| 0 <= j < done.len() && done[j] == k;
                            assert(next[j] == k);
                        }
                    }
                }
                assert(self@ =~= base.set_offline(next.to_set(), deadline_ms, retire));
            }
            i += 1;
        }
        proof {
            assert(order.take(order.len() as int) =~= order);
        }
    }

    /// Whether a running process may be, or become, live.
    pub fn accepts_running_heartbeat(
        &self,
        address: &WorkerAddress,
        session: &str,
        startup_time_ms: u64,
    ) -> (r: bool)
        ensures
            r == self@.accepts_running(address@, session@, startup_time_ms),
    {
        if !session.is_empty() && self.retired_worker_sessions.contains(
            address.worker_id,
            session,
        ) {
            return false;
        }
        if let Some(recovery) = self.recovering_workers.get(address.worker_id) {
            return !recovery.ended && recovery.report_complete && recovery.matches(
                address,
                session,
                startup_time_ms,
            );
        }
        let known = match self.get_worker(address.worker_id) {
            Some(worker) => Some(worker),
            None => self.worker_map.lost_workers.get(address.worker_id),
        };
        match known {
            Some(worker) => Self::is_process(worker, address, session, startup_time_ms),
            // A restarted master may first hear of a worker that is running.
            None => true,
        }
    }

    fn is_process(
        worker: &WorkerInfo,
        address: &WorkerAddress,
        session: &str,
        startup_time_ms: u64,
    ) -> (r: bool)
        ensures
            r == worker@.is_process(address@, session@, startup_time_ms),
    {
        worker.address.same_endpoint(address) && same_text(
            worker.worker_session_id.as_str(),
            session,
        ) && worker.startup_time_ms == startup_time_ms
    }

    /// Whether a process may announce itself.
    pub fn validate_worker_start(
        &self,
        cluster_id: &str,
        address: &WorkerAddress,
        session: &str,
        _startup_time_ms: u64,
    ) -> (r: Result<(), FsError>)
        ensures
            match r {
                Ok(_) => cluster_id@ == self@.cluster_id && !self@.map().id_conflict(address@)
                    && !self@.is_retired(address@.worker_id, session@),
                Err(e) => crate::manager_model::refusal(
                    if cluster_id@ != self@.cluster_id {
                        HeartbeatOutcome::ClusterMismatch
                    } else if self@.map().id_conflict(address@) {
                        HeartbeatOutcome::IdConflict
                    } else if self@.is_retired(address@.worker_id, session@) {
                        HeartbeatOutcome::RetiredSession
                    } else {
                        HeartbeatOutcome::Accepted { state: self@, commands: Seq::empty() }
                    },
                    self@.cluster_id,
                    cluster_id@,
                    address@,
                    e,
                ),
            },
    {
        if !same_text(cluster_id, self.cluster_id.as_str()) {
            return Err(
                FsError::ClusterMismatch {
                    expected: self.cluster_id.clone(),
                    actual: cluster_id.to_owned(),
                },
            );
        }
        self.worker_map.ensure_worker_id_addr(address)?;
        if !session.is_empty() && self.retired_worker_sessions.contains(
            address.worker_id,
            session,
        ) {
            return Err(FsError::RetiredSession { address: address.clone() });
        }
        Ok(())
    }

    /// Whether the announced process is already recovering or live.
    pub fn is_duplicate_worker_start(
        &self,
        address: &WorkerAddress,
        session: &str,
        startup_time_ms: u64,
    ) -> (r: bool)
        ensures
            r == self@.is_duplicate_start(address@, session@, startup_time_ms),
    {
        if let Some(recovery) = self.recovering_workers.get(address.worker_id) {
            return !recovery.ended && recovery.matches(address, session, startup_time_ms);
        }
        match self.get_worker(address.worker_id) {
            Some(worker) => Self::is_process(worker, address, session, startup_time_ms),
            None => false,
        }
    }

    fn begin_restart(&mut self, reg: Registration, deadline_ms: u64, now_ms: u64)
        requires
            old(self)@.wf(),
        ensures
            final(self)@ == old(self)@.begin_restart(reg@, deadline_ms, now_ms),
            final(self)@.wf(),
    {
        let id: u32 = reg.address.worker_id;
        proof {
            if !self@.workers.contains_key(id) {
                assert(self@.map().move_to_lost(set![id]) =~= self@.map());
            }
            crate::worker_map::storages_keep_identity(
                (WorkerView {
                    worker_session_id: reg@.worker_session_id,
                    startup_time_ms: reg@.startup_time_ms,
                    software_version: reg@.software_version,
                    transfer_capabilities: reg@.transfer_capabilities,
                    component_info: reg@.component_info,
                    status: WorkerStatus::Live,
                    ..WorkerView::fresh(reg@.address, reg@.weight, now_ms)
                }),
                reg@.storages,
            );
        }
        if let Some(worker) = self.worker_map.remove_offline(id) {
            self.schedule_offline_worker(worker, deadline_ms, false);
            return;
        }
        let known: Option<WorkerInfo> = match self.worker_map.lost_workers.get(id) {
            Some(worker) => Some(worker.clone()),
            None => None,
        };
        match known {
            // A previous cleanup may have finished before this attempt: arm
            // it again, and keep a deadline that is still pending.
            Some(worker) => self.schedule_offline_worker(worker, deadline_ms, false),
            // Locations of the worker can be on record before it registers
            // with this master. A first report that fails needs a bounded
            // cleanup of them.
            None => {
                let worker: WorkerInfo = reg.into_worker(now_ms, WorkerStatus::Live);
                self.worker_map.lost_workers.insert(id, worker.clone());
                self.schedule_offline_worker(worker, deadline_ms, false);
            },
        }
    }

    /// Takes in a heartbeat and returns the commands for the worker.
    pub fn heartbeat(
        &mut self,
        cluster_id: &str,
        status: HeartbeatStatus,
        addr: WorkerAddress,
        weight: u32,
        worker_session_id: String,
        transfer_capabilities: TransferWorkerCapabilities,
        software_version: String,
        startup_time_ms: u64,
        storages: Vec<StorageInfo>,
        component_info: Option<ComponentInfo>,
        now_ms: u64,
    ) -> (r: Result<Vec<WorkerCommand>, FsError>)
        requires
            old(self)@.wf(),
        ensures
            final(self)@.wf(),
            ({
                let reg = RegistrationView {
                    address: addr@,
                    weight,
                    worker_session_id: worker_session_id@,
                    transfer_capabilities,
                    software_version: software_version@,
                    startup_time_ms,
                    storages: crate::model::storages_of(storages@),
                    component_info: crate::model::component_of(component_info),
                };
                let outcome = old(self)@.heartbeat(cluster_id@, status, reg, now_ms);
                match r {
                    Ok(c) => outcome == (HeartbeatOutcome::Accepted {
                        state: final(self)@,
                        commands: crate::block_map::commands_of(c@),
                    }),
                    Err(e) => final(self)@ == old(self)@ && crate::manager_model::refusal(
                        outcome,
                        old(self)@.cluster_id,
                        cluster_id@,
                        addr@,
                        e,
                    ),
                }
            }),
    {
        // The cluster id must match to prevent misregistration.
        if !same_text(cluster_id, self.cluster_id.as_str()) {
            return Err(
                FsError::ClusterMismatch {
                    expected: self.cluster_id.clone(),
                    actual: cluster_id.to_owned(),
                },
            );
        }
        let deadline_ms: u64 = now_ms.saturating_add(self.worker_lost_interval_ms);
        let reg = Registration {
            address: addr,
            weight,
            worker_session_id,
            transfer_capabilities,
            software_version,
            startup_time_ms,
            storages,
            component_info,
        };
        match status {
            HeartbeatStatus::Start => self.start(cluster_id, reg, deadline_ms, now_ms),
            HeartbeatStatus::Running => self.running(reg, deadline_ms, now_ms),
            HeartbeatStatus::End => {
                self.end(reg, deadline_ms);
                let cmds: Vec<WorkerCommand> = Vec::new();
                assert(crate::block_map::commands_of(cmds@) =~= Seq::<Seq<i64>>::empty());
                Ok(cmds)
            },
        }
    }

    fn start(&mut self, cluster_id: &str, reg: Registration, deadline_ms: u64, now_ms: u64) -> (r:
        Result<Vec<WorkerCommand>, FsError>)
        requires
            old(self)@.wf(),
            cluster_id@ == old(self)@.cluster_id,
            deadline_ms == old(self)@.deadline(now_ms),
        ensures
            final(self)@.wf(),
            match r {
                Ok(c) => old(self)@.start(reg@, now_ms) == (HeartbeatOutcome::Accepted {
                    state: final(self)@,
                    commands: crate::block_map::commands_of(c@),
                }),
                Err(e) => final(self)@ == old(self)@ && crate::manager_model::refusal(
                    old(self)@.start(reg@, now_ms),
                    old(self)@.cluster_id,
                    cluster_id@,
                    reg@.address,
                    e,
                ),
            },
    {
        // The same rule of worker id and endpoint as for a registration holds
        // before anything is removed: a start from a conflicting endpoint
        // must not evict the live worker.
        let checked = self.validate_worker_start(
            cluster_id,
            &reg.address,
            reg.worker_session_id.as_str(),
            reg.startup_time_ms,
        );
        if let Err(e) = checked {
            return Err(e);
        }
        let cmds: Vec<WorkerCommand> = Vec::new();
        assert(crate::block_map::commands_of(cmds@) =~= Seq::<Seq<i64>>::empty());
        if self.is_duplicate_worker_start(
            &reg.address,
            reg.worker_session_id.as_str(),
            reg.startup_time_ms,
        ) {
            return Ok(cmds);
        }
        let recovery = WorkerRecovery {
            address: reg.address.clone(),
            session_id: reg.worker_session_id.clone(),
            startup_time_ms: reg.startup_time_ms,
            report_complete: false,
            ended: false,
        };
        self.retire_superseded_worker_sessions(&reg.address, reg.worker_session_id.as_str());
        self.displace_same_endpoint(&reg.address, deadline_ms, false);
        self.begin_restart(reg, deadline_ms, now_ms);
        self.recovering_workers.insert(recovery.address.worker_id, recovery);
        Ok(cmds)
    }

    fn running(&mut self, reg: Registration, deadline_ms: u64, now_ms: u64) -> (r: Result<
        Vec<WorkerCommand>,
        FsError,
    >)
        requires
            old(self)@.wf(),
            deadline_ms == old(self)@.deadline(now_ms),
        ensures
            final(self)@.wf(),
            match r {
                Ok(c) => old(self)@.running(reg@, now_ms) == (HeartbeatOutcome::Accepted {
                    state: final(self)@,
                    commands: crate::block_map::commands_of(c@),
                }),
                Err(e) => final(self)@ == old(self)@ && old(self)@.running(reg@, now_ms)
                    == HeartbeatOutcome::IdConflict && e == (FsError::WorkerIdConflict {
                    worker_id: reg@.address.worker_id,
                }),
            },
    {
        let id: u32 = reg.address.worker_id;
        if !self.accepts_running_heartbeat(
            &reg.address,
            reg.worker_session_id.as_str(),
            reg.startup_time_ms,
        ) {
            let none: Vec<WorkerCommand> = Vec::new();
            assert(crate::block_map::commands_of(none@) =~= Seq::<Seq<i64>>::empty());
            return Ok(none);
        }
        let cmds: Vec<WorkerCommand> = self.block_map.handle_heartbeat(id);
        if let Err(e) = self.worker_map.ensure_worker_id_addr(&reg.address) {
            return Err(e);
        }
        if self.get_worker(id).is_none() {
            self.retire_superseded_worker_sessions(&reg.address, reg.worker_session_id.as_str());
        }
        self.displace_same_endpoint(&reg.address, deadline_ms, true);
        if let Err(e) = self.worker_map.insert(reg, now_ms) {
            return Err(e);
        }
        self.offline_workers.remove(id);
        self.recovering_workers.remove(id);
        Ok(cmds)
    }

    fn end(&mut self, reg: Registration, deadline_ms: u64)
        requires
            old(self)@.wf(),
        ensures
            final(self)@.wf(),
            forall|now_ms: u64| #[trigger]
                old(self)@.deadline(now_ms) == deadline_ms ==> final(self)@ == old(self)@.end(
                    reg@,
                    now_ms,
                ),
    {
        let id: u32 = reg.address.worker_id;
        let same_process: bool = match self.get_worker(id) {
            Some(worker) => Self::is_process(
                worker,
                &reg.address,
                reg.worker_session_id.as_str(),
                reg.startup_time_ms,
            ),
            None => {
                if let Some(mut recovery) = self.recovering_workers.remove(id) {
                    if recovery.matches(
                        &reg.address,
                        reg.worker_session_id.as_str(),
                        reg.startup_time_ms,
                    ) {
                        recovery.ended = true;
                        recovery.report_complete = false;
                    }
                    self.recovering_workers.insert(id, recovery);
                }
                assert(self@.recovering =~= old(self)@.recovering || self@.recovering
                    =~= old(self)@.recovering.insert(
                    id,
                    (RecoveryView {
                        ended: true,
                        report_complete: false,
                        ..old(self)@.recovering[id]
                    }),
                ));
                return;
            },
        };
        if !same_process {
            return;
        }
        if let Some(worker) = self.worker_map.remove_offline(id) {
            self.remember_ended_worker(&worker);
            self.schedule_offline_worker(worker, deadline_ms, false);
        }
    }

    /// The live workers with the time of their last heartbeat, by id.
    pub fn get_last_heartbeat(&self) -> (r: Vec<(u32, u64)>)
        ensures
            r@ == crate::ids::workers_in_order(self@.workers.dom()).map_values(
                |k: u32| (k, self@.workers[k].last_update),
            ),
    {
        let ids: Vec<u32> = self.worker_map.workers.ids();
        let mut r: Vec<(u32, u64)> = Vec::new();
        let mut i: usize = 0;
        while i < ids.len()
            invariant
                i <= ids.len(),
                ids@.to_set() == self@.workers.dom(),
                r@.len() == i,
                forall|j: int|
                    0 <= j < i ==> r@[j] == (ids@[j], self@.workers[ids@[j]].last_update),
            decreases ids.len() - i,
        {
            assert(ids@.to_set().contains(ids@[i as int]));
            if let Some(worker) = self.get_worker(ids[i]) {
                r.push((ids[i], worker.last_update));
            }
            i += 1;
        }
        assert(r@ =~= ids@.map_values(|k: u32| (k, self@.workers[k].last_update)));
        r
    }

    /// The space that the live workers can still take, counted from zero for
    /// a worker that reports a negative amount.
    pub fn available_bytes(&self) -> (r: i64)
        ensures
            r == capped(available_sum(self@.workers)),
    {
        let ids: Vec<u32> = self.worker_map.workers.ids();
        let mut total: i64 = 0;
        let mut i: usize = 0;
        while i < ids.len()
            invariant
                i <= ids.len(),
                ids@.to_set() == self@.workers.dom(),
                0 <= total,
                total == capped(available_over(self@.workers, ids@.take(i as int))),
            decreases ids.len() - i,
        {
            proof {
                assert(ids@.to_set().contains(ids@[i as int]));
                let next = ids@.take(i + 1);
                assert(next.drop_last() =~= ids@.take(i as int));
                available_over_is_nonnegative(self@.workers, ids@.take(i as int));
            }
            if let Some(worker) = self.get_worker(ids[i]) {
                let available: i64 = if worker.available > 0 {
                    worker.available
                } else {
                    0
                };
                total = crate::model::add_saturating(total, available);
            }
            i += 1;
        }
        assert(ids@.take(ids@.len() as int) =~= ids@);
        total
    }

    /// Turns a live worker whose heartbeats stopped into a lost one. Its first
    /// cleanup is under way with the caller, and a retry is due at once.
    pub fn remove_expired_worker(&mut self, id: u32) -> (r: Option<WorkerInfo>)
        requires
            old(self)@.wf(),
        ensures
            final(self)@.wf(),
            r is Some == old(self)@.workers.contains_key(id),
            r matches Some(w) ==> w@ == old(self)@.workers[id].with_status(WorkerStatus::Lost),
            final(self)@ == old(self)@.expire(id),
    {
        match self.worker_map.remove_offline(id) {
            Some(worker) => {
                assert(self@.recovering == old(self)@.recovering);
                assert(self@.offline == old(self)@.offline);
                assert(self@.wf());
                self.schedule_offline_worker(worker.clone(), 0, true);
                Some(worker)
            },
            None => {
                assert(self@ =~= old(self)@);
                None
            },
        }
    }

    /// The lost workers whose grace has run out, by increasing id. Each is
    /// handed out once until it is queued again.
    pub fn take_expired_offline_workers(&mut self, now_ms: u64) -> (r: Vec<WorkerInfo>)
        requires
            old(self)@.wf(),
        ensures
            final(self)@.wf(),
            final(self)@ == old(self)@.dispatch(now_ms),
            crate::worker_map::workers_of(r@) == crate::ids::workers_in_order(
                old(self)@.due(now_ms),
            ).map_values(|k: u32| old(self)@.offline[k].worker),
            crate::ids::ascending_workers(crate::ids::workers_in_order(old(self)@.due(now_ms))),
            crate::ids::workers_in_order(old(self)@.due(now_ms)).to_set() == old(self)@.due(
                now_ms,
            ),
    {
        let ids: Vec<u32> = self.offline_workers.ids();
        let mut r: Vec<WorkerInfo> = Vec::new();
        let ghost due = self@.due(now_ms);
        let ghost mut done = Seq::<u32>::empty();
        let mut i: usize = 0;
        while i < ids.len()
            invariant
                i <= ids.len(),
                due == old(self)@.due(now_ms),
                crate::ids::ascending_workers(ids@),
                ids@.to_set() == old(self)@.offline.dom(),
                crate::ids::ascending_workers(done),
                forall|k: u32| #[trigger]
                    done.contains(k) <==> due.contains(k) && ids@.take(i as int).contains(k),
                self@ == old(self)@.mark_in_flight(done.to_set()),
                r@.len() == done.len(),
                forall|j: int|
                    0 <= j < r@.len() ==> (#[trigger] r@[j])@ == old(self)@.offline[done[j]].worker,
            decreases ids.len() - i,
        {
            let id: u32 = ids[i];
            let ghost prev = done;
            proof {
                assert(ids@.to_set().contains(id));
                crate::ids::step_members(ids@, i as int, due, prev);
                crate::ids::push_extends(prev, id);
                assert(!prev.to_set().contains(id));
            }
            if let Some(mut pending) = self.offline_workers.remove(id) {
                let is_due: bool = !pending.in_flight && now_ms >= pending.deadline_ms;
                if is_due {
                    pending.in_flight = true;
                    r.push(pending.worker.clone());
                    proof {
                        done = done.push(id);
                    }
                }
                self.offline_workers.insert(id, pending);
            }
            proof {
                assert(due.contains(id) == (done.len() > prev.len()));
                assert(self@ =~= old(self)@.mark_in_flight(done.to_set()));
            }
            i += 1;
        }
        proof {
            crate::ids::all_members(ids@, due, done);
            assert(crate::worker_map::workers_of(r@) =~= done.map_values(
                |k: u32| old(self)@.offline[k].worker,
            ));
        }
        r
    }

    /// Makes the cleanup of a lost worker available for dispatch again, under
    /// its first deadline where it still has one.
    pub fn queue_offline_worker(&mut self, worker: WorkerInfo)
        ensures
            final(self)@ == old(self)@.requeue(worker@),
    {
        if !self.is_lost_worker(&worker) {
            return;
        }
        let id: u32 = worker.worker_id();
        if let Some(mut pending) = self.offline_workers.remove(id) {
            let same: bool = Self::same_lost_worker(&pending.worker, &worker);
            if same {
                pending.in_flight = false;
            }
            self.offline_workers.insert(id, pending);
            assert(!same ==> self@.offline =~= old(self)@.offline);
            if same {
                assert(self@ =~= old(self)@.requeue(worker@));
                return;
            }
        }
        assert(self@ =~= old(self)@);
        self.schedule_offline_worker(worker, 0, false);
    }

    /// Bounds the cleanup of locations that a report of a lost worker may
    /// install, without extending a deadline that stands.
    pub fn ensure_report_cleanup(&mut self, worker_id: u32, now_ms: u64)
        ensures
            final(self)@ == old(self)@.ensure_cleanup(worker_id, now_ms),
    {
        if self.get_worker(worker_id).is_some() {
            return;
        }
        let lost: Option<WorkerInfo> = match self.worker_map.lost_workers.get(worker_id) {
            Some(worker) => Some(worker.clone()),
            None => None,
        };
        if let Some(worker) = lost {
            let deadline_ms: u64 = now_ms.saturating_add(self.worker_lost_interval_ms);
            self.schedule_offline_worker(worker, deadline_ms, false);
        }
    }

    /// Forgets the scheduled cleanup of exactly this departure.
    pub fn finish_offline_worker_cleanup(&mut self, worker: &WorkerInfo)
        ensures
            final(self)@ == old(self)@.finish_cleanup(worker@),
    {
        let id: u32 = worker.worker_id();
        let same: bool = match self.offline_workers.get(id) {
            Some(pending) => Self::same_lost_worker(&pending.worker, worker),
            None => false,
        };
        if same {
            self.offline_workers.remove(id);
        }
    }

    /// Whether block reports of `session` are taken from the worker.
    pub fn block_report_session_matches(&self, worker_id: u32, session: &str) -> (r: bool)
        ensures
            r == self@.accepts_report(worker_id, session@),
    {
        if let Some(recovery) = self.recovering_workers.get(worker_id) {
            return recovery.accepts_report(session);
        }
        if session.is_empty() {
            return true;
        }
        match self.get_worker(worker_id) {
            Some(worker) => same_text(worker.worker_session_id.as_str(), session),
            None => false,
        }
    }

    /// Records that the recovering process has reported all of its blocks.
    pub fn complete_worker_block_report(&mut self, worker_id: u32, session: &str)
        ensures
            final(self)@ == old(self)@.complete_report(worker_id, session@),
    {
        if let Some(mut recovery) = self.recovering_workers.remove(worker_id) {
            if recovery.accepts_report(session) {
                recovery.report_complete = true;
            }
            self.recovering_workers.insert(worker_id, recovery);
        }
        assert(self@ =~= old(self)@.complete_report(worker_id, session@));
    }

    /// Whether the recovering process has reported all of its blocks.
    pub fn worker_block_report_complete(&self, worker_id: u32, session: &str) -> (r: bool)
        ensures
            r == (self@.recovering.contains_key(worker_id)
                && self@.recovering[worker_id].accepts_report(session@)
                && self@.recovering[worker_id].report_complete),
    {
        match self.recovering_workers.get(worker_id) {
            Some(recovery) => recovery.accepts_report(session) && recovery.report_complete,
            None => false,
        }
    }

    /// Blacklists a live worker and returns it, unless it is blacklisted.
    pub fn add_blacklist_worker(&mut self, id: u32) -> (r: Option<WorkerInfo>)
        requires
            old(self)@.wf(),
        ensures
            final(self)@.wf(),
            r is Some == old(self)@.can_blacklist(id),
            r matches Some(w) ==> w@ == final(self)@.workers[id],
            final(self)@ == (if old(self)@.can_blacklist(id) {
                ManagerView {
                    workers: old(self)@.workers.insert(
                        id,
                        old(self)@.workers[id].with_status(WorkerStatus::Blacklist),
                    ),
                    ..old(self)@
                }
            } else {
                old(self)@
            }),
    {
        let mut r: Option<WorkerInfo> = None;
        if let Some(mut worker) = self.worker_map.workers.remove(id) {
            if worker.status != WorkerStatus::Blacklist {
                worker.status = WorkerStatus::Blacklist;
                r = Some(worker.clone());
            }
            self.worker_map.workers.insert(id, worker);
        }
        assert(!old(self)@.can_blacklist(id) ==> self@ =~= old(self)@);
        assert(old(self)@.can_blacklist(id) ==> self@.workers =~= old(self)@.workers.insert(
            id,
            old(self)@.workers[id].with_status(WorkerStatus::Blacklist),
        ));
        r
    }

    /// Queues the deletion of one replica.
    pub fn remove_block(&mut self, worker_id: u32, block_id: i64)
        ensures
            final(self)@ == (ManagerView {
                deletes: old(self)@.deletes.insert((worker_id, block_id)),
                ..old(self)@
            }),
    {
        self.block_map.remove_block(worker_id, block_id);
    }

    /// Queues the deletion of every replica that the result names.
    pub fn remove_blocks(&mut self, del_res: &DeleteResult)
        ensures
            final(self)@ == (ManagerView {
                deletes: old(self)@.deletes.union(del_res.replicas()),
                ..old(self)@
            }),
    {
        self.block_map.remove_blocks(del_res);
    }

    /// Forgets a deletion that the worker has confirmed.
    pub fn deleted_block(&mut self, worker_id: u32, block_id: i64)
        ensures
            final(self)@ == (ManagerView {
                deletes: old(self)@.deletes.remove((worker_id, block_id)),
                ..old(self)@
            }),
    {
        self.block_map.deleted_block(worker_id, block_id);
    }

    /// Adds a live worker as it is.
    pub fn add_test_worker(&mut self, worker: WorkerInfo)
        requires
            old(self)@.wf(),
        ensures
            final(self)@.wf(),
            final(self)@ == (ManagerView {
                workers: old(self)@.workers.insert(worker@.address.worker_id, worker@),
                ..old(self)@
            }),
    {
        self.worker_map.workers.insert(worker.worker_id(), worker);
    }
}

/// The available space of the workers `ids`, none below zero.
pub open spec fn available_over(m: Map<u32, WorkerView>, ids: Seq<u32>) -> int
    decreases ids.len(),
{
    if ids.len() == 0 {
        0
    } else {
        available_over(m, ids.drop_last()) + if m[ids.last()].available > 0 {
            m[ids.last()].available as int
        } else {
            0
        }
    }
}

/// The available space of all workers of `m`, none below zero.
pub open spec fn available_sum(m: Map<u32, WorkerView>) -> int {
    available_over(m, crate::ids::workers_in_order(m.dom()))
}

/// `n`, or the largest `i64` where `n` is larger.
pub open spec fn capped(n: int) -> i64 {
    if n > i64::MAX {
        i64::MAX
    } else {
        n as i64
    }
}

proof fn available_over_is_nonnegative(m: Map<u32, WorkerView>, ids: Seq<u32>)
    ensures
        available_over(m, ids) >= 0,
    decreases ids.len(),
{
    if ids.len() > 0 {
        available_over_is_nonnegative(m, ids.drop_last());
    }
}

} // verus!
