//! The state of the worker manager, and what each operation makes of it.

use vstd::prelude::*;

use crate::error::FsError;
use crate::model::{AddressView, HeartbeatStatus, WorkerStatus, WorkerView};
use crate::worker_map::{RegistrationView, WorkerMapView};

verus! {

#[verifier::ext_equal]
pub struct OfflineView {
    pub worker: WorkerView,
    pub deadline_ms: u64,
    pub in_flight: bool,
}

#[verifier::ext_equal]
pub struct RecoveryView {
    pub address: AddressView,
    pub session_id: Seq<char>,
    pub startup_time_ms: u64,
    pub report_complete: bool,
    pub ended: bool,
}

impl RecoveryView {
    /// The recovery belongs to the process with this endpoint, session and
    /// start time.
    pub open spec fn is_for(self, address: AddressView, session: Seq<char>, startup: u64) -> bool {
        self.address.same_endpoint(address) && self.session_id == session && self.startup_time_ms
            == startup
    }

    /// Block reports of `session` count for this recovery. A report without
    /// session counts for any process that has not ended.
    pub open spec fn accepts_report(self, session: Seq<char>) -> bool {
        !self.ended && (session.len() == 0 || self.session_id == session)
    }
}

impl WorkerView {
    /// The worker is the process with this endpoint, session and start time.
    pub open spec fn is_process(
        self,
        address: AddressView,
        session: Seq<char>,
        startup: u64,
    ) -> bool {
        self.address.same_endpoint(address) && self.worker_session_id == session
            && self.startup_time_ms == startup
    }

    /// Both describe the same departure of the same process.
    pub open spec fn same_departure(self, other: WorkerView) -> bool {
        self.is_process(other.address, other.worker_session_id, other.startup_time_ms)
            && self.last_update == other.last_update
    }

    /// The recovery record of the worker's process after it ended.
    pub open spec fn ended(self) -> RecoveryView {
        RecoveryView {
            address: self.address,
            session_id: self.worker_session_id,
            startup_time_ms: self.startup_time_ms,
            report_complete: false,
            ended: true,
        }
    }
}

#[verifier::ext_equal]
pub struct ManagerView {
    pub workers: Map<u32, WorkerView>,
    pub lost: Map<u32, WorkerView>,
    /// Queued deletions as pairs of worker and block.
    pub deletes: Set<(u32, i64)>,
    pub cluster_id: Seq<char>,
    pub worker_lost_interval_ms: u64,
    pub offline: Map<u32, OfflineView>,
    pub recovering: Map<u32, RecoveryView>,
    /// Retired sessions as pairs of worker and session.
    pub retired: Set<(u32, Seq<char>)>,
}

/// What a heartbeat leads to.
pub enum HeartbeatOutcome {
    /// The worker belongs to another cluster.
    ClusterMismatch,
    /// The worker id is live at another endpoint.
    IdConflict,
    /// The process was replaced before.
    RetiredSession,
    /// The heartbeat was taken in: the new state, and the blocks that the
    /// worker is told to delete.
    Accepted { state: ManagerView, commands: Seq<Seq<i64>> },
}

/// The sessions of `m` that a process of `session` at `address` replaces.
pub open spec fn replaced_workers(
    m: Map<u32, WorkerView>,
    address: AddressView,
    session: Seq<char>,
) -> Set<(u32, Seq<char>)> {
    Set::new(
        |p: (u32, Seq<char>)|
            m.contains_key(p.0) && m[p.0].worker_session_id == p.1 && is_replaced(
                p.0,
                m[p.0].address,
                p.1,
                address,
                session,
            ),
    )
}

/// The sessions of `m` that a process of `session` at `address` replaces.
pub open spec fn replaced_recoveries(
    m: Map<u32, RecoveryView>,
    address: AddressView,
    session: Seq<char>,
) -> Set<(u32, Seq<char>)> {
    Set::new(
        |p: (u32, Seq<char>)|
            m.contains_key(p.0) && m[p.0].session_id == p.1 && is_replaced(
                p.0,
                m[p.0].address,
                p.1,
                address,
                session,
            ),
    )
}

/// A known process gives way to a new one: it has a session, and it either
/// had the same worker id under another session or another id at the same
/// endpoint.
pub open spec fn is_replaced(
    known_id: u32,
    known: AddressView,
    known_session: Seq<char>,
    address: AddressView,
    session: Seq<char>,
) -> bool {
    known_session.len() > 0 && if known_id == address.worker_id {
        known_session != session
    } else {
        known.same_endpoint(address)
    }
}

impl ManagerView {
    pub open spec fn map(self) -> WorkerMapView {
        WorkerMapView { workers: self.workers, lost: self.lost }
    }

    /// Every record stands under the id of its worker.
    pub open spec fn wf(self) -> bool {
        &&& self.map().wf()
        &&& forall|k: u32| #[trigger]
            self.offline.contains_key(k) ==> self.offline[k].worker.address.worker_id == k
        &&& forall|k: u32| #[trigger]
            self.recovering.contains_key(k) ==> self.recovering[k].address.worker_id == k
    }

    pub open spec fn with_map(self, m: WorkerMapView) -> ManagerView {
        ManagerView { workers: m.workers, lost: m.lost, ..self }
    }

    /// The time at which a worker that goes offline now is due for cleanup.
    pub open spec fn deadline(self, now_ms: u64) -> u64 {
        if now_ms + self.worker_lost_interval_ms > u64::MAX {
            u64::MAX
        } else {
            (now_ms + self.worker_lost_interval_ms) as u64
        }
    }

    /// The worker left and has not come back since.
    pub open spec fn is_lost(self, w: WorkerView) -> bool {
        let id = w.address.worker_id;
        !self.workers.contains_key(id) && self.lost.contains_key(id)
            && self.lost[id].same_departure(w)
    }

    /// A cleanup of exactly this departure is already scheduled.
    pub open spec fn is_scheduled(self, w: WorkerView) -> bool {
        let id = w.address.worker_id;
        self.offline.contains_key(id) && self.offline[id].worker.same_departure(w)
    }

    /// Schedules the cleanup of a lost worker. A cleanup that is scheduled
    /// already keeps its deadline.
    pub open spec fn schedule(self, w: WorkerView, deadline_ms: u64, in_flight: bool) -> ManagerView {
        if !self.is_lost(w) || self.is_scheduled(w) {
            self
        } else {
            ManagerView {
                offline: self.offline.insert(
                    w.address.worker_id,
                    OfflineView { worker: w, deadline_ms, in_flight },
                ),
                ..self
            }
        }
    }

    /// All sessions that a process of `session` at `address` replaces.
    pub open spec fn superseded(self, address: AddressView, session: Seq<char>) -> Set<
        (u32, Seq<char>),
    > {
        replaced_workers(self.workers, address, session).union(
            replaced_workers(self.lost, address, session),
        ).union(replaced_recoveries(self.recovering, address, session))
    }

    pub open spec fn retire_superseded(self, address: AddressView, session: Seq<char>) -> ManagerView {
        ManagerView { retired: self.retired.union(self.superseded(address, session)), ..self }
    }

    /// The lost workers `ids` are remembered as ended and scheduled for
    /// cleanup; where `retire` is set their sessions are retired too.
    pub open spec fn set_offline(
        self,
        ids: Set<u32>,
        deadline_ms: u64,
        retire: bool,
    ) -> ManagerView {
        ManagerView {
            recovering: Map::new(
                |k: u32| self.recovering.contains_key(k) || ids.contains(k),
                |k: u32|
                    if ids.contains(k) {
                        self.lost[k].ended()
                    } else {
                        self.recovering[k]
                    },
            ),
            offline: Map::new(
                |k: u32| self.offline.contains_key(k) || ids.contains(k),
                |k: u32|
                    if ids.contains(k) && !self.is_scheduled(self.lost[k]) {
                        OfflineView { worker: self.lost[k], deadline_ms, in_flight: false }
                    } else {
                        self.offline[k]
                    },
            ),
            retired: self.retired.union(
                Set::new(
                    |p: (u32, Seq<char>)|
                        retire && ids.contains(p.0) && p.1 == self.lost[p.0].worker_session_id
                            && p.1.len() > 0,
                ),
            ),
            ..self
        }
    }

    /// The other workers at the endpoint of `address` leave.
    pub open spec fn displace(
        self,
        address: AddressView,
        deadline_ms: u64,
        retire: bool,
    ) -> ManagerView {
        let ids = self.map().displaced(address);
        self.with_map(self.map().move_to_lost(ids)).set_offline(ids, deadline_ms, retire)
    }

    /// The process may not register any more.
    pub open spec fn is_retired(self, worker_id: u32, session: Seq<char>) -> bool {
        session.len() > 0 && self.retired.contains((worker_id, session))
    }

    /// A start of a process that is already recovering or live.
    pub open spec fn is_duplicate_start(
        self,
        address: AddressView,
        session: Seq<char>,
        startup: u64,
    ) -> bool {
        let id = address.worker_id;
        if self.recovering.contains_key(id) {
            !self.recovering[id].ended && self.recovering[id].is_for(address, session, startup)
        } else {
            self.workers.contains_key(id) && self.workers[id].is_process(address, session, startup)
        }
    }

    /// Whether a running process may be, or become, live.
    pub open spec fn accepts_running(
        self,
        address: AddressView,
        session: Seq<char>,
        startup: u64,
    ) -> bool {
        let id = address.worker_id;
        if self.is_retired(id, session) {
            false
        } else if self.recovering.contains_key(id) {
            let recovery = self.recovering[id];
            !recovery.ended && recovery.report_complete && recovery.is_for(
                address,
                session,
                startup,
            )
        } else if self.workers.contains_key(id) {
            self.workers[id].is_process(address, session, startup)
        } else if self.lost.contains_key(id) {
            self.lost[id].is_process(address, session, startup)
        } else {
            true
        }
    }

    /// The previous process of the worker id leaves, or, where none is known,
    /// the announced process stands in for it: its locations may be on record.
    pub open spec fn begin_restart(
        self,
        reg: RegistrationView,
        deadline_ms: u64,
        now_ms: u64,
    ) -> ManagerView {
        let id = reg.address.worker_id;
        if self.workers.contains_key(id) || self.lost.contains_key(id) {
            let s = self.with_map(self.map().move_to_lost(set![id]));
            s.schedule(s.lost[id], deadline_ms, false)
        } else {
            let w = reg.worker(now_ms, WorkerStatus::Live);
            let s = ManagerView { lost: self.lost.insert(id, w), ..self };
            s.schedule(w, deadline_ms, false)
        }
    }

    /// A process announces itself.
    pub open spec fn start(self, reg: RegistrationView, now_ms: u64) -> HeartbeatOutcome {
        let id = reg.address.worker_id;
        let deadline_ms = self.deadline(now_ms);
        if self.map().id_conflict(reg.address) {
            HeartbeatOutcome::IdConflict
        } else if self.is_retired(id, reg.worker_session_id) {
            HeartbeatOutcome::RetiredSession
        } else if self.is_duplicate_start(
            reg.address,
            reg.worker_session_id,
            reg.startup_time_ms,
        ) {
            HeartbeatOutcome::Accepted { state: self, commands: Seq::empty() }
        } else {
            let s = self.retire_superseded(reg.address, reg.worker_session_id).displace(
                reg.address,
                deadline_ms,
                false,
            ).begin_restart(reg, deadline_ms, now_ms);
            HeartbeatOutcome::Accepted {
                state: ManagerView {
                    recovering: s.recovering.insert(
                        id,
                        RecoveryView {
                            address: reg.address,
                            session_id: reg.worker_session_id,
                            startup_time_ms: reg.startup_time_ms,
                            report_complete: false,
                            ended: false,
                        },
                    ),
                    ..s
                },
                commands: Seq::empty(),
            }
        }
    }

    /// A running process becomes, or stays, the live worker of its id.
    pub open spec fn running(self, reg: RegistrationView, now_ms: u64) -> HeartbeatOutcome {
        let id = reg.address.worker_id;
        if !self.accepts_running(reg.address, reg.worker_session_id, reg.startup_time_ms) {
            HeartbeatOutcome::Accepted { state: self, commands: Seq::empty() }
        } else if self.map().id_conflict(reg.address) {
            HeartbeatOutcome::IdConflict
        } else {
            let fenced = if self.workers.contains_key(id) {
                self
            } else {
                self.retire_superseded(reg.address, reg.worker_session_id)
            };
            let s = fenced.displace(reg.address, self.deadline(now_ms), true);
            let registered = s.with_map(s.map().register(reg, now_ms));
            HeartbeatOutcome::Accepted {
                state: ManagerView {
                    offline: registered.offline.remove(id),
                    recovering: registered.recovering.remove(id),
                    ..registered
                },
                commands: crate::block_map::delete_commands(self.deletes, id),
            }
        }
    }

    /// A process takes its leave.
    pub open spec fn end(self, reg: RegistrationView, now_ms: u64) -> ManagerView {
        let id = reg.address.worker_id;
        if !self.workers.contains_key(id) {
            if self.recovering.contains_key(id) && self.recovering[id].is_for(
                reg.address,
                reg.worker_session_id,
                reg.startup_time_ms,
            ) {
                ManagerView {
                    recovering: self.recovering.insert(
                        id,
                        RecoveryView {
                            ended: true,
                            report_complete: false,
                            ..self.recovering[id]
                        },
                    ),
                    ..self
                }
            } else {
                self
            }
        } else if !self.workers[id].is_process(
            reg.address,
            reg.worker_session_id,
            reg.startup_time_ms,
        ) {
            self
        } else {
            let s = self.with_map(self.map().move_to_lost(set![id]));
            ManagerView {
                recovering: s.recovering.insert(id, s.lost[id].ended()),
                ..s.schedule(s.lost[id], self.deadline(now_ms), false)
            }
        }
    }

    pub open spec fn heartbeat(
        self,
        cluster_id: Seq<char>,
        status: HeartbeatStatus,
        reg: RegistrationView,
        now_ms: u64,
    ) -> HeartbeatOutcome {
        if cluster_id != self.cluster_id {
            HeartbeatOutcome::ClusterMismatch
        } else {
            match status {
                HeartbeatStatus::Start => self.start(reg, now_ms),
                HeartbeatStatus::Running => self.running(reg, now_ms),
                HeartbeatStatus::End => HeartbeatOutcome::Accepted {
                    state: self.end(reg, now_ms),
                    commands: Seq::empty(),
                },
            }
        }
    }
}

/// The error that stands for a refusal.
pub open spec fn refusal(
    outcome: HeartbeatOutcome,
    expected: Seq<char>,
    actual: Seq<char>,
    address: AddressView,
    e: FsError,
) -> bool {
    match outcome {
        HeartbeatOutcome::ClusterMismatch => e matches FsError::ClusterMismatch {
            expected: x,
            actual: y,
        } && x@ == expected && y@ == actual,
        HeartbeatOutcome::IdConflict => e == (FsError::WorkerIdConflict {
            worker_id: address.worker_id,
        }),
        HeartbeatOutcome::RetiredSession => e matches FsError::RetiredSession { address: a } && a@
            == address,
        HeartbeatOutcome::Accepted { .. } => false,
    }
}

impl ManagerView {
    /// A live worker leaves because its heartbeats stopped.
    pub open spec fn expire(self, id: u32) -> ManagerView {
        if self.workers.contains_key(id) {
            let s = self.with_map(self.map().move_to_lost(set![id]));
            s.schedule(s.lost[id], 0, true)
        } else {
            self
        }
    }

    /// The scheduled cleanups that nobody works on and whose time has come.
    pub open spec fn due(self, now_ms: u64) -> Set<u32> {
        Set::new(
            |k: u32|
                self.offline.contains_key(k) && !self.offline[k].in_flight && now_ms
                    >= self.offline[k].deadline_ms,
        )
    }

    pub open spec fn mark_in_flight(self, ids: Set<u32>) -> ManagerView {
        ManagerView {
            offline: Map::new(
                |k: u32| self.offline.contains_key(k),
                |k: u32|
                    if ids.contains(k) {
                        OfflineView { in_flight: true, ..self.offline[k] }
                    } else {
                        self.offline[k]
                    },
            ),
            ..self
        }
    }

    /// The due cleanups are handed out.
    pub open spec fn dispatch(self, now_ms: u64) -> ManagerView {
        self.mark_in_flight(self.due(now_ms))
    }

    /// A cleanup that was handed out did not succeed.
    pub open spec fn requeue(self, w: WorkerView) -> ManagerView {
        let id = w.address.worker_id;
        if !self.is_lost(w) {
            self
        } else if self.is_scheduled(w) {
            ManagerView {
                offline: self.offline.insert(
                    id,
                    OfflineView { in_flight: false, ..self.offline[id] },
                ),
                ..self
            }
        } else {
            self.schedule(w, 0, false)
        }
    }

    /// A worker that is lost gets a cleanup deadline, if it has none.
    pub open spec fn ensure_cleanup(self, worker_id: u32, now_ms: u64) -> ManagerView {
        if !self.workers.contains_key(worker_id) && self.lost.contains_key(worker_id) {
            self.schedule(self.lost[worker_id], self.deadline(now_ms), false)
        } else {
            self
        }
    }

    /// The cleanup of the departure is done.
    pub open spec fn finish_cleanup(self, w: WorkerView) -> ManagerView {
        if self.is_scheduled(w) {
            ManagerView { offline: self.offline.remove(w.address.worker_id), ..self }
        } else {
            self
        }
    }

    /// Whether block reports of `session` are taken from the worker.
    pub open spec fn accepts_report(self, worker_id: u32, session: Seq<char>) -> bool {
        if self.recovering.contains_key(worker_id) {
            self.recovering[worker_id].accepts_report(session)
        } else {
            session.len() == 0 || (self.workers.contains_key(worker_id)
                && self.workers[worker_id].worker_session_id == session)
        }
    }

    /// The recovering process has reported all of its blocks.
    pub open spec fn complete_report(self, worker_id: u32, session: Seq<char>) -> ManagerView {
        if self.recovering.contains_key(worker_id) && self.recovering[worker_id].accepts_report(
            session,
        ) {
            ManagerView {
                recovering: self.recovering.insert(
                    worker_id,
                    RecoveryView { report_complete: true, ..self.recovering[worker_id] },
                ),
                ..self
            }
        } else {
            self
        }
    }

    /// Every live worker on one of the hosts has the status.
    pub open spec fn with_status_on(self, hosts: Seq<Seq<char>>, status: WorkerStatus) -> ManagerView {
        ManagerView {
            workers: self.workers.map_values(
                |w: WorkerView|
                    if hosts.contains(w.address.hostname) {
                        w.with_status(status)
                    } else {
                        w
                    },
            ),
            ..self
        }
    }

    pub open spec fn can_blacklist(self, id: u32) -> bool {
        self.workers.contains_key(id) && self.workers[id].status != WorkerStatus::Blacklist
    }
}

} // verus!
