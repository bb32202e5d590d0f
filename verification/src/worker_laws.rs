//! What holds of the worker manager across its operations.

use vstd::prelude::*;

use crate::model::{HeartbeatStatus, WorkerStatus, WorkerView};
use crate::manager_model::{HeartbeatOutcome, ManagerView};
use crate::worker_map::RegistrationView;

verus! {

/// One operation on the worker manager.
pub enum ManagerEvent {
    Heartbeat {
        cluster_id: Seq<char>,
        status: HeartbeatStatus,
        reg: RegistrationView,
        now_ms: u64,
    },
    /// The heartbeats of a live worker stopped.
    Expire { id: u32 },
    /// Due cleanups are handed out.
    Dispatch { now_ms: u64 },
    /// A cleanup that was handed out is queued again.
    Requeue { worker: WorkerView },
    EnsureCleanup { id: u32, now_ms: u64 },
    FinishCleanup { worker: WorkerView },
    CompleteReport { id: u32, session: Seq<char> },
    Blacklist { id: u32 },
    SetStatus { hosts: Seq<Seq<char>>, to: WorkerStatus },
    QueueDeletes { replicas: Set<(u32, i64)> },
    ForgetDelete { id: u32, block_id: i64 },
}

impl ManagerView {
    /// A manager without workers.
    pub open spec fn initial(cluster_id: Seq<char>, worker_lost_interval_ms: u64) -> ManagerView {
        ManagerView {
            workers: Map::empty(),
            lost: Map::empty(),
            deletes: Set::empty(),
            cluster_id,
            worker_lost_interval_ms,
            offline: Map::empty(),
            recovering: Map::empty(),
            retired: Set::empty(),
        }
    }

    /// The state after an operation. A refused heartbeat changes nothing.
    pub open spec fn step(self, e: ManagerEvent) -> ManagerView {
        match e {
            ManagerEvent::Heartbeat { cluster_id, status, reg, now_ms } => match self.heartbeat(
                cluster_id,
                status,
                reg,
                now_ms,
            ) {
                HeartbeatOutcome::Accepted { state, .. } => state,
                _ => self,
            },
            ManagerEvent::Expire { id } => self.expire(id),
            ManagerEvent::Dispatch { now_ms } => self.dispatch(now_ms),
            ManagerEvent::Requeue { worker } => self.requeue(worker),
            ManagerEvent::EnsureCleanup { id, now_ms } => self.ensure_cleanup(id, now_ms),
            ManagerEvent::FinishCleanup { worker } => self.finish_cleanup(worker),
            ManagerEvent::CompleteReport { id, session } => self.complete_report(id, session),
            ManagerEvent::Blacklist { id } => if self.can_blacklist(id) {
                ManagerView {
                    workers: self.workers.insert(
                        id,
                        self.workers[id].with_status(WorkerStatus::Blacklist),
                    ),
                    ..self
                }
            } else {
                self
            },
            ManagerEvent::SetStatus { hosts, to } => self.with_status_on(hosts, to),
            ManagerEvent::QueueDeletes { replicas } => ManagerView {
                deletes: self.deletes.union(replicas),
                ..self
            },
            ManagerEvent::ForgetDelete { id, block_id } => ManagerView {
                deletes: self.deletes.remove((id, block_id)),
                ..self
            },
        }
    }

    /// The state after a series of operations.
    pub open spec fn run(self, events: Seq<ManagerEvent>) -> ManagerView
        decreases events.len(),
    {
        if events.len() == 0 {
            self
        } else {
            self.run(events.drop_last()).step(events.last())
        }
    }

    /// Every record stands under its id; no worker is both live and lost; a
    /// live worker is neither recovering nor awaiting cleanup; two live workers
    /// never share an endpoint; and the empty session is never retired.
    pub open spec fn sound(self) -> bool {
        &&& self.wf()
        &&& forall|k: u32| #[trigger]
            self.workers.contains_key(k) ==> !self.lost.contains_key(k)
                && !self.recovering.contains_key(k) && !self.offline.contains_key(k)
        &&& forall|a: u32, b: u32|
            #![trigger self.workers[a], self.workers[b]]
            self.workers.contains_key(a) && self.workers.contains_key(b) && a != b
                ==> !self.workers[a].address.same_endpoint(self.workers[b].address)
        &&& forall|p: (u32, Seq<char>)| #[trigger] self.retired.contains(p) ==> p.1.len() > 0
    }
}

/// A manager without workers is sound.
pub proof fn initial_is_sound(cluster_id: Seq<char>, worker_lost_interval_ms: u64)
    ensures
        ManagerView::initial(cluster_id, worker_lost_interval_ms).sound(),
{
}

proof fn register_identity(reg: RegistrationView, now_ms: u64, status: WorkerStatus)
    ensures
        reg.worker(now_ms, status).address == reg.address,
        reg.worker(now_ms, status).worker_session_id == reg.worker_session_id,
        reg.worker(now_ms, status).startup_time_ms == reg.startup_time_ms,
        reg.worker(now_ms, status).last_update == now_ms,
        reg.worker(now_ms, status).status == status,
{
    crate::worker_map::storages_keep_identity(
        (WorkerView {
            worker_session_id: reg.worker_session_id,
            startup_time_ms: reg.startup_time_ms,
            software_version: reg.software_version,
            transfer_capabilities: reg.transfer_capabilities,
            component_info: reg.component_info,
            status,
            ..WorkerView::fresh(reg.address, reg.weight, now_ms)
        }),
        reg.storages,
    );
}

/// Every operation keeps a sound manager sound.
pub proof fn step_keeps_sound(s: ManagerView, e: ManagerEvent)
    requires
        s.sound(),
    ensures
        s.step(e).sound(),
{
    match e {
        ManagerEvent::Heartbeat { cluster_id, status, reg, now_ms } => {
            register_identity(reg, now_ms, WorkerStatus::Live);
            register_identity(reg, now_ms, WorkerStatus::Decommission);
        },
        _ => {},
    }
}

/// Every series of operations keeps a sound manager sound.
pub proof fn run_keeps_sound(s: ManagerView, events: Seq<ManagerEvent>)
    requires
        s.sound(),
    ensures
        s.run(events).sound(),
    decreases events.len(),
{
    if events.len() > 0 {
        run_keeps_sound(s, events.drop_last());
        step_keeps_sound(s.run(events.drop_last()), events.last());
    }
}

/// A retired session stays retired, whatever happens.
pub proof fn retirement_is_permanent(s: ManagerView, events: Seq<ManagerEvent>)
    ensures
        s.retired.subset_of(s.run(events).retired),
    decreases events.len(),
{
    if events.len() > 0 {
        retirement_is_permanent(s, events.drop_last());
    }
}

/// A retired process cannot register: its start is refused, and its running
/// heartbeats are answered with nothing and change nothing.
pub proof fn retired_process_is_fenced(s: ManagerView, reg: RegistrationView, now_ms: u64)
    requires
        s.is_retired(reg.address.worker_id, reg.worker_session_id),
    ensures
        s.start(reg, now_ms) is IdConflict || s.start(reg, now_ms) is RetiredSession,
        s.running(reg, now_ms) == (HeartbeatOutcome::Accepted { state: s, commands: Seq::empty() }),
{
}

/// When a new process starts, every other session known for its worker id, and
/// every session known under another id at its endpoint, is retired.
pub proof fn start_retires_predecessors(
    s: ManagerView,
    reg: RegistrationView,
    now_ms: u64,
    id: u32,
    session: Seq<char>,
)
    requires
        s.wf(),
        s.start(reg, now_ms) is Accepted,
        !s.is_duplicate_start(reg.address, reg.worker_session_id, reg.startup_time_ms),
        session.len() > 0,
        (s.workers.contains_key(id) && s.workers[id].worker_session_id == session
            && crate::manager_model::is_replaced(
            id,
            s.workers[id].address,
            session,
            reg.address,
            reg.worker_session_id,
        )) || (s.lost.contains_key(id) && s.lost[id].worker_session_id == session
            && crate::manager_model::is_replaced(
            id,
            s.lost[id].address,
            session,
            reg.address,
            reg.worker_session_id,
        )) || (s.recovering.contains_key(id) && s.recovering[id].session_id == session
            && crate::manager_model::is_replaced(
            id,
            s.recovering[id].address,
            session,
            reg.address,
            reg.worker_session_id,
        )),
    ensures
        s.start(reg, now_ms)->state.is_retired(id, session),
{
    assert(s.superseded(reg.address, reg.worker_session_id).contains((id, session)));
}

/// A process that starts is never fenced by its own start.
pub proof fn start_does_not_retire_itself(s: ManagerView, reg: RegistrationView, now_ms: u64)
    requires
        s.wf(),
        s.start(reg, now_ms) is Accepted,
    ensures
        !s.start(reg, now_ms)->state.is_retired(reg.address.worker_id, reg.worker_session_id),
{
}

/// Once a process has ended, only a start of its worker id lets the id
/// register or report again.
pub proof fn ended_worker_stays_out(s: ManagerView, e: ManagerEvent, id: u32)
    requires
        s.wf(),
        !s.workers.contains_key(id),
        s.recovering.contains_key(id),
        s.recovering[id].ended,
        !is_start_of(e, id),
    ensures
        !s.step(e).workers.contains_key(id),
        s.step(e).recovering.contains_key(id),
        s.step(e).recovering[id].ended,
        forall|session: Seq<char>| !#[trigger] s.step(e).accepts_report(id, session),
{
}

/// The operation announces a process of the worker id.
pub open spec fn is_start_of(e: ManagerEvent, id: u32) -> bool {
    e matches ManagerEvent::Heartbeat { status: HeartbeatStatus::Start, reg, .. }
        && reg.address.worker_id == id
}

/// Whatever happens, a process that has ended stays out until its worker id
/// starts again, also long after its cleanup.
pub proof fn ended_worker_waits_for_a_start(s: ManagerView, events: Seq<ManagerEvent>, id: u32)
    requires
        s.sound(),
        s.recovering.contains_key(id),
        s.recovering[id].ended,
        forall|i: int| 0 <= i < events.len() ==> !is_start_of(#[trigger] events[i], id),
    ensures
        !s.run(events).workers.contains_key(id),
        s.run(events).recovering.contains_key(id),
        s.run(events).recovering[id].ended,
        forall|session: Seq<char>| !#[trigger] s.run(events).accepts_report(id, session),
    decreases events.len(),
{
    if events.len() > 0 {
        let shorter = events.drop_last();
        assert forall|i: int| 0 <= i < shorter.len() implies !is_start_of(
            #[trigger] shorter[i],
            id,
        ) by {
            assert(shorter[i] == events[i]);
        }
        ended_worker_waits_for_a_start(s, shorter, id);
        run_keeps_sound(s, shorter);
        assert(!is_start_of(events[events.len() - 1], id));
        ended_worker_stays_out(s.run(shorter), events.last(), id);
    }
}

/// The end of a live process takes the worker out until it starts again.
pub proof fn end_takes_worker_out(s: ManagerView, reg: RegistrationView, now_ms: u64)
    requires
        s.wf(),
        s.workers.contains_key(reg.address.worker_id),
        s.workers[reg.address.worker_id].is_process(
            reg.address,
            reg.worker_session_id,
            reg.startup_time_ms,
        ),
    ensures
        ({
            let t = s.end(reg, now_ms);
            let id = reg.address.worker_id;
            &&& !t.workers.contains_key(id)
            &&& t.recovering.contains_key(id) && t.recovering[id].ended
            &&& t.is_scheduled(s.workers[id])
            &&& !t.accepts_running(reg.address, reg.worker_session_id, reg.startup_time_ms)
        }),
{
}

/// No operation moves the deadline of a scheduled cleanup while it is for the
/// same departure.
pub proof fn grace_is_never_extended(s: ManagerView, e: ManagerEvent, id: u32)
    requires
        s.wf(),
        s.offline.contains_key(id),
        s.step(e).offline.contains_key(id),
        s.offline[id].worker.same_departure(s.step(e).offline[id].worker),
    ensures
        s.step(e).offline[id].deadline_ms == s.offline[id].deadline_ms,
{
}

/// A cleanup that was handed out is not handed out again unless it is queued.
pub proof fn cleanup_is_handed_out_once(s: ManagerView, e: ManagerEvent, id: u32, later_ms: u64)
    requires
        s.wf(),
        s.offline.contains_key(id),
        s.offline[id].in_flight,
        !(e is Requeue),
        s.step(e).offline.contains_key(id),
        s.offline[id].worker.same_departure(s.step(e).offline[id].worker),
    ensures
        s.step(e).offline[id].in_flight,
        !s.step(e).due(later_ms).contains(id),
{
}

/// What a dispatch hands out is in flight afterwards, and a second dispatch
/// at any time hands out none of it.
pub proof fn dispatch_twice_hands_out_once(s: ManagerView, now_ms: u64, later_ms: u64)
    ensures
        s.due(now_ms).disjoint(s.dispatch(now_ms).due(later_ms)),
{
}

/// A running process that is taken in is live, with its session, and has
/// neither a pending cleanup nor a recovery.
pub proof fn running_registers(s: ManagerView, reg: RegistrationView, now_ms: u64)
    requires
        s.wf(),
        s.accepts_running(reg.address, reg.worker_session_id, reg.startup_time_ms),
        !s.map().id_conflict(reg.address),
    ensures
        ({
            let id = reg.address.worker_id;
            let outcome = s.running(reg, now_ms);
            let t = outcome->state;
            &&& outcome is Accepted
            &&& t.workers.contains_key(id)
            &&& t.workers[id].is_process(
                reg.address,
                reg.worker_session_id,
                reg.startup_time_ms,
            )
            &&& t.workers[id].last_update == now_ms
            &&& !t.lost.contains_key(id)
            &&& !t.offline.contains_key(id)
            &&& !t.recovering.contains_key(id)
        }),
{
    register_identity(reg, now_ms, WorkerStatus::Live);
    register_identity(reg, now_ms, WorkerStatus::Decommission);
}

/// A process that is live is nobody's lost worker: a cleanup that was handed
/// out before it came back finds nothing to do, and is not queued again.
pub proof fn live_worker_is_not_cleaned(s: ManagerView, w: WorkerView)
    requires
        s.workers.contains_key(w.address.worker_id),
    ensures
        !s.is_lost(w),
        s.requeue(w) == s,
{
}

/// A start that never gets any further has a bounded time until the blocks on
/// record for its worker are cleaned up.
pub proof fn start_bounds_its_cleanup(s: ManagerView, reg: RegistrationView, now_ms: u64)
    requires
        s.sound(),
        s.start(reg, now_ms) is Accepted,
        !s.is_duplicate_start(reg.address, reg.worker_session_id, reg.startup_time_ms),
    ensures
        ({
            let t = s.start(reg, now_ms)->state;
            let id = reg.address.worker_id;
            &&& t.lost.contains_key(id)
            &&& t.is_lost(t.lost[id])
            &&& t.is_scheduled(t.lost[id])
            &&& t.offline[id].deadline_ms <= s.deadline(now_ms) || s.offline.contains_key(id)
                && t.offline[id].deadline_ms == s.offline[id].deadline_ms
        }),
{
    register_identity(reg, now_ms, WorkerStatus::Live);
}

/// The cleanup of a worker whose heartbeats stopped is due at once when it
/// has to be repeated: there is no second grace.
pub proof fn timeout_retry_is_due_at_once(s: ManagerView, id: u32, now_ms: u64)
    requires
        s.sound(),
        s.workers.contains_key(id),
    ensures
        ({
            let t = s.expire(id);
            &&& t.is_lost(t.lost[id])
            &&& !t.due(now_ms).contains(id)
            &&& t.requeue(t.lost[id]).due(now_ms).contains(id)
        }),
{
}

/// A queued deletion waits until the worker confirms it.
pub proof fn deletions_wait_for_confirmation(s: ManagerView, e: ManagerEvent, replica: (u32, i64))
    requires
        s.deletes.contains(replica),
        e != (ManagerEvent::ForgetDelete { id: replica.0, block_id: replica.1 }),
    ensures
        s.step(e).deletes.contains(replica),
{
}

/// A running worker is told every deletion that is queued for it, and no
/// other.
pub proof fn running_worker_is_told_its_deletions(
    s: ManagerView,
    reg: RegistrationView,
    now_ms: u64,
    block_id: i64,
)
    requires
        s.accepts_running(reg.address, reg.worker_session_id, reg.startup_time_ms),
        !s.map().id_conflict(reg.address),
    ensures
        ({
            let told = s.running(reg, now_ms)->commands;
            s.deletes.contains((reg.address.worker_id, block_id)) <==> exists|i: int|
                0 <= i < told.len() && (#[trigger] told[i]).contains(block_id)
        }),
{
    let id = reg.address.worker_id;
    let queued = crate::block_map::queued_for(s.deletes, id);
    let told = s.running(reg, now_ms)->commands;
    crate::ids::in_order_lists(queued);
    assert(queued.contains(block_id) == s.deletes.contains((id, block_id)));
    if queued.contains(block_id) {
        assert(queued != Set::<i64>::empty());
        assert(told[0] == crate::ids::in_order(queued));
        assert(told[0].to_set().contains(block_id));
    }
    if exists|i: int| 0 <= i < told.len() && (#[trigger] told[i]).contains(block_id) {
        assert(told[0].to_set().contains(block_id));
    }
}

/// A start that is repeated, at whatever time, changes nothing more.
pub proof fn repeated_start_changes_nothing(
    s: ManagerView,
    reg: RegistrationView,
    now_ms: u64,
    again: RegistrationView,
    later_ms: u64,
)
    requires
        s.wf(),
        s.start(reg, now_ms) is Accepted,
        again.address == reg.address,
        again.worker_session_id == reg.worker_session_id,
        again.startup_time_ms == reg.startup_time_ms,
    ensures
        s.start(reg, now_ms)->state.start(again, later_ms) == (HeartbeatOutcome::Accepted {
            state: s.start(reg, now_ms)->state,
            commands: Seq::empty(),
        }),
{
    start_does_not_retire_itself(s, reg, now_ms);
}

/// An end that is repeated, at whatever time, changes nothing more.
pub proof fn repeated_end_changes_nothing(
    s: ManagerView,
    reg: RegistrationView,
    now_ms: u64,
    later_ms: u64,
)
    requires
        s.wf(),
    ensures
        s.end(reg, now_ms).end(reg, later_ms) == s.end(reg, now_ms),
{
    let t = s.end(reg, now_ms);
    assert(t.end(reg, later_ms).recovering =~= t.recovering);
    assert(t.end(reg, later_ms) =~= t);
}

/// After a start, a running heartbeat makes the process live exactly when its
/// blocks have been reported.
pub proof fn registration_needs_a_complete_report(
    s: ManagerView,
    reg: RegistrationView,
    now_ms: u64,
)
    requires
        s.wf(),
        s.start(reg, now_ms) is Accepted,
        !s.is_duplicate_start(reg.address, reg.worker_session_id, reg.startup_time_ms),
    ensures
        ({
            let t = s.start(reg, now_ms)->state;
            let id = reg.address.worker_id;
            &&& !t.accepts_running(reg.address, reg.worker_session_id, reg.startup_time_ms)
            &&& t.complete_report(id, reg.worker_session_id).accepts_running(
                reg.address,
                reg.worker_session_id,
                reg.startup_time_ms,
            )
            &&& t.complete_report(id, Seq::empty()).accepts_running(
                reg.address,
                reg.worker_session_id,
                reg.startup_time_ms,
            )
        }),
{
    start_does_not_retire_itself(s, reg, now_ms);
}

} // verus!
