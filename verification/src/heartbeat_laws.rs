//! What heartbeats and cleanups do to each worker, record by record.

use vstd::prelude::*;

use crate::manager_model::{HeartbeatOutcome, ManagerView, OfflineView, RecoveryView};
use crate::model::{AddressView, HeartbeatStatus, WorkerStatus, WorkerView};
use crate::worker_map::RegistrationView;

verus! {

/// The host and the RPC port agree.
pub open spec fn at_same_place(a: AddressView, b: AddressView) -> bool {
    a.hostname == b.hostname && a.rpc_port == b.rpc_port
}

/// The worker record is of the process that sends the registration.
pub open spec fn is_sender(w: WorkerView, reg: RegistrationView) -> bool {
    at_same_place(w.address, reg.address) && w.worker_session_id == reg.worker_session_id
        && w.startup_time_ms == reg.startup_time_ms
}

/// The recovery record is of the process that sends the registration.
pub open spec fn is_recovery_of_sender(r: RecoveryView, reg: RegistrationView) -> bool {
    at_same_place(r.address, reg.address) && r.session_id == reg.worker_session_id
        && r.startup_time_ms == reg.startup_time_ms
}

/// Two records of one departure of one process.
pub open spec fn departed_together(a: WorkerView, b: WorkerView) -> bool {
    at_same_place(a.address, b.address) && a.worker_session_id == b.worker_session_id
        && a.startup_time_ms == b.startup_time_ms && a.last_update == b.last_update
}

/// The time `wait` after `now`, or the end of time.
pub open spec fn later(now: u64, wait: u64) -> int {
    if now + wait <= u64::MAX {
        now + wait
    } else {
        u64::MAX as int
    }
}

/// The id is live somewhere else than the registration says.
pub open spec fn lives_elsewhere(s: ManagerView, reg: RegistrationView) -> bool {
    s.workers.contains_key(reg.address.worker_id) && !at_same_place(
        s.workers[reg.address.worker_id].address,
        reg.address,
    )
}

/// The process that sends the registration has been replaced before.
pub open spec fn sender_was_replaced(s: ManagerView, reg: RegistrationView) -> bool {
    reg.worker_session_id.len() > 0 && s.retired.contains(
        (reg.address.worker_id, reg.worker_session_id),
    )
}

/// The process that sends the registration is recovering already, or, where
/// its id does not recover, is live.
pub open spec fn sender_is_known(s: ManagerView, reg: RegistrationView) -> bool {
    let id = reg.address.worker_id;
    if s.recovering.contains_key(id) {
        !s.recovering[id].ended && is_recovery_of_sender(s.recovering[id], reg)
    } else {
        s.workers.contains_key(id) && is_sender(s.workers[id], reg)
    }
}

/// A live worker under another id gives way at the place of the sender.
pub open spec fn gives_way(s: ManagerView, reg: RegistrationView, k: u32) -> bool {
    k != reg.address.worker_id && s.workers.contains_key(k) && at_same_place(
        s.workers[k].address,
        reg.address,
    )
}

/// The record of a worker that left.
pub open spec fn gone(w: WorkerView) -> WorkerView {
    WorkerView { status: WorkerStatus::Lost, ..w }
}

/// A heartbeat of another cluster is refused; in its own cluster each kind of
/// heartbeat is taken for what it is, and an end is never refused.
pub proof fn heartbeat_goes_by_its_kind(
    s: ManagerView,
    cluster_id: Seq<char>,
    reg: RegistrationView,
    now_ms: u64,
)
    ensures
        forall|status: HeartbeatStatus|
            (#[trigger] s.heartbeat(cluster_id, status, reg, now_ms) is ClusterMismatch)
                == (cluster_id != s.cluster_id),
        cluster_id == s.cluster_id ==> {
            &&& s.heartbeat(cluster_id, HeartbeatStatus::Start, reg, now_ms) == s.start(reg, now_ms)
            &&& s.heartbeat(cluster_id, HeartbeatStatus::Running, reg, now_ms) == s.running(
                reg,
                now_ms,
            )
            &&& s.heartbeat(cluster_id, HeartbeatStatus::End, reg, now_ms)
                == (HeartbeatOutcome::Accepted {
                state: s.end(reg, now_ms),
                commands: Seq::empty(),
            })
        },
{
}

/// A start is refused where its worker id is live somewhere else, or where its
/// process was replaced before; else it is taken in and answered without a
/// command. A start of a process that is known already changes nothing.
pub proof fn start_is_refused_or_taken_in(s: ManagerView, reg: RegistrationView, now_ms: u64)
    ensures
        s.start(reg, now_ms) is IdConflict <==> lives_elsewhere(s, reg),
        s.start(reg, now_ms) is RetiredSession <==> !lives_elsewhere(s, reg)
            && sender_was_replaced(s, reg),
        s.start(reg, now_ms) is Accepted <==> !lives_elsewhere(s, reg) && !sender_was_replaced(
            s,
            reg,
        ),
        s.start(reg, now_ms) is Accepted ==> s.start(reg, now_ms)->commands.len() == 0,
        s.start(reg, now_ms) is Accepted && sender_is_known(s, reg) ==> s.start(
            reg,
            now_ms,
        )->state == s,
{
}

/// The worker id whose process starts has the whole grace: its cleanup is due
/// one interval after the start and not before, unless a cleanup of the same
/// departure was scheduled already, which stays as it is.
pub proof fn start_gives_the_whole_grace(
    s: ManagerView,
    reg: RegistrationView,
    now_ms: u64,
    at_ms: u64,
)
    requires
        s.wf(),
        s.start(reg, now_ms) is Accepted,
        !sender_is_known(s, reg),
    ensures
        ({
            let id = reg.address.worker_id;
            let t = s.start(reg, now_ms)->state;
            let known = if s.workers.contains_key(id) {
                Some(s.workers[id])
            } else if s.lost.contains_key(id) {
                Some(s.lost[id])
            } else {
                None
            };
            let scheduled = s.offline.contains_key(id) && (match known {
                Some(w) => departed_together(s.offline[id].worker, w),
                None => departed_together(s.offline[id].worker, t.lost[id]),
            });
            &&& t.offline.contains_key(id)
            &&& scheduled ==> t.offline[id] == s.offline[id]
            &&& !scheduled ==> {
                &&& t.offline[id].deadline_ms == later(now_ms, s.worker_lost_interval_ms)
                &&& !t.offline[id].in_flight
                &&& t.offline[id].worker == t.lost[id]
                &&& t.due(at_ms).contains(id) <==> at_ms >= later(now_ms, s.worker_lost_interval_ms)
                &&& now_ms <= at_ms < now_ms + s.worker_lost_interval_ms && at_ms < u64::MAX
                    ==> !t.due(at_ms).contains(id)
            }
        }),
{
    registered_worker(reg, now_ms, WorkerStatus::Live);
}

/// A start takes its worker id out of service, and every other id at its
/// place; all other workers go on as before. Whoever leaves is remembered as
/// lost, as it was; a start of an unknown id is remembered as lost itself.
pub proof fn start_takes_out_whom_it_replaces(
    s: ManagerView,
    reg: RegistrationView,
    now_ms: u64,
    k: u32,
)
    requires
        s.wf(),
        s.start(reg, now_ms) is Accepted,
        !sender_is_known(s, reg),
    ensures
        ({
            let id = reg.address.worker_id;
            let t = s.start(reg, now_ms)->state;
            &&& t.workers.contains_key(k) <==> s.workers.contains_key(k) && k != id && !gives_way(
                s,
                reg,
                k,
            )
            &&& t.workers.contains_key(k) ==> t.workers[k] == s.workers[k]
            &&& t.lost.contains_key(k) <==> s.lost.contains_key(k) || k == id || gives_way(s, reg, k)
            &&& (gives_way(s, reg, k) || k == id && s.workers.contains_key(id)) ==> t.lost[k]
                == gone(s.workers[k])
            &&& !(gives_way(s, reg, k) || k == id && s.workers.contains_key(id))
                && s.lost.contains_key(k) ==> t.lost[k] == s.lost[k]
            &&& k == id && !s.workers.contains_key(id) && !s.lost.contains_key(id) ==> {
                &&& t.lost[id].address == reg.address
                &&& t.lost[id].worker_session_id == reg.worker_session_id
                &&& t.lost[id].startup_time_ms == reg.startup_time_ms
                &&& t.lost[id].last_update == now_ms
            }
            &&& t.deletes == s.deletes
            &&& t.cluster_id == s.cluster_id
            &&& t.worker_lost_interval_ms == s.worker_lost_interval_ms
        }),
{
    registered_worker(reg, now_ms, WorkerStatus::Live);
}

/// After a start its process is the one that recovers under its id, with all
/// of its blocks still to be reported. A worker that gave way has ended, and
/// has its whole grace too. Nobody else's recovery or cleanup changes.
pub proof fn start_sets_out_recoveries(
    s: ManagerView,
    reg: RegistrationView,
    now_ms: u64,
    k: u32,
)
    requires
        s.wf(),
        s.start(reg, now_ms) is Accepted,
        !sender_is_known(s, reg),
    ensures
        ({
            let id = reg.address.worker_id;
            let t = s.start(reg, now_ms)->state;
            &&& k == id ==> t.recovering.contains_key(k) && is_recovery_of_sender(
                t.recovering[k],
                reg,
            ) && t.recovering[k].address == reg.address && !t.recovering[k].ended
                && !t.recovering[k].report_complete
            &&& gives_way(s, reg, k) ==> {
                &&& t.recovering.contains_key(k) && t.recovering[k].ended
                &&& !t.recovering[k].report_complete
                &&& t.recovering[k].address == s.workers[k].address
                &&& t.recovering[k].session_id == s.workers[k].worker_session_id
                &&& t.recovering[k].startup_time_ms == s.workers[k].startup_time_ms
                &&& t.offline.contains_key(k)
                &&& if s.offline.contains_key(k) && departed_together(
                    s.offline[k].worker,
                    s.workers[k],
                ) {
                    t.offline[k] == s.offline[k]
                } else {
                    t.offline[k] == (OfflineView {
                        worker: gone(s.workers[k]),
                        deadline_ms: later(now_ms, s.worker_lost_interval_ms) as u64,
                        in_flight: false,
                    })
                }
            }
            &&& k != id && !gives_way(s, reg, k) ==> {
                &&& t.recovering.contains_key(k) == s.recovering.contains_key(k)
                &&& s.recovering.contains_key(k) ==> t.recovering[k] == s.recovering[k]
                &&& t.offline.contains_key(k) == s.offline.contains_key(k)
                &&& s.offline.contains_key(k) ==> t.offline[k] == s.offline[k]
            }
        }),
{
    registered_worker(reg, now_ms, WorkerStatus::Live);
}

/// A session that the start of another process puts out of use: that of its
/// id under another session, or that of another id at its place.
pub open spec fn is_put_out(reg: RegistrationView, id: u32, at: AddressView, session: Seq<char>) -> bool {
    session.len() > 0 && (id == reg.address.worker_id && session != reg.worker_session_id || id
        != reg.address.worker_id && at_same_place(at, reg.address))
}

/// A start retires exactly the sessions that it replaces, wherever they are
/// known from: live, lost or recovering.
pub proof fn start_retires_exactly_whom_it_replaces(
    s: ManagerView,
    reg: RegistrationView,
    now_ms: u64,
    id: u32,
    session: Seq<char>,
)
    requires
        s.wf(),
        s.start(reg, now_ms) is Accepted,
        !sender_is_known(s, reg),
    ensures
        s.start(reg, now_ms)->state.retired.contains((id, session)) <==> {
            ||| s.retired.contains((id, session))
            ||| s.workers.contains_key(id) && s.workers[id].worker_session_id == session
                && is_put_out(reg, id, s.workers[id].address, session)
            ||| s.lost.contains_key(id) && s.lost[id].worker_session_id == session && is_put_out(
                reg,
                id,
                s.lost[id].address,
                session,
            )
            ||| s.recovering.contains_key(id) && s.recovering[id].session_id == session
                && is_put_out(reg, id, s.recovering[id].address, session)
        },
{
}

/// A running process may be live: it was not replaced; where its id recovers
/// it is the process that recovers, and has reported all of its blocks; else
/// it is the process that is known of its id, or none is known.
pub open spec fn may_be_live(s: ManagerView, reg: RegistrationView) -> bool {
    let id = reg.address.worker_id;
    &&& !sender_was_replaced(s, reg)
    &&& s.recovering.contains_key(id) ==> !s.recovering[id].ended
        && s.recovering[id].report_complete && is_recovery_of_sender(s.recovering[id], reg)
    &&& !s.recovering.contains_key(id) && s.workers.contains_key(id) ==> is_sender(
        s.workers[id],
        reg,
    )
    &&& !s.recovering.contains_key(id) && !s.workers.contains_key(id) && s.lost.contains_key(id)
        ==> is_sender(s.lost[id], reg)
}

/// A running heartbeat of a process that may not be live is answered with
/// nothing and changes nothing; one that may be is taken in, unless its id is
/// live somewhere else.
pub proof fn running_is_ignored_refused_or_taken_in(
    s: ManagerView,
    reg: RegistrationView,
    now_ms: u64,
)
    ensures
        s.accepts_running(reg.address, reg.worker_session_id, reg.startup_time_ms) <==> may_be_live(
            s,
            reg,
        ),
        !may_be_live(s, reg) ==> s.running(reg, now_ms) == (HeartbeatOutcome::Accepted {
            state: s,
            commands: Seq::empty(),
        }),
        may_be_live(s, reg) && lives_elsewhere(s, reg) ==> s.running(reg, now_ms) is IdConflict,
        may_be_live(s, reg) && !lives_elsewhere(s, reg) ==> s.running(reg, now_ms) is Accepted,
{
}

/// A running process that is taken in is the live worker of its id, seen now
/// and as it describes itself; a decommissioned worker stays decommissioned.
/// Other ids at its place leave, with their whole grace; all else stays.
pub proof fn running_takes_its_place(s: ManagerView, reg: RegistrationView, now_ms: u64, k: u32)
    requires
        s.wf(),
        may_be_live(s, reg),
        !lives_elsewhere(s, reg),
    ensures
        ({
            let id = reg.address.worker_id;
            let t = s.running(reg, now_ms)->state;
            &&& t.workers.contains_key(k) <==> k == id || s.workers.contains_key(k) && !gives_way(
                s,
                reg,
                k,
            )
            &&& k == id ==> {
                &&& is_described(t.workers[k], reg, now_ms)
                &&& t.workers[k].status == (if s.workers.contains_key(id) && s.workers[id].status
                    == WorkerStatus::Decommission {
                    WorkerStatus::Decommission
                } else {
                    WorkerStatus::Live
                })
                &&& !t.lost.contains_key(k) && !t.offline.contains_key(k)
                    && !t.recovering.contains_key(k)
            }
            &&& k != id && t.workers.contains_key(k) ==> t.workers[k] == s.workers[k]
            &&& gives_way(s, reg, k) ==> {
                &&& t.lost.contains_key(k) && t.lost[k] == gone(s.workers[k])
                &&& t.recovering.contains_key(k) && t.recovering[k].ended
                &&& !t.recovering[k].report_complete
                &&& t.recovering[k].address == s.workers[k].address
                &&& t.recovering[k].session_id == s.workers[k].worker_session_id
                &&& t.recovering[k].startup_time_ms == s.workers[k].startup_time_ms
                &&& t.offline.contains_key(k)
                &&& s.offline.contains_key(k) && departed_together(
                    s.offline[k].worker,
                    s.workers[k],
                ) ==> t.offline[k] == s.offline[k]
                &&& !(s.offline.contains_key(k) && departed_together(
                    s.offline[k].worker,
                    s.workers[k],
                )) ==> t.offline[k].deadline_ms == later(now_ms, s.worker_lost_interval_ms)
                    && !t.offline[k].in_flight && t.offline[k].worker == gone(s.workers[k])
                &&& s.workers[k].worker_session_id.len() > 0 ==> t.retired.contains(
                    (k, s.workers[k].worker_session_id),
                )
            }
            &&& k != id && !gives_way(s, reg, k) ==> {
                &&& t.lost.contains_key(k) == s.lost.contains_key(k)
                &&& s.lost.contains_key(k) ==> t.lost[k] == s.lost[k]
                &&& t.offline.contains_key(k) == s.offline.contains_key(k)
                &&& s.offline.contains_key(k) ==> t.offline[k] == s.offline[k]
                &&& t.recovering.contains_key(k) == s.recovering.contains_key(k)
                &&& s.recovering.contains_key(k) ==> t.recovering[k] == s.recovering[k]
            }
            &&& t.deletes == s.deletes
            &&& t.cluster_id == s.cluster_id
            &&& t.worker_lost_interval_ms == s.worker_lost_interval_ms
        }),
{
    registered_worker(reg, now_ms, WorkerStatus::Live);
    registered_worker(reg, now_ms, WorkerStatus::Decommission);
}

/// A process that comes to live retires the sessions that it replaces, and one
/// that stays live only those of the ids that give way to it; it never retires
/// anything else.
pub proof fn running_retires_exactly_whom_it_replaces(
    s: ManagerView,
    reg: RegistrationView,
    now_ms: u64,
    id: u32,
    session: Seq<char>,
)
    requires
        s.wf(),
        may_be_live(s, reg),
        !lives_elsewhere(s, reg),
    ensures
        s.running(reg, now_ms)->state.retired.contains((id, session)) <==> {
            ||| s.retired.contains((id, session))
            ||| gives_way(s, reg, id) && s.workers[id].worker_session_id == session && session.len()
                > 0
            ||| !s.workers.contains_key(reg.address.worker_id) && {
                ||| s.workers.contains_key(id) && s.workers[id].worker_session_id == session
                    && is_put_out(reg, id, s.workers[id].address, session)
                ||| s.lost.contains_key(id) && s.lost[id].worker_session_id == session
                    && is_put_out(reg, id, s.lost[id].address, session)
                ||| s.recovering.contains_key(id) && s.recovering[id].session_id == session
                    && is_put_out(reg, id, s.recovering[id].address, session)
            }
        },
{
}

/// The worker record says what the registration says, seen at `now_ms`.
pub open spec fn is_described(w: WorkerView, reg: RegistrationView, now_ms: u64) -> bool {
    &&& w.address == reg.address
    &&& w.weight == reg.weight
    &&& w.worker_session_id == reg.worker_session_id
    &&& w.startup_time_ms == reg.startup_time_ms
    &&& w.software_version == reg.software_version
    &&& w.transfer_capabilities == reg.transfer_capabilities
    &&& w.component_info == reg.component_info
    &&& w.last_update == now_ms
}

/// A registration describes its worker in every respect.
pub proof fn registered_worker(reg: RegistrationView, now_ms: u64, status: WorkerStatus)
    ensures
        is_described(reg.worker(now_ms, status), reg, now_ms),
        reg.worker(now_ms, status).status == status,
{
    crate::worker_map::storages_keep_identity(
        (WorkerView {
            worker_session_id: reg.worker_session_id,
            startup_time_ms: reg.startup_time_ms,
            software_version: reg.software_version,
            transfer_capabilities: reg.transfer_capabilities,
            component_info: reg.component_info,
            status,
            ..WorkerView::fresh(reg.address, reg.weight, now_ms)
        }),
        reg.storages,
    );
}

/// The end of the live process takes its worker out of service with the whole
/// grace; the end of a process that only recovers ends its recovery; any other
/// end changes nothing. No other worker is touched.
pub proof fn end_takes_leave(s: ManagerView, reg: RegistrationView, now_ms: u64, at_ms: u64)
    requires
        s.wf(),
    ensures
        ({
            let id = reg.address.worker_id;
            let t = s.end(reg, now_ms);
            let live = s.workers.contains_key(id) && is_sender(s.workers[id], reg);
            let recovers = !s.workers.contains_key(id) && s.recovering.contains_key(id)
                && is_recovery_of_sender(s.recovering[id], reg);
            let scheduled = s.offline.contains_key(id) && departed_together(
                s.offline[id].worker,
                s.workers[id],
            );
            &&& !live && !recovers ==> t == s
            &&& recovers ==> t == (ManagerView {
                recovering: s.recovering.insert(
                    id,
                    RecoveryView { ended: true, report_complete: false, ..s.recovering[id] },
                ),
                ..s
            })
            &&& live ==> {
                &&& t.workers == s.workers.remove(id)
                &&& t.lost == s.lost.insert(id, gone(s.workers[id]))
                &&& t.recovering.remove(id) == s.recovering.remove(id)
                &&& t.recovering.contains_key(id) && t.recovering[id].ended
                    && !t.recovering[id].report_complete && is_recovery_of_sender(
                    t.recovering[id],
                    reg,
                )
                &&& t.offline.remove(id) == s.offline.remove(id)
                &&& t.offline.contains_key(id)
                &&& scheduled ==> t.offline[id] == s.offline[id]
                &&& !scheduled ==> t.offline[id].worker == gone(s.workers[id])
                    && !t.offline[id].in_flight && t.offline[id].deadline_ms == later(
                    now_ms,
                    s.worker_lost_interval_ms,
                ) && (t.due(at_ms).contains(id) <==> at_ms >= later(
                    now_ms,
                    s.worker_lost_interval_ms,
                ))
                &&& t.deletes == s.deletes && t.retired == s.retired && t.cluster_id
                    == s.cluster_id && t.worker_lost_interval_ms == s.worker_lost_interval_ms
            }
        }),
{
    let id = reg.address.worker_id;
    let t = s.end(reg, now_ms);
    if s.workers.contains_key(id) && is_sender(s.workers[id], reg) {
        assert(t.workers =~= s.workers.remove(id));
        assert(t.lost =~= s.lost.insert(id, gone(s.workers[id])));
        assert(t.recovering.remove(id) =~= s.recovering.remove(id));
        assert(t.offline.remove(id) =~= s.offline.remove(id));
    }
}

/// A live worker whose heartbeats stopped leaves the live workers for the lost
/// ones; its cleanup is under way, without a grace. No other worker is
/// touched, and an id that is not live is left alone.
pub proof fn silence_takes_the_worker_out(s: ManagerView, id: u32)
    requires
        s.sound(),
    ensures
        ({
            let t = s.expire(id);
            &&& !s.workers.contains_key(id) ==> t == s
            &&& s.workers.contains_key(id) ==> t == (ManagerView {
                workers: s.workers.remove(id),
                lost: s.lost.insert(id, gone(s.workers[id])),
                offline: s.offline.insert(
                    id,
                    OfflineView { worker: gone(s.workers[id]), deadline_ms: 0, in_flight: true },
                ),
                ..s
            })
        }),
{
    let t = s.expire(id);
    if s.workers.contains_key(id) {
        assert(t.workers =~= s.workers.remove(id));
        assert(t.lost =~= s.lost.insert(id, gone(s.workers[id])));
        assert(t.offline =~= s.offline.insert(
            id,
            OfflineView { worker: gone(s.workers[id]), deadline_ms: 0, in_flight: true },
        ));
    }
}

/// A cleanup is due when its time has come and nobody works on it. Handing the
/// due ones out marks exactly those, and leaves everything else as it was.
pub proof fn due_cleanups_are_handed_out(s: ManagerView, now_ms: u64, k: u32)
    ensures
        s.due(now_ms).contains(k) <==> s.offline.contains_key(k) && !s.offline[k].in_flight
            && s.offline[k].deadline_ms <= now_ms,
        ({
            let t = s.dispatch(now_ms);
            &&& t == (ManagerView { offline: t.offline, ..s })
            &&& t.offline.contains_key(k) == s.offline.contains_key(k)
            &&& s.offline.contains_key(k) ==> {
                &&& t.offline[k].worker == s.offline[k].worker
                &&& t.offline[k].deadline_ms == s.offline[k].deadline_ms
                &&& t.offline[k].in_flight == (s.offline[k].in_flight || s.offline[k].deadline_ms
                    <= now_ms)
            }
        }),
{
}

/// The worker left, and its id has not come back since.
pub open spec fn is_away(s: ManagerView, w: WorkerView) -> bool {
    let id = w.address.worker_id;
    !s.workers.contains_key(id) && s.lost.contains_key(id) && departed_together(s.lost[id], w)
}

/// A cleanup that is queued again is free to be handed out under the deadline
/// that it had, or at once where none is scheduled. One whose worker came back
/// is dropped. Nothing else changes.
pub proof fn requeueing_frees_the_cleanup(s: ManagerView, w: WorkerView)
    ensures
        ({
            let id = w.address.worker_id;
            let t = s.requeue(w);
            let scheduled = s.offline.contains_key(id) && departed_together(
                s.offline[id].worker,
                w,
            );
            &&& s.is_lost(w) <==> is_away(s, w)
            &&& !is_away(s, w) ==> t == s
            &&& is_away(s, w) ==> t == (ManagerView { offline: t.offline, ..s })
                && t.offline.remove(id) == s.offline.remove(id) && t.offline.contains_key(id)
                && !t.offline[id].in_flight
            &&& is_away(s, w) && scheduled ==> t.offline[id].deadline_ms
                == s.offline[id].deadline_ms && t.offline[id].worker == s.offline[id].worker
            &&& is_away(s, w) && !scheduled ==> t.offline[id].deadline_ms == 0
                && t.offline[id].worker == w
        }),
{
    let id = w.address.worker_id;
    let t = s.requeue(w);
    if is_away(s, w) {
        assert(t.offline.remove(id) =~= s.offline.remove(id));
    }
}

/// A report of a lost worker gives it a whole grace where its departure has no
/// cleanup scheduled, and changes nothing else; for a live or unknown worker
/// it changes nothing at all.
pub proof fn late_report_gives_a_whole_grace(s: ManagerView, id: u32, now_ms: u64)
    requires
        s.wf(),
    ensures
        ({
            let t = s.ensure_cleanup(id, now_ms);
            let away = !s.workers.contains_key(id) && s.lost.contains_key(id);
            let scheduled = s.offline.contains_key(id) && departed_together(
                s.offline[id].worker,
                s.lost[id],
            );
            &&& !away || scheduled ==> t == s
            &&& away && !scheduled ==> t == (ManagerView {
                offline: s.offline.insert(
                    id,
                    OfflineView {
                        worker: s.lost[id],
                        deadline_ms: later(now_ms, s.worker_lost_interval_ms) as u64,
                        in_flight: false,
                    },
                ),
                ..s
            })
        }),
{
}

/// A cleanup that is done is not scheduled any more, if it is of the departure
/// that was cleaned up; nothing else changes.
pub proof fn finished_cleanup_is_forgotten(s: ManagerView, w: WorkerView)
    ensures
        ({
            let id = w.address.worker_id;
            let t = s.finish_cleanup(w);
            if s.offline.contains_key(id) && departed_together(s.offline[id].worker, w) {
                t == (ManagerView { offline: s.offline.remove(id), ..s })
            } else {
                t == s
            }
        }),
{
}

/// Reports are taken from the process that recovers, or else from the process
/// that is live; one without session from whoever has not ended.
pub proof fn reports_come_from_the_current_process(
    s: ManagerView,
    id: u32,
    session: Seq<char>,
)
    ensures
        s.accepts_report(id, session) <==> if s.recovering.contains_key(id) {
            !s.recovering[id].ended && (session.len() == 0 || session
                == s.recovering[id].session_id)
        } else {
            session.len() == 0 || s.workers.contains_key(id) && session
                == s.workers[id].worker_session_id
        },
        ({
            let t = s.complete_report(id, session);
            if s.recovering.contains_key(id) && !s.recovering[id].ended && (session.len() == 0
                || session == s.recovering[id].session_id) {
                t == (ManagerView {
                    recovering: s.recovering.insert(
                        id,
                        RecoveryView { report_complete: true, ..s.recovering[id] },
                    ),
                    ..s
                })
            } else {
                t == s
            }
        }),
{
}

/// A status is given to the live workers on the named hosts, and to no other;
/// it is all that changes.
pub proof fn status_is_set_by_host(
    s: ManagerView,
    hosts: Seq<Seq<char>>,
    status: WorkerStatus,
    k: u32,
)
    ensures
        ({
            let t = s.with_status_on(hosts, status);
            &&& t == (ManagerView { workers: t.workers, ..s })
            &&& t.workers.contains_key(k) == s.workers.contains_key(k)
            &&& s.workers.contains_key(k) ==> t.workers[k] == (WorkerView {
                status: if exists|i: int|
                    0 <= i < hosts.len() && #[trigger] hosts[i] == s.workers[k].address.hostname {
                    status
                } else {
                    s.workers[k].status
                },
                ..s.workers[k]
            })
        }),
        s.can_blacklist(k) <==> s.workers.contains_key(k) && s.workers[k].status
            != WorkerStatus::Blacklist,
{
}

} // verus!
