//! What the check of the workers, the compatibility check and the handling of
//! requests come to.

use vstd::prelude::*;

use crate::block_map::WorkerCommand;
use crate::compatibility::{CompatibilityCheck, CompatibilityMode, VerdictView};
use crate::error::FsError;
use crate::heartbeat_checker::HeartbeatChecker;
use crate::manager_model::{HeartbeatOutcome, ManagerView, OfflineView};
use crate::master_filesystem::FilesystemView;
use crate::master_handler::{Route, RpcCode, WorkerHeartbeatRequest};
use crate::model::{AddressView, HeartbeatStatus, WorkerStatus, WorkerView};
use crate::worker_map::RegistrationView;

verus! {

/// The worker is live and has not been heard of since it was seen.
pub open spec fn is_still(m: ManagerView, seen: WorkerView) -> bool {
    let id = seen.address.worker_id;
    m.workers.contains_key(id) && m.workers[id].address == seen.address
        && m.workers[id].worker_session_id == seen.worker_session_id
        && m.workers[id].startup_time_ms == seen.startup_time_ms && m.workers[id].last_update
        == seen.last_update
}

/// The check looks at the live workers that were silent for longer than one of
/// its intervals.
pub proof fn silent_workers_are_looked_at(
    c: HeartbeatChecker,
    m: ManagerView,
    now_ms: u64,
    k: u32,
)
    ensures
        c.candidates(m, now_ms).contains(k) <==> m.workers.contains_key(k) && (now_ms
            - m.workers[k].last_update > c.worker_blacklist_ms || now_ms - m.workers[k].last_update
            > c.worker_lost_ms),
{
}

/// A worker that was silent for longer than the longer interval leaves, to be
/// cleaned up at once; one that was silent for longer than the shorter one is
/// blacklisted; a worker that was heard of meanwhile is left alone, and so is
/// everyone else.
pub proof fn silence_has_its_consequence(
    c: HeartbeatChecker,
    m: ManagerView,
    seen: WorkerView,
    now_ms: u64,
)
    requires
        m.sound(),
    ensures
        ({
            let id = seen.address.worker_id;
            let t = c.settled(m, seen, now_ms);
            let gone = WorkerView { status: WorkerStatus::Lost, ..m.workers[id] };
            let lost = now_ms - seen.last_update > c.worker_lost_ms;
            let slow = now_ms - seen.last_update > c.worker_blacklist_ms;
            &&& !is_still(m, seen) || !lost && !slow ==> t == m
            &&& is_still(m, seen) && lost ==> t == (ManagerView {
                workers: m.workers.remove(id),
                lost: m.lost.insert(id, gone),
                offline: m.offline.insert(
                    id,
                    OfflineView { worker: gone, deadline_ms: 0, in_flight: true },
                ),
                ..m
            })
            &&& is_still(m, seen) && slow && !lost ==> t == (ManagerView {
                workers: m.workers.insert(
                    id,
                    WorkerView { status: WorkerStatus::Blacklist, ..m.workers[id] },
                ),
                ..m
            })
        }),
{
    let id = seen.address.worker_id;
    let t = c.settled(m, seen, now_ms);
    let gone = WorkerView { status: WorkerStatus::Lost, ..m.workers[id] };
    if is_still(m, seen) {
        if now_ms - seen.last_update > c.worker_lost_ms {
            assert(t.workers =~= m.workers.remove(id));
            assert(t.lost =~= m.lost.insert(id, gone));
            assert(t.offline =~= m.offline.insert(
                id,
                OfflineView { worker: gone, deadline_ms: 0, in_flight: true },
            ));
        } else if now_ms - seen.last_update > c.worker_blacklist_ms {
            assert(t.workers =~= m.workers.insert(
                id,
                WorkerView { status: WorkerStatus::Blacklist, ..m.workers[id] },
            ));
        }
    }
}

/// A worker is told in one command to delete the blocks that are queued for
/// it, each once and in increasing order; where none is queued it is told
/// nothing.
pub proof fn queued_deletions_are_told(deletes: Set<(u32, i64)>, worker_id: u32)
    ensures
        ({
            let r = crate::block_map::delete_commands(deletes, worker_id);
            &&& r.len() <= 1
            &&& r.len() == 0 <==> forall|b: i64| !#[trigger] deletes.contains((worker_id, b))
            &&& r.len() == 1 ==> {
                &&& forall|b: i64|
                    r[0].contains(b) <==> #[trigger] deletes.contains((worker_id, b))
                &&& forall|i: int, j: int| 0 <= i < j < r[0].len() ==> r[0][i] < r[0][j]
            }
        }),
{
    let queued = crate::block_map::queued_for(deletes, worker_id);
    crate::ids::in_order_lists(queued);
    let q = crate::ids::in_order(queued);
    assert forall|b: i64| q.contains(b) <==> #[trigger] deletes.contains((worker_id, b)) by {
        assert(q.to_set().contains(b) == queued.contains(b));
    }
    if forall|b: i64| !#[trigger] deletes.contains((worker_id, b)) {
        assert(queued =~= Set::empty());
    } else {
        let b = choose|b: i64| #[trigger] deletes.contains((worker_id, b));
        assert(queued.contains(b));
    }
}

/// A running heartbeat that is taken in is answered with the deletions that
/// are queued for the worker, which stay queued.
pub proof fn running_hands_out_deletions(s: ManagerView, reg: RegistrationView, now_ms: u64, b: i64)
    requires
        s.running(reg, now_ms) is Accepted,
        s.accepts_running(reg.address, reg.worker_session_id, reg.startup_time_ms),
    ensures
        ({
            let commands = s.running(reg, now_ms)->commands;
            &&& s.deletes.contains((reg.address.worker_id, b)) ==> commands.len() == 1
                && commands[0].contains(b)
            &&& commands.len() > 0 && commands[0].contains(b) ==> s.deletes.contains(
                (reg.address.worker_id, b),
            )
        }),
{
    queued_deletions_are_told(s.deletes, reg.address.worker_id);
}

/// A refusal is answered with its reason: the two clusters, the worker id, or
/// the address of the worker. What was taken in is not answered with an error.
pub proof fn refusals_tell_their_reason(
    expected: Seq<char>,
    actual: Seq<char>,
    address: AddressView,
    e: FsError,
    outcome: HeartbeatOutcome,
)
    requires
        crate::manager_model::refusal(outcome, expected, actual, address, e),
    ensures
        outcome is ClusterMismatch <==> e is ClusterMismatch,
        outcome is IdConflict <==> e is WorkerIdConflict,
        outcome is RetiredSession <==> e is RetiredSession,
        !(outcome is Accepted),
        e matches FsError::ClusterMismatch { expected: x, actual: y } ==> x@ == expected && y@
            == actual,
        e matches FsError::WorkerIdConflict { worker_id } ==> worker_id == address.worker_id,
        e matches FsError::RetiredSession { address: a } ==> a@ == address,
{
}

/// A peer is refused exactly where the policy is enforced and it is not
/// compatible.
pub proof fn only_enforced_incompatibility_refuses(v: VerdictView, mode: CompatibilityMode)
    ensures
        v.rejected(mode) <==> mode == CompatibilityMode::Enforce && v != VerdictView::Compatible,
{
}

/// The keys of workers are told from those of clients, and give the worker
/// back: the key of a worker names it by its id.
pub proof fn worker_keys_name_the_worker(worker_id: u32, key: Seq<char>)
    ensures
        crate::text::begins_with(
            crate::master_handler::worker_key(worker_id),
            crate::compatibility::worker_prefix(),
        ),
        crate::compatibility::peer_of(crate::master_handler::worker_key(worker_id))
            == crate::text::decimal(worker_id as nat),
        crate::compatibility::peer_of(crate::compatibility::worker_prefix() + key) == key,
        !crate::text::begins_with(key, crate::compatibility::worker_prefix())
            ==> crate::compatibility::peer_of(key) == key,
        crate::compatibility::worker_prefix() == seq!['w', 'o', 'r', 'k', 'e', 'r', ':'],
{
    reveal_strlit("worker:");
    let prefix = crate::compatibility::worker_prefix();
    let id = crate::text::decimal(worker_id as nat);
    assert(prefix =~= seq!['w', 'o', 'r', 'k', 'e', 'r', ':']);
    assert((prefix + id).take(prefix.len() as int) =~= prefix);
    assert((prefix + id).skip(prefix.len() as int) =~= id);
    assert((prefix + key).take(prefix.len() as int) =~= prefix);
    assert((prefix + key).skip(prefix.len() as int) =~= key);
}

/// Each kind of verdict has a label of its own, and it is one of the labels of
/// the gauges.
pub proof fn verdicts_have_their_own_labels(a: VerdictView, b: VerdictView)
    ensures
        a.label() == b.label() <==> {
            ||| a is Compatible && b is Compatible
            ||| a is MissingInfo && b is MissingInfo
            ||| a is Blocked && b is Blocked
            ||| a is ProtocolMismatch && b is ProtocolMismatch
            ||| a is VersionTooOld && b is VersionTooOld
            ||| a is VersionUnknown && b is VersionUnknown
        },
        crate::compatibility::labels().contains(a.label()),
{
    reveal_strlit("compatible");
    reveal_strlit("missing_info");
    reveal_strlit("blocked");
    reveal_strlit("protocol_mismatch");
    reveal_strlit("version_too_old");
    reveal_strlit("version_unknown");
    assert("compatible"@.len() == 10 && "missing_info"@.len() == 12 && "blocked"@.len() == 7);
    assert("protocol_mismatch"@.len() == 17);
    assert("version_too_old"@[8] == 't' && "version_unknown"@[8] == 'u');
    let l = crate::compatibility::labels();
    assert(l[0] == "compatible"@ && l[1] == "missing_info"@ && l[2] == "blocked"@ && l[3]
        == "protocol_mismatch"@ && l[4] == "version_too_old"@ && l[5] == "version_unknown"@);
}

/// A peer is warned about once for what is wrong with it: a warning is due
/// where it is let in though it is not compatible, unless the same was said of
/// it since it was last compatible. A refused peer is counted under its label
/// instead.
pub proof fn warnings_are_given_once(
    c: CompatibilityCheck,
    peer: Seq<char>,
    key: Seq<char>,
    warned: Map<Seq<char>, VerdictView>,
    mode: CompatibilityMode,
    v: VerdictView,
)
    requires
        crate::compatibility::is_record_of(c, peer, key, warned, mode, v),
    ensures
        ({
            let refused = mode == CompatibilityMode::Enforce && v != VerdictView::Compatible;
            let known = warned.contains_key(key) && warned[key] == v;
            &&& c.warning is Some <==> !refused && v != VerdictView::Compatible && !known
            &&& c.rejected_label is Some <==> refused
            &&& c.rejected_label matches Some(l) ==> l@ == v.label()
            &&& c.warning matches Some(w) ==> crate::text::begins_with(w@, peer)
        }),
{
    if c.warning is Some {
        let w = c.warning->0;
        let rest = " compatibility: "@ + v.description();
        assert(w@ =~= peer + rest);
        assert((peer + rest).take(peer.len() as int) =~= peer);
    }
}

/// Every label has a gauge of the peer, which is set exactly where the label is
/// that of what was found; the gauges of a worker are told from those of a
/// client, and are under the name of the peer.
pub proof fn gauges_are_of_the_peer(
    c: CompatibilityCheck,
    peer: Seq<char>,
    key: Seq<char>,
    warned: Map<Seq<char>, VerdictView>,
    mode: CompatibilityMode,
    v: VerdictView,
    i: int,
)
    requires
        crate::compatibility::is_record_of(c, peer, key, warned, mode, v),
        0 <= i < c.gauges@.len(),
    ensures
        ({
            let g = c.gauges@[i];
            let is_worker = key.len() >= 7 && key.take(7) == seq!['w', 'o', 'r', 'k', 'e', 'r', ':'];
            &&& c.gauges@.len() == 6
            &&& g.is_worker == is_worker
            &&& is_worker ==> g.peer@ == key.skip(7)
            &&& !is_worker ==> g.peer@ == key
            &&& g.active == 0 || g.active == 1
            &&& g.active == 1 <==> g.label@ == v.label()
            &&& forall|j: int|
                0 <= j < c.gauges@.len() && j != i ==> (#[trigger] c.gauges@[j]).label@ != g.label@
        }),
{
    worker_keys_name_the_worker(0, key);
    let l = crate::compatibility::labels();
    assert(l.len() == 6);
    reveal_strlit("compatible");
    reveal_strlit("missing_info");
    reveal_strlit("blocked");
    reveal_strlit("protocol_mismatch");
    reveal_strlit("version_too_old");
    reveal_strlit("version_unknown");
    assert("compatible"@.len() == 10 && "missing_info"@.len() == 12 && "blocked"@.len() == 7);
    assert("protocol_mismatch"@.len() == 17);
    assert("version_too_old"@[8] == 't' && "version_unknown"@[8] == 'u');
    assert("version_too_old"@.len() == 15 && "version_unknown"@.len() == 15);
    assert forall|j: int| 0 <= j < c.gauges@.len() && j != i implies (
    #[trigger] c.gauges@[j]).label@ != c.gauges@[i].label@ by {
        assert(i == 0 || i == 1 || i == 2 || i == 3 || i == 4 || i == 5);
        assert(j == 0 || j == 1 || j == 2 || j == 3 || j == 4 || j == 5);
        assert(l[i] != l[j]);
    }
}

/// After a check the verdict on a peer that was let in is on record, unless it
/// is compatible; a refused peer, and any other peer, is as before.
pub proof fn verdicts_are_remembered(
    warned: Map<Seq<char>, VerdictView>,
    key: Seq<char>,
    v: VerdictView,
    mode: CompatibilityMode,
    other: Seq<char>,
)
    ensures
        ({
            let t = crate::compatibility::warned_after(warned, key, v, mode);
            let refused = mode == CompatibilityMode::Enforce && v != VerdictView::Compatible;
            &&& refused ==> t == warned
            &&& v == VerdictView::Compatible ==> !t.contains_key(key)
            &&& !refused && v != VerdictView::Compatible ==> t.contains_key(key) && t[key] == v
            &&& other != key ==> t.contains_key(other) == warned.contains_key(other) && (
            warned.contains_key(other) ==> t[other] == warned[other])
        }),
{
}

/// A heartbeat registers the worker as it describes itself; without a weight
/// it weighs one, without a session it has the empty one, it can do only what
/// it says it can, and a time before the epoch counts as the epoch.
pub proof fn heartbeats_describe_their_worker(h: WorkerHeartbeatRequest, i: int)
    ensures
        ({
            let r = h.registration();
            &&& r.address == h.address@
            &&& h.weight matches Some(w) ==> r.weight == w
            &&& h.weight is None ==> r.weight == 1
            &&& h.worker_session_id matches Some(s) ==> r.worker_session_id == s@
            &&& h.worker_session_id is None ==> r.worker_session_id.len() == 0
            &&& h.fs_ctime >= 0 ==> r.startup_time_ms == h.fs_ctime
            &&& h.fs_ctime < 0 ==> r.startup_time_ms == 0
            &&& r.software_version == h.software_version@
            &&& r.transfer_capabilities.task_submit == (h.transfer_task_submit == Some(true))
            &&& r.transfer_capabilities.report_target == (h.transfer_report_target == Some(true))
            &&& r.transfer_capabilities.query_task == (h.transfer_query_task == Some(true))
            &&& r.transfer_capabilities.attempt_safe_output == (h.transfer_attempt_safe_output
                == Some(true))
            &&& r.transfer_capabilities.source_read_plan == (h.transfer_source_read_plan == Some(
                true,
            ))
            &&& r.storages.len() == h.storages@.len()
            &&& 0 <= i < h.storages@.len() ==> r.storages[i] == h.storages@[i]@
            &&& h.component_info is None ==> r.component_info is None
            &&& h.component_info matches Some(x) ==> r.component_info == Some(x@)
        }),
{
}

/// A running worker has to wait exactly while its own cleanup is under way and
/// it would be taken in otherwise.
pub proof fn only_running_workers_wait(
    s: FilesystemView,
    cluster_id: Seq<char>,
    reg: RegistrationView,
)
    ensures
        !s.must_wait(cluster_id, HeartbeatStatus::Start, reg),
        !s.must_wait(cluster_id, HeartbeatStatus::End, reg),
        s.must_wait(cluster_id, HeartbeatStatus::Running, reg) <==> {
            &&& cluster_id == s.manager.cluster_id
            &&& s.cleanups.contains_key(reg.address.worker_id)
            &&& s.manager.accepts_running(reg.address, reg.worker_session_id, reg.startup_time_ms)
        },
{
}

/// A heartbeat that is taken in leaves the manager as the heartbeat makes it,
/// and no inventory or cleanup of another worker is touched. The inventory of
/// the worker starts over exactly where a new process of it starts.
pub proof fn heartbeats_touch_their_worker(
    s: FilesystemView,
    status: HeartbeatStatus,
    reg: RegistrationView,
    outcome: HeartbeatOutcome,
)
    ensures
        ({
            let id = reg.address.worker_id;
            let t = s.after_heartbeat(status, reg, outcome);
            let starts = status == HeartbeatStatus::Start && !crate::heartbeat_laws::sender_is_known(
                s.manager,
                reg,
            );
            &&& !(outcome is Accepted) ==> t == s
            &&& outcome is Accepted ==> {
                &&& t.manager == outcome->state
                &&& t.conf == s.conf && t.cleanups == s.cleanups
                &&& !starts ==> t.reports == s.reports && t.reconciles == s.reconciles
                &&& starts ==> {
                    &&& t.reports == s.reports.remove(id)
                    &&& t.reconciles.remove(id) == s.reconciles.remove(id)
                    &&& t.reconciles.contains_key(id) ==> t.reconciles[id].running
                        && t.reconciles[id].pending is None
                }
            }
        }),
{
    let id = reg.address.worker_id;
    let t = s.after_heartbeat(status, reg, outcome);
    assert(t.reconciles.remove(id) =~= s.reconciles.remove(id));
}

/// A heartbeat is answered that it has to wait and changes nothing, or as the
/// manager decides; the answer to one that is taken in are the commands that
/// the manager has for the worker.
pub proof fn heartbeats_are_answered_as_decided(
    s: FilesystemView,
    header: WorkerHeartbeatRequest,
    now_ms: u64,
    r: Result<Vec<WorkerCommand>, FsError>,
)
    requires
        crate::master_handler::is_heartbeat_result(r, s, header, now_ms),
    ensures
        ({
            let reg = header.registration();
            let waits = s.must_wait(header.cluster_id@, header.status, reg);
            let outcome = s.manager.heartbeat(header.cluster_id@, header.status, reg, now_ms);
            &&& waits ==> (r matches Err(FsError::CleanupPending { address }) && address@
                == header.address@)
            &&& waits ==> crate::master_handler::state_after_heartbeat(s, header, now_ms) == s
            &&& !waits ==> (r is Ok <==> outcome is Accepted)
            &&& !waits && !(outcome is Accepted) ==> crate::master_handler::state_after_heartbeat(
                s,
                header,
                now_ms,
            ) == s
            &&& !waits && outcome is Accepted ==> {
                &&& (r->Ok_0)@.len() == outcome->commands.len()
                &&& forall|i: int|
                    0 <= i < outcome->commands.len() ==> (#[trigger] (r->Ok_0)@[i] matches
                        WorkerCommand::DeleteBlock { blocks } && blocks@ == outcome->commands[i])
                &&& crate::master_handler::state_after_heartbeat(s, header, now_ms).manager
                    == outcome->state
            }
        }),
{
    let reg = header.registration();
    let outcome = s.manager.heartbeat(header.cluster_id@, header.status, reg, now_ms);
    if !s.must_wait(header.cluster_id@, header.status, reg) && r is Ok {
        let c = (r->Ok_0)@;
        let told = crate::block_map::commands_of(c);
        assert forall|i: int| 0 <= i < told.len() implies (#[trigger] c[i] matches
            WorkerCommand::DeleteBlock { blocks } && blocks@ == told[i]) by {
            match c[i] {
                WorkerCommand::DeleteBlock { blocks } => {
                    assert(told[i] == blocks@);
                },
            }
        }
    }
}

/// The requests about jobs, about the whole filesystem and for pages of
/// metadata are the ones that are answered later; all others at once.
pub proof fn requests_are_sorted(code: RpcCode, has_replication: bool)
    ensures
        code.is_async() <==> {
            ||| code == RpcCode::SubmitJob
            ||| code == RpcCode::GetJobStatus
            ||| code == RpcCode::CancelJob
            ||| code == RpcCode::ReportTask
            ||| code == RpcCode::GetFilesystemInfo
            ||| code == RpcCode::GetCvMetadataSnapshotPage
            ||| code == RpcCode::GetCvMetadataDeltaPage
        },
        crate::master_handler::sync_route(code, false, has_replication) == Route::NotLeader,
        crate::master_handler::async_route(code, false) == Route::NotLeader,
        crate::master_handler::async_route(code, true) == if code.is_async() {
            Route::Serve
        } else {
            Route::Unsupported
        },
        crate::master_handler::sync_route(code, true, has_replication) is Replication <==> code
            == RpcCode::ReportBlockReplicationResult && has_replication,
        crate::master_handler::sync_route(code, true, has_replication) is ReplicationMissing <==> code
            == RpcCode::ReportBlockReplicationResult && !has_replication,
        crate::master_handler::sync_route(code, true, has_replication) is Unsupported <==> code
            == RpcCode::Undefined || code.is_async(),
{
}

/// A request that was seen before is answered as it was then; one that was
/// not, is new.
pub proof fn repeated_requests_are_recognized(cached: Option<Result<bool, FsError>>)
    ensures
        cached matches Some(r) ==> crate::master_handler::seen_before(cached) == r,
        cached is None ==> crate::master_handler::seen_before(cached) == Ok::<bool, FsError>(false),
{
}

/// An address is written as its host, a colon and its port, and the worker it
/// belongs to by its id before that.
pub proof fn addresses_are_written(a: AddressView)
    ensures
        a.text() == a.hostname + seq![':'] + crate::text::decimal(a.rpc_port as nat),
        a.simple_text() == crate::text::decimal(a.worker_id as nat) + seq![','] + a.hostname
            + seq![':'] + crate::text::decimal(a.rpc_port as nat),
{
    reveal_strlit(":");
    reveal_strlit(",");
    assert(":"@ =~= seq![':']);
    assert(","@ =~= seq![',']);
    assert(a.simple_text() =~= crate::text::decimal(a.worker_id as nat) + seq![','] + a.hostname
        + seq![':'] + crate::text::decimal(a.rpc_port as nat));
}

} // verus!
