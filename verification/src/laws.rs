//! The guarantees of the lifecycle surface, proved once and for all over
//! the spec-level transitions that the handlers' contracts quote.

use vstd::prelude::*;

use crate::container::{Container, ContainerView, SetExitOutcome};
use crate::errors::ShimError;
use crate::process::{ExitInfo, ProcessStatus, StateSnapshot, Timestamp};
use crate::task::{CreateEffect, ExitDispatch, ShimTask, TaskView, WaitOutcome};

verus! {

/// A container id never seen before can be created, and a state request
/// right after reports a `Created` init process under the positive pid
/// the engine gave.  A second create under the same id is refused, so of
/// two racing creates the one serialized later observes `AlreadyExists`.
pub proof fn law_create_then_state(
    v: TaskView,
    id: Seq<char>,
    bundle: Seq<char>,
    pid: i32,
    private_pid_ns: bool,
    sandbox_id: Seq<char>,
    sandbox_pid: i32,
)
    requires
        !v.containers.contains_key(id),
        pid > 0,
    ensures
        ({
            let (v2, r) = ShimTask::spec_create(v, id, bundle, pid, private_pid_ns, sandbox_id,
                sandbox_pid);
            &&& r == Ok::<CreateEffect, ShimError>(CreateEffect {
                pid,
                start_reaper: v.containers == Map::<Seq<char>, ContainerView>::empty()
                    && !v.reaper_started,
            })
            &&& ShimTask::spec_state(v2, id, None) == Ok::<StateSnapshot, ShimError>(
                StateSnapshot {
                    pid,
                    status: ProcessStatus::Created,
                    exit_status: None,
                    exited_at: None,
                },
            )
            &&& ShimTask::spec_state(v2, id, None)->Ok_0.pid > 0
            &&& ShimTask::spec_create(v2, id, bundle, pid, private_pid_ns, sandbox_id,
                sandbox_pid).1 == Err::<CreateEffect, ShimError>(ShimError::AlreadyExists)
        }),
{
}

/// The exit reaper is started exactly once over the shim's lifetime: the
/// create that inserts the root container asks for it, and no later
/// create ever asks again — even after the registry drains to empty.
pub proof fn law_reaper_started_once(
    v: TaskView,
    id1: Seq<char>,
    bundle1: Seq<char>,
    pid1: i32,
    pns1: bool,
    sid1: Seq<char>,
    spid1: i32,
    v2: TaskView,
    id2: Seq<char>,
    bundle2: Seq<char>,
    pid2: i32,
    pns2: bool,
    sid2: Seq<char>,
    spid2: i32,
)
    requires
        ShimTask::spec_create(v, id1, bundle1, pid1, pns1, sid1, spid1).1 matches Ok(e)
            && e.start_reaper,
        v2.reaper_started == ShimTask::spec_create(
            v,
            id1,
            bundle1,
            pid1,
            pns1,
            sid1,
            spid1,
        ).0.reaper_started,
    ensures
        ShimTask::spec_create(v, id1, bundle1, pid1, pns1, sid1, spid1).0.reaper_started,
        ShimTask::spec_create(v2, id2, bundle2, pid2, pns2, sid2, spid2).1 matches Ok(e2)
            ==> !e2.start_reaper,
{
}

/// Once an exit event marks a process, a wait reports exactly the status
/// and timestamp the event carried — and keeps reporting the same triple
/// on every further read.
pub proof fn law_exit_then_wait(
    v: TaskView,
    cid: Seq<char>,
    eid: Option<Seq<char>>,
    status: u32,
    at: Timestamp,
)
    requires
        v.containers.contains_key(cid),
        Container::spec_target(v.containers[cid], eid) matches Ok(p) && !(p.status is Stopped),
    ensures
        ({
            let (v2, d) = ShimTask::spec_exit(v, cid, eid, status, at);
            let p = Container::spec_target(v.containers[cid], eid)->Ok_0;
            let info = ExitInfo {
                pid: p.pid,
                exit_status: Some(status),
                exited_at: Some(at),
            };
            &&& d == ExitDispatch::Process(SetExitOutcome::Marked)
            &&& ShimTask::spec_wait(v2, cid, eid) == Ok::<WaitOutcome, ShimError>(
                WaitOutcome::Ready(info),
            )
            &&& ShimTask::spec_get_exit_info(v2, cid, eid) == Ok::<ExitInfo, ShimError>(info)
        }),
{
}

/// Deleting a container with no exec id removes it from the registry: a
/// state request for it afterwards reports `NotFound`, whatever process
/// it names.
pub proof fn law_delete_then_state(v: TaskView, id: Seq<char>)
    requires
        v.containers.contains_key(id),
    ensures
        ShimTask::spec_delete(v, id, None).1 == Ok::<ExitInfo, ShimError>(
            v.containers[id].init.spec_exit_info(),
        ),
        forall|eid: Option<Seq<char>>|
            ShimTask::spec_state(ShimTask::spec_delete(v, id, None).0, id, eid) == Err::<
                StateSnapshot,
                ShimError,
            >(ShimError::NotFound),
{
}

/// Deleting a named exec process is refused with `StateConflict` while
/// the process has not exited; once its exit event has been dispatched,
/// the delete reports exactly the recorded triple and removes the process
/// from the container's table.  Of two racing deletes of the same exec
/// process, the one serialized later observes `NotFound`.
pub proof fn law_delete_exec(
    v: TaskView,
    cid: Seq<char>,
    k: Seq<char>,
    status: u32,
    at: Timestamp,
)
    requires
        v.containers.contains_key(cid),
        v.containers[cid].execs.contains_key(k),
        !(v.containers[cid].execs[k].status is Stopped),
    ensures
        ShimTask::spec_delete(v, cid, Some(k)) == (v, Err::<ExitInfo, ShimError>(
            ShimError::StateConflict,
        )),
        ({
            let v2 = ShimTask::spec_exit(v, cid, Some(k), status, at).0;
            let (v3, r) = ShimTask::spec_delete(v2, cid, Some(k));
            &&& r == Ok::<ExitInfo, ShimError>(ExitInfo {
                pid: v.containers[cid].execs[k].pid,
                exit_status: Some(status),
                exited_at: Some(at),
            })
            &&& !v3.containers[cid].execs.contains_key(k)
            &&& v3.containers.contains_key(cid)
            &&& ShimTask::spec_delete(v3, cid, Some(k)).1 == Err::<ExitInfo, ShimError>(
                ShimError::NotFound,
            )
        }),
{
    assert(v.containers.insert(cid, v.containers[cid]) =~= v.containers);
    let v2 = ShimTask::spec_exit(v, cid, Some(k), status, at).0;
    assert(v2.containers[cid].execs =~= v.containers[cid].execs.insert(
        k,
        v.containers[cid].execs[k].spec_exited(status, at),
    ));
}

/// A subtree-wide kill of a container without a private PID namespace
/// targets every registered process: the init process and every exec
/// process of the container.
pub proof fn law_kill_all_covers(t: ShimTask, id: Seq<char>, signal: u32)
    requires
        t.wf(),
        crate::task::cmap(t.containers@).contains_key(id),
        !t.containers@[crate::task::find_id(t.containers@, id)].private_pid_ns,
    ensures
        ({
            let c = t.containers@[crate::task::find_id(t.containers@, id)];
            let r = t.spec_kill(id, None, signal, true);
            &&& r matches Ok(p)
            &&& r->Ok_0.0 == signal
            &&& r->Ok_0.1.contains(c.init.pid)
            &&& forall|j: int|
                0 <= j < c.execs@.len() ==> r->Ok_0.1.contains(
                    (#[trigger] c.execs@[j]).proc.pid,
                )
        }),
{
    let c = t.containers@[crate::task::find_id(t.containers@, id)];
    let pids = t.spec_kill(id, None, signal, true)->Ok_0.1;
    assert(pids[0] == c.init.pid);
    assert forall|j: int| 0 <= j < c.execs@.len() implies pids.contains(
        (#[trigger] c.execs@[j]).proc.pid,
    ) by {
        assert(pids[j + 1] == c.execs@[j].proc.pid);
    }
}

/// A shutdown with a non-empty registry succeeds without signaling
/// termination and changes nothing; once the registry is empty, repeated
/// shutdowns signal termination exactly once.
pub proof fn law_shutdown_once(v: TaskView)
    ensures
        v.containers != Map::<Seq<char>, ContainerView>::empty() ==> ShimTask::spec_shutdown(v)
            == (v, false),
        ({
            let (v1, s1) = ShimTask::spec_shutdown(v);
            let (v2, s2) = ShimTask::spec_shutdown(v1);
            &&& (v.containers == Map::<Seq<char>, ContainerView>::empty() && !v.exit_signaled
                ==> s1 == true)
            &&& (v.exit_signaled ==> s1 == false)
            &&& s2 == false
        }),
{
}

/// One lifecycle operation, as the spec-level transitions see it.
pub enum TaskOp {
    Create {
        id: Seq<char>,
        bundle: Seq<char>,
        pid: i32,
        private_pid_ns: bool,
        sandbox_id: Seq<char>,
        sandbox_pid: i32,
    },
    Start { id: Seq<char>, eid: Option<Seq<char>>, pid: i32 },
    Exec { id: Seq<char>, eid: Seq<char> },
    Delete { id: Seq<char>, eid: Option<Seq<char>> },
    Exit { cid: Seq<char>, eid: Option<Seq<char>>, status: u32, at: Timestamp },
    Shutdown,
}

/// The state after one lifecycle operation.
pub open spec fn apply(v: TaskView, op: TaskOp) -> TaskView {
    match op {
        TaskOp::Create { id, bundle, pid, private_pid_ns, sandbox_id, sandbox_pid } =>
            ShimTask::spec_create(v, id, bundle, pid, private_pid_ns, sandbox_id, sandbox_pid).0,
        TaskOp::Start { id, eid, pid } => ShimTask::spec_start(v, id, eid, pid).0,
        TaskOp::Exec { id, eid } => ShimTask::spec_exec(v, id, eid).0,
        TaskOp::Delete { id, eid } => ShimTask::spec_delete(v, id, eid).0,
        TaskOp::Exit { cid, eid, status, at } => ShimTask::spec_exit(v, cid, eid, status, at).0,
        TaskOp::Shutdown => ShimTask::spec_shutdown(v).0,
    }
}

/// Whether the operation deletes the named process itself: the whole
/// container, or exactly that exec process.
pub open spec fn removes_target(op: TaskOp, cid: Seq<char>, eid: Option<Seq<char>>) -> bool {
    ||| op matches TaskOp::Delete { id, eid: None } && id == cid
    ||| op matches TaskOp::Delete { id, eid: Some(k) } && id == cid && eid == Some(k)
}

/// The reaper-started flag is monotone: no lifecycle operation ever
/// clears it.  Together with [`law_reaper_started_once`] this pins the
/// exit reaper to exactly one start over the shim's lifetime.
pub proof fn law_reaper_flag_monotone(v: TaskView, op: TaskOp)
    requires
        v.reaper_started,
    ensures
        apply(v, op).reaper_started,
{
}

/// Once a process has stopped, its recorded exit triple never changes:
/// whatever lifecycle operation runs next — short of deleting the process
/// itself — every wait re-reads the identical triple.  All concurrent
/// waiters therefore unblock with the same value.
pub proof fn law_exit_info_stable(
    v: TaskView,
    op: TaskOp,
    cid: Seq<char>,
    eid: Option<Seq<char>>,
)
    requires
        v.containers.contains_key(cid),
        Container::spec_target(v.containers[cid], eid) matches Ok(p) && p.status is Stopped,
        !removes_target(op, cid, eid),
    ensures
        ShimTask::spec_get_exit_info(apply(v, op), cid, eid) == ShimTask::spec_get_exit_info(
            v,
            cid,
            eid,
        ),
{
}

/// An exit event for an unknown container or exec id leaves the whole
/// state untouched, and a valid event dispatched right after it lands
/// exactly as it would have without the bogus one: the reaper drops bad
/// events and keeps delivering.
pub proof fn law_exit_unknown_is_dropped(
    v: TaskView,
    bogus_cid: Seq<char>,
    bogus_eid: Option<Seq<char>>,
    cid: Seq<char>,
    eid: Option<Seq<char>>,
    status: u32,
    at: Timestamp,
)
    requires
        !v.containers.contains_key(bogus_cid),
    ensures
        ShimTask::spec_exit(v, bogus_cid, bogus_eid, status, at) == (v,
        ExitDispatch::UnknownContainer),
        ShimTask::spec_exit(
            ShimTask::spec_exit(v, bogus_cid, bogus_eid, status, at).0,
            cid,
            eid,
            status,
            at,
        ) == ShimTask::spec_exit(v, cid, eid, status, at),
{
}

/// An exit event naming a known container but an unknown exec id is
/// dropped just the same: the state does not change.
pub proof fn law_exit_unknown_exec_is_dropped(
    v: TaskView,
    cid: Seq<char>,
    k: Seq<char>,
    status: u32,
    at: Timestamp,
)
    requires
        v.containers.contains_key(cid),
        !v.containers[cid].execs.contains_key(k),
    ensures
        ShimTask::spec_exit(v, cid, Some(k), status, at).1 == ExitDispatch::Process(
            SetExitOutcome::UnknownProcess,
        ),
        ShimTask::spec_exit(v, cid, Some(k), status, at).0.containers =~= v.containers,
{
    assert(v.containers.insert(cid, v.containers[cid]) =~= v.containers);
}

} // verus!
