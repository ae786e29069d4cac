//! The container registry and the lifecycle request surface.
//!
//! A `ShimTask` owns the registry — a table of containers with
//! pairwise-distinct ids, modelled as the map built by [`cmap`] — together
//! with the sandbox handle's identity, the reaper-started flag and the
//! shutdown signal.  Each request handler is specified against a
//! spec-level transition on [`TaskView`]; the handlers never perform
//! engine work themselves, they validate, mutate the registry, and hand
//! the caller the plain values (pids, signal plans, exit triples) that the
//! engine call needs.

use vstd::prelude::*;

use crate::container::{exec_pids, id_view, Container, ContainerView, KillPlan, SetExitOutcome};
use crate::errors::ShimError;
use crate::process::{ExitInfo, Process, ProcessStatus, StateSnapshot, Timestamp};

verus! {

/// The map that the registry's container table stands for.
pub open spec fn cmap(s: Seq<Container>) -> Map<Seq<char>, ContainerView>
    decreases s.len(),
{
    if s.len() == 0 {
        Map::<Seq<char>, ContainerView>::empty()
    } else {
        cmap(s.drop_last()).insert(s.last().id@, s.last()@)
    }
}

/// No two containers carry the same id.
pub open spec fn container_ids_distinct(s: Seq<Container>) -> bool {
    forall|i: int, j: int| 0 <= i < j < s.len() ==> s[i].id@ != s[j].id@
}

/// A key is in the registry's map exactly when some container carries it.
pub proof fn lemma_cmap_domain(s: Seq<Container>)
    ensures
        forall|k: Seq<char>|
            #[trigger] cmap(s).contains_key(k) <==> exists|i: int|
                0 <= i < s.len() && #[trigger] s[i].id@ == k,
    decreases s.len(),
{
    if s.len() > 0 {
        lemma_cmap_domain(s.drop_last());
        assert forall|k: Seq<char>| #[trigger] cmap(s).contains_key(k) implies exists|i: int|
            0 <= i < s.len() && #[trigger] s[i].id@ == k by {
            if k == s.last().id@ {
                assert(s[s.len() - 1].id@ == k);
            } else {
                assert(cmap(s.drop_last()).contains_key(k));
                let i = choose|i: int|
                    0 <= i < s.drop_last().len() && #[trigger] s.drop_last()[i].id@ == k;
                assert(s.drop_last()[i] == s[i]);
                assert(s[i].id@ == k);
            }
        }
        assert forall|k: Seq<char>|
            (exists|i: int| 0 <= i < s.len() && #[trigger] s[i].id@ == k) implies #[trigger] cmap(
            s,
        ).contains_key(k) by {
            let i = choose|i: int| 0 <= i < s.len() && #[trigger] s[i].id@ == k;
            if i < s.len() - 1 {
                assert(s.drop_last()[i] == s[i]);
                assert(s.drop_last()[i].id@ == k);
                assert(cmap(s.drop_last()).contains_key(k));
            }
        }
    }
}

/// Under distinct ids, the container at index `i` is the map's value at
/// its id.
pub proof fn lemma_cmap_index(s: Seq<Container>, i: int)
    requires
        container_ids_distinct(s),
        0 <= i < s.len(),
    ensures
        cmap(s).contains_key(s[i].id@),
        cmap(s)[s[i].id@] == s[i]@,
    decreases s.len(),
{
    if i < s.len() - 1 {
        assert(s.drop_last()[i] == s[i]);
        lemma_cmap_index(s.drop_last(), i);
        assert(s[i].id@ != s.last().id@);
    }
}

/// Appending a container inserts its binding.
pub proof fn lemma_cmap_push(s: Seq<Container>, c: Container)
    ensures
        cmap(s.push(c)) == cmap(s).insert(c.id@, c@),
{
    assert(s.push(c).drop_last() =~= s);
    assert(s.push(c).last() == c);
}

/// Removing the container at `i` removes its binding.
pub proof fn lemma_cmap_remove(s: Seq<Container>, i: int)
    requires
        container_ids_distinct(s),
        0 <= i < s.len(),
    ensures
        cmap(s.remove(i)) =~= cmap(s).remove(s[i].id@),
    decreases s.len(),
{
    lemma_cmap_domain(s.drop_last());
    if i == s.len() - 1 {
        assert(s.remove(i) =~= s.drop_last());
        assert(!cmap(s.drop_last()).contains_key(s.last().id@));
    } else {
        assert(s.remove(i).drop_last() =~= s.drop_last().remove(i));
        assert(s.remove(i).last() == s.last());
        assert(s.drop_last()[i] == s[i]);
        lemma_cmap_remove(s.drop_last(), i);
        assert(s[i].id@ != s.last().id@);
    }
}

/// Replacing the container at `i` by one with the same id updates its
/// binding, and keeps the registry well formed.
pub proof fn lemma_cmap_update(s: Seq<Container>, s2: Seq<Container>, i: int)
    requires
        container_ids_distinct(s),
        0 <= i < s.len(),
        s2 =~= s.update(i, s2[i]),
        s2[i].id@ == s[i].id@,
    ensures
        container_ids_distinct(s2),
        cmap(s2) =~= cmap(s).insert(s[i].id@, s2[i]@),
    decreases s.len(),
{
    assert forall|a: int, b: int| 0 <= a < b < s2.len() implies s2[a].id@ != s2[b].id@ by {
        assert(s2[a].id@ == s[a].id@);
        assert(s2[b].id@ == s[b].id@);
    }
    if i == s.len() - 1 {
        assert(s2.drop_last() =~= s.drop_last());
        assert(s2.last() == s2[i]);
    } else {
        let t = s.drop_last().update(i, s2[i]);
        assert(s2.drop_last() =~= t);
        assert(t[i] == s2[i]);
        assert(t =~= s.drop_last().update(i, t[i]));
        assert(s2.last() == s.last());
        assert(s.drop_last()[i] == s[i]);
        lemma_cmap_update(s.drop_last(), t, i);
        assert(s[i].id@ != s.last().id@);
    }
}

/// A non-empty registry's map contains the first container's id.
pub proof fn lemma_cmap_nonempty(s: Seq<Container>)
    requires
        s.len() > 0,
    ensures
        cmap(s).contains_key(s[0].id@),
        cmap(s) != Map::<Seq<char>, ContainerView>::empty(),
{
    lemma_cmap_domain(s);
    assert(s[0].id@ == s[0].id@);
    assert(!Map::<Seq<char>, ContainerView>::empty().contains_key(s[0].id@));
}

/// The index of the container carrying `id`; under distinct ids there is
/// at most one.
pub open spec fn find_id(s: Seq<Container>, id: Seq<char>) -> int {
    choose|i: int| 0 <= i < s.len() && s[i].id@ == id
}

/// Under distinct ids, `find_id` names exactly the index that carries the
/// id.
pub proof fn lemma_find_id(s: Seq<Container>, i: int)
    requires
        container_ids_distinct(s),
        0 <= i < s.len(),
    ensures
        find_id(s, s[i].id@) == i,
{
    let id = s[i].id@;
    assert(0 <= i < s.len() && s[i].id@ == id);
    let j = find_id(s, id);
    assert(0 <= j < s.len() && s[j].id@ == id);
    if i < j {
        assert(s[i].id@ != s[j].id@);
    } else if j < i {
        assert(s[j].id@ != s[i].id@);
    }
}

/// The process-wide handle onto the sandbox instance hosting every
/// container: its identity and its root pid.  It starts out empty and is
/// populated once, on creation of the root container.
pub struct SandboxHandle {
    pub id: String,
    pub pid: i32,
}

/// The mathematical model of the whole shim state.
pub struct TaskView {
    pub containers: Map<Seq<char>, ContainerView>,
    pub namespace: Seq<char>,
    pub sandbox_id: Seq<char>,
    pub sandbox_pid: i32,
    pub reaper_started: bool,
    pub exit_signaled: bool,
}

/// What a successful create reports: the init pid, and whether this was
/// the root container, so that the caller must now start the exit reaper
/// and has recorded the sandbox identity.
#[derive(Clone, Copy, Debug, PartialEq, Eq, Structural)]
pub struct CreateEffect {
    pub pid: i32,
    pub start_reaper: bool,
}

/// What a wait request finds under the lock: either the process has
/// already exited and the triple is ready, or the caller must release the
/// lock and block on the process's exit latch.
#[derive(Clone, Copy, Debug, PartialEq, Eq)]
pub enum WaitOutcome {
    Ready(ExitInfo),
    Pending,
}

/// How the reaper's dispatch of one exit event fared.
#[derive(Clone, Copy, Debug, PartialEq, Eq, Structural)]
pub enum ExitDispatch {
    /// No container carries the event's container id; the event is
    /// dropped and the reaper carries on.
    UnknownContainer,
    /// The container was found; how the targeted process fared.
    Process(SetExitOutcome),
}

/// Structured resource limits, as an update request hands them to the
/// engine after the transport has decoded them.
#[derive(Clone, Copy, Debug, PartialEq, Default)]
pub struct LinuxResources {
    pub cpu_shares: Option<u64>,
    pub cpu_quota: Option<i64>,
    pub cpu_period: Option<u64>,
    pub memory_limit: Option<i64>,
    pub pids_limit: Option<i64>,
}

/// The shim state: the registry of containers, the namespace the shim
/// serves, the sandbox handle, and the two once-flags (reaper started,
/// termination signaled).
pub struct ShimTask {
    pub containers: Vec<Container>,
    pub namespace: String,
    pub sandbox: SandboxHandle,
    pub reaper_started: bool,
    pub exit_signaled: bool,
}

impl View for ShimTask {
    type V = TaskView;

    open spec fn view(&self) -> TaskView {
        TaskView {
            containers: cmap(self.containers@),
            namespace: self.namespace@,
            sandbox_id: self.sandbox.id@,
            sandbox_pid: self.sandbox.pid,
            reaper_started: self.reaper_started,
            exit_signaled: self.exit_signaled,
        }
    }
}

impl ShimTask {
    /// Distinct container ids, and every container well formed.
    pub open spec fn wf(self) -> bool {
        &&& container_ids_distinct(self.containers@)
        &&& forall|i: int| 0 <= i < self.containers@.len() ==> (#[trigger] self.containers@[i]).wf()
    }

    /// Index of the container carrying `id`, if any.
    fn find_container(&self, id: &String) -> (r: Option<usize>)
        requires
            container_ids_distinct(self.containers@),
        ensures
            match r {
                Some(i) => i < self.containers@.len() && self.containers@[i as int].id@ == id@
                    && self@.containers.contains_key(id@),
                None => !self@.containers.contains_key(id@),
            },
    {
        proof {
            lemma_cmap_domain(self.containers@);
        }
        let n = self.containers.len();
        for i in 0..n
            invariant
                n == self.containers@.len(),
                forall|j: int| 0 <= j < i ==> (#[trigger] self.containers@[j]).id@ != id@,
        {
            if self.containers[i].id.eq(id) {
                proof {
                    lemma_cmap_domain(self.containers@);
                    assert(exists|j: int|
                        0 <= j < self.containers@.len() && #[trigger] self.containers@[j].id@
                            == id@) by {
                        assert(self.containers@[i as int].id@ == id@);
                    }
                }
                return Some(i);
            }
        }
        None
    }

    /// A fresh shim state for the given namespace: empty registry, empty
    /// sandbox handle, nothing started, nothing signaled.
    #[allow(non_snake_case)]
    pub fn New(ns: &str) -> (r: ShimTask)
        ensures
            r@ == (TaskView {
                containers: Map::<Seq<char>, ContainerView>::empty(),
                namespace: ns@,
                sandbox_id: Seq::<char>::empty(),
                sandbox_pid: 0,
                reaper_started: false,
                exit_signaled: false,
            }),
            r.wf(),
    {
        let t = ShimTask {
            containers: Vec::new(),
            namespace: ns.to_owned(),
            sandbox: SandboxHandle { id: String::new(), pid: 0 },
            reaper_started: false,
            exit_signaled: false,
        };
        proof {
            assert(cmap(t.containers@) =~= Map::<Seq<char>, ContainerView>::empty());
        }
        t
    }

    /// The state and the answer after a create request.  A duplicate id is
    /// refused, and the previous container is kept untouched.  On the very
    /// first insert the sandbox handle records this container's identity
    /// and the caller is told to start the exit reaper, exactly once over
    /// the shim's lifetime.
    pub open spec fn spec_create(
        v: TaskView,
        id: Seq<char>,
        bundle: Seq<char>,
        pid: i32,
        private_pid_ns: bool,
        sandbox_id: Seq<char>,
        sandbox_pid: i32,
    ) -> (TaskView, Result<CreateEffect, ShimError>) {
        if v.containers.contains_key(id) {
            (v, Err(ShimError::AlreadyExists))
        } else {
            let root = v.containers == Map::<Seq<char>, ContainerView>::empty()
                && !v.reaper_started;
            let cv = ContainerView {
                bundle,
                init: Process::spec_new(pid),
                execs: Map::<Seq<char>, Process>::empty(),
                private_pid_ns,
            };
            let v2 = TaskView {
                containers: v.containers.insert(id, cv),
                sandbox_id: if root {
                    sandbox_id
                } else {
                    v.sandbox_id
                },
                sandbox_pid: if root {
                    sandbox_pid
                } else {
                    v.sandbox_pid
                },
                reaper_started: v.reaper_started || root,
                ..v
            };
            (v2, Ok(CreateEffect { pid, start_reaper: root }))
        }
    }

    /// Insert a freshly created container.  The engine has already built
    /// it and reported the init pid; the handler records it, and on the
    /// root insert also the sandbox identity and the duty to start the
    /// reaper.
    pub fn create(
        &mut self,
        id: String,
        bundle: String,
        pid: i32,
        private_pid_ns: bool,
        sandbox_id: String,
        sandbox_pid: i32,
    ) -> (r: Result<CreateEffect, ShimError>)
        requires
            old(self).wf(),
            pid > 0,
        ensures
            final(self).wf(),
            final(self)@ == ShimTask::spec_create(
                old(self)@,
                id@,
                bundle@,
                pid,
                private_pid_ns,
                sandbox_id@,
                sandbox_pid,
            ).0,
            r == ShimTask::spec_create(
                old(self)@,
                id@,
                bundle@,
                pid,
                private_pid_ns,
                sandbox_id@,
                sandbox_pid,
            ).1,
    {
        match self.find_container(&id) {
            Some(_) => Err(ShimError::AlreadyExists),
            None => {
                proof {
                    if self.containers@.len() == 0 {
                        assert(cmap(self.containers@) =~= Map::<Seq<char>, ContainerView>::empty());
                    } else {
                        lemma_cmap_nonempty(self.containers@);
                    }
                }
                let root = self.containers.is_empty() && !self.reaper_started;
                if root {
                    self.sandbox = SandboxHandle { id: sandbox_id, pid: sandbox_pid };
                    self.reaper_started = true;
                }
                proof {
                    lemma_cmap_domain(self.containers@);
                    assert forall|j: int|
                        0 <= j < self.containers@.len() implies (#[trigger] self.containers@[j]).id@
                        != id@ by {
                        if self.containers@[j].id@ == id@ {
                            assert(cmap(self.containers@).contains_key(id@));
                        }
                    }
                }
                let c = Container::new(id, bundle, pid, private_pid_ns);
                proof {
                    lemma_cmap_push(self.containers@, c);
                }
                self.containers.push(c);
                Ok(CreateEffect { pid, start_reaper: root })
            },
        }
    }

    /// What a state request reports: the snapshot of the targeted process
    /// of the named container.
    pub open spec fn spec_state(v: TaskView, id: Seq<char>, eid: Option<Seq<char>>) -> Result<
        StateSnapshot,
        ShimError,
    > {
        if !v.containers.contains_key(id) {
            Err(ShimError::NotFound)
        } else {
            Container::spec_state(v.containers[id], eid)
        }
    }

    /// Read-only snapshot of a process.
    pub fn state(&self, id: &String, exec_id: Option<&String>) -> (r: Result<
        StateSnapshot,
        ShimError,
    >)
        requires
            self.wf(),
        ensures
            r == ShimTask::spec_state(self@, id@, id_view(exec_id)),
    {
        match self.find_container(id) {
            None => Err(ShimError::NotFound),
            Some(i) => {
                proof {
                    lemma_cmap_index(self.containers@, i as int);
                }
                self.containers[i].state(exec_id)
            },
        }
    }

    /// The state and the answer after a start request.
    pub open spec fn spec_start(
        v: TaskView,
        id: Seq<char>,
        eid: Option<Seq<char>>,
        pid: i32,
    ) -> (TaskView, Result<i32, ShimError>) {
        if !v.containers.contains_key(id) {
            (v, Err(ShimError::NotFound))
        } else {
            let (cv2, r) = Container::spec_start(v.containers[id], eid, pid);
            (TaskView { containers: v.containers.insert(id, cv2), ..v }, r)
        }
    }

    /// Commit a start: the engine has launched the targeted process and
    /// reported its pid.
    pub fn start(&mut self, id: &String, exec_id: Option<&String>, pid: i32) -> (r: Result<
        i32,
        ShimError,
    >)
        requires
            old(self).wf(),
            pid > 0,
        ensures
            final(self).wf(),
            final(self)@ == ShimTask::spec_start(old(self)@, id@, id_view(exec_id), pid).0,
            r == ShimTask::spec_start(old(self)@, id@, id_view(exec_id), pid).1,
    {
        match self.find_container(id) {
            None => Err(ShimError::NotFound),
            Some(i) => {
                proof {
                    lemma_cmap_index(self.containers@, i as int);
                }
                let c = &mut self.containers[i];
                let r = c.start(exec_id, pid);
                proof {
                    self.lemma_after_update(*old(self), i as int);
                }
                r
            },
        }
    }

    /// The state and the answer after a delete request.  With no exec id
    /// the whole container leaves the registry and its init triple is
    /// reported; with one, only that exec process is removed, once exited.
    pub open spec fn spec_delete(v: TaskView, id: Seq<char>, eid: Option<Seq<char>>) -> (
        TaskView,
        Result<ExitInfo, ShimError>,
    ) {
        if !v.containers.contains_key(id) {
            (v, Err(ShimError::NotFound))
        } else {
            match eid {
                None => (
                    TaskView { containers: v.containers.remove(id), ..v },
                    Ok(v.containers[id].init.spec_exit_info()),
                ),
                Some(k) => {
                    let (cv2, r) = Container::spec_delete(v.containers[id], eid);
                    (TaskView { containers: v.containers.insert(id, cv2), ..v }, r)
                },
            }
        }
    }

    /// Delete an exec process, or the whole container.
    pub fn delete(&mut self, id: &String, exec_id: Option<&String>) -> (r: Result<
        ExitInfo,
        ShimError,
    >)
        requires
            old(self).wf(),
        ensures
            final(self).wf(),
            final(self)@ == ShimTask::spec_delete(old(self)@, id@, id_view(exec_id)).0,
            r == ShimTask::spec_delete(old(self)@, id@, id_view(exec_id)).1,
    {
        match self.find_container(id) {
            None => Err(ShimError::NotFound),
            Some(i) => {
                proof {
                    lemma_cmap_index(self.containers@, i as int);
                }
                match exec_id {
                    None => {
                        proof {
                            lemma_cmap_remove(self.containers@, i as int);
                        }
                        let c = self.containers.remove(i);
                        proof {
                            assert forall|a: int, b: int|
                                0 <= a < b < self.containers@.len() implies self.containers@[a].id@
                                != self.containers@[b].id@ by {
                                let s = old(self).containers@;
                                assert(self.containers@[a] == if a < i as int {
                                    s[a]
                                } else {
                                    s[a + 1]
                                });
                                assert(self.containers@[b] == if b < i as int {
                                    s[b]
                                } else {
                                    s[b + 1]
                                });
                            }
                        }
                        Ok(c.init.exit_info())
                    },
                    Some(_) => {
                        let c = &mut self.containers[i];
                        let r = c.delete(exec_id);
                        proof {
                            self.lemma_after_update(*old(self), i as int);
                        }
                        r
                    },
                }
            },
        }
    }

    /// The state and the answer after registering a new exec process.
    pub open spec fn spec_exec(v: TaskView, id: Seq<char>, eid: Seq<char>) -> (
        TaskView,
        Result<(), ShimError>,
    ) {
        if !v.containers.contains_key(id) {
            (v, Err(ShimError::NotFound))
        } else {
            let (cv2, r) = Container::spec_exec(v.containers[id], eid);
            (TaskView { containers: v.containers.insert(id, cv2), ..v }, r)
        }
    }

    /// Register a new exec process under a fresh exec id.
    pub fn exec(&mut self, id: &String, exec_id: String) -> (r: Result<(), ShimError>)
        requires
            old(self).wf(),
        ensures
            final(self).wf(),
            final(self)@ == ShimTask::spec_exec(old(self)@, id@, exec_id@).0,
            r == ShimTask::spec_exec(old(self)@, id@, exec_id@).1,
    {
        match self.find_container(id) {
            None => Err(ShimError::NotFound),
            Some(i) => {
                proof {
                    lemma_cmap_index(self.containers@, i as int);
                }
                let c = &mut self.containers[i];
                let r = c.exec(exec_id);
                proof {
                    self.lemma_after_update(*old(self), i as int);
                }
                r
            },
        }
    }

    /// What a pids request reports: every pid of the named container, the
    /// init process first, then the exec processes in registration order.
    pub open spec fn spec_pids(self, id: Seq<char>) -> Result<Seq<i32>, ShimError> {
        if !cmap(self.containers@).contains_key(id) {
            Err(ShimError::NotFound)
        } else {
            let c = self.containers@[find_id(self.containers@, id)];
            Ok(seq![c.init.pid] + exec_pids(c.execs@))
        }
    }

    /// The pids of every process of the named container.
    pub fn pids(&self, id: &String) -> (r: Result<Vec<i32>, ShimError>)
        requires
            self.wf(),
        ensures
            (r matches Ok(v) ==> self.spec_pids(id@) == Ok::<Seq<i32>, ShimError>(v@)),
            (r matches Err(e) ==> self.spec_pids(id@) == Err::<Seq<i32>, ShimError>(e)),
    {
        match self.find_container(id) {
            None => Err(ShimError::NotFound),
            Some(i) => {
                proof {
                    lemma_find_id(self.containers@, i as int);
                }
                Ok(self.containers[i].pids())
            },
        }
    }

    /// What a kill request asks of the engine for the named container.
    pub open spec fn spec_kill(
        self,
        id: Seq<char>,
        eid: Option<Seq<char>>,
        signal: u32,
        all: bool,
    ) -> Result<(u32, Seq<i32>), ShimError> {
        if !cmap(self.containers@).contains_key(id) {
            Err(ShimError::NotFound)
        } else {
            self.containers@[find_id(self.containers@, id)].spec_kill(eid, signal, all)
        }
    }

    /// Plan the signal deliveries for a kill request; the engine performs
    /// them.
    pub fn kill(&self, id: &String, exec_id: Option<&String>, signal: u32, all: bool) -> (r:
        Result<KillPlan, ShimError>)
        requires
            self.wf(),
        ensures
            (r matches Ok(p) ==> self.spec_kill(id@, id_view(exec_id), signal, all) == Ok::<
                (u32, Seq<i32>),
                ShimError,
            >((p.signal, p.pids@))),
            (r matches Err(e) ==> self.spec_kill(id@, id_view(exec_id), signal, all) == Err::<
                (u32, Seq<i32>),
                ShimError,
            >(e)),
    {
        match self.find_container(id) {
            None => Err(ShimError::NotFound),
            Some(i) => {
                proof {
                    lemma_find_id(self.containers@, i as int);
                }
                self.containers[i].kill(exec_id, signal, all)
            },
        }
    }

    /// What a resize request targets: the pid of the named process, whose
    /// terminal the engine then resizes.
    pub open spec fn spec_resize_pty(v: TaskView, id: Seq<char>, eid: Option<Seq<char>>) -> Result<
        i32,
        ShimError,
    > {
        if !v.containers.contains_key(id) {
            Err(ShimError::NotFound)
        } else {
            match Container::spec_target(v.containers[id], eid) {
                Ok(p) => Ok(p.pid),
                Err(e) => Err(e),
            }
        }
    }

    /// Validate a resize request and name the targeted pid; the engine
    /// performs the resize with the given geometry.
    #[allow(unused_variables)]
    pub fn resize_pty(&self, id: &String, exec_id: Option<&String>, height: u32, width: u32) -> (r:
        Result<i32, ShimError>)
        requires
            self.wf(),
        ensures
            r == ShimTask::spec_resize_pty(self@, id@, id_view(exec_id)),
    {
        match self.find_container(id) {
            None => Err(ShimError::NotFound),
            Some(i) => {
                proof {
                    lemma_cmap_index(self.containers@, i as int);
                }
                let c = &self.containers[i];
                match exec_id {
                    None => Ok(c.init.pid),
                    Some(_) => match c.get_exit_info(exec_id) {
                        Err(e) => Err(e),
                        Ok(info) => Ok(info.pid),
                    },
                }
            },
        }
    }

    /// A close-io request is a no-op: descriptors are closed when their
    /// owning objects are dropped.
    #[allow(unused_variables)]
    pub fn close_io(&self, id: &String, exec_id: Option<&String>) -> (r: Result<(), ShimError>)
        ensures
            r == Ok::<(), ShimError>(()),
    {
        Ok(())
    }

    /// What a stats or update request targets: the named container must
    /// exist; the engine then reads or adjusts it.
    pub open spec fn spec_container_target(v: TaskView, id: Seq<char>) -> Result<i32, ShimError> {
        if !v.containers.contains_key(id) {
            Err(ShimError::NotFound)
        } else {
            Ok(v.containers[id].init.pid)
        }
    }

    /// Validate a stats request and name the container's init pid; the
    /// engine takes the resource-usage snapshot.
    pub fn stats(&self, id: &String) -> (r: Result<i32, ShimError>)
        requires
            self.wf(),
        ensures
            r == ShimTask::spec_container_target(self@, id@),
    {
        match self.find_container(id) {
            None => Err(ShimError::NotFound),
            Some(i) => {
                proof {
                    lemma_cmap_index(self.containers@, i as int);
                }
                Ok(self.containers[i].init.pid)
            },
        }
    }

    /// Validate an update request and name the container's init pid; the
    /// engine applies the given resource limits.
    #[allow(unused_variables)]
    pub fn update(&self, id: &String, resources: &LinuxResources) -> (r: Result<i32, ShimError>)
        requires
            self.wf(),
        ensures
            r == ShimTask::spec_container_target(self@, id@),
    {
        self.stats(id)
    }

    /// What a wait request finds under the lock: the triple when the
    /// process has already exited, else the duty to block on its latch.
    pub open spec fn spec_wait(v: TaskView, id: Seq<char>, eid: Option<Seq<char>>) -> Result<
        WaitOutcome,
        ShimError,
    > {
        if !v.containers.contains_key(id) {
            Err(ShimError::NotFound)
        } else {
            match Container::spec_target(v.containers[id], eid) {
                Err(e) => Err(e),
                Ok(p) => if p.status is Stopped {
                    Ok(WaitOutcome::Ready(p.spec_exit_info()))
                } else {
                    Ok(WaitOutcome::Pending)
                },
            }
        }
    }

    /// First phase of a wait: under the lock, answer immediately if the
    /// process has exited, else tell the caller to release the lock and
    /// block on the process's exit latch.
    pub fn wait(&self, id: &String, exec_id: Option<&String>) -> (r: Result<WaitOutcome, ShimError>)
        requires
            self.wf(),
        ensures
            r == ShimTask::spec_wait(self@, id@, id_view(exec_id)),
    {
        match self.state(id, exec_id) {
            Err(e) => Err(e),
            Ok(snap) => {
                if snap.status == ProcessStatus::Stopped {
                    Ok(WaitOutcome::Ready(ExitInfo {
                        pid: snap.pid,
                        exit_status: snap.exit_status,
                        exited_at: snap.exited_at,
                    }))
                } else {
                    Ok(WaitOutcome::Pending)
                }
            },
        }
    }

    /// What the second phase of a wait re-reads once the latch has
    /// closed: the stored exit triple of the targeted process.
    pub open spec fn spec_get_exit_info(v: TaskView, id: Seq<char>, eid: Option<Seq<char>>) -> Result<
        ExitInfo,
        ShimError,
    > {
        if !v.containers.contains_key(id) {
            Err(ShimError::NotFound)
        } else {
            Container::spec_get_exit_info(v.containers[id], eid)
        }
    }

    /// Second phase of a wait: re-acquire the lock and re-read the exit
    /// triple.  The reaper wrote it before closing the latch, under the
    /// same lock, so it is populated by now.
    pub fn get_exit_info(&self, id: &String, exec_id: Option<&String>) -> (r: Result<
        ExitInfo,
        ShimError,
    >)
        requires
            self.wf(),
        ensures
            r == ShimTask::spec_get_exit_info(self@, id@, id_view(exec_id)),
    {
        match self.find_container(id) {
            None => Err(ShimError::NotFound),
            Some(i) => {
                proof {
                    lemma_cmap_index(self.containers@, i as int);
                }
                self.containers[i].get_exit_info(exec_id)
            },
        }
    }

    /// The state and the answer after a shutdown request: a no-op while
    /// the registry is non-empty; once it is empty, the termination signal
    /// fires exactly once over the shim's lifetime.
    pub open spec fn spec_shutdown(v: TaskView) -> (TaskView, bool) {
        if v.containers != Map::<Seq<char>, ContainerView>::empty() {
            (v, false)
        } else {
            (TaskView { exit_signaled: true, ..v }, !v.exit_signaled)
        }
    }

    /// Handle a shutdown request; the result says whether the caller must
    /// signal the shim's top-level exit condition now.
    pub fn shutdown(&mut self) -> (signaled: bool)
        requires
            old(self).wf(),
        ensures
            final(self).wf(),
            final(self)@ == ShimTask::spec_shutdown(old(self)@).0,
            signaled == ShimTask::spec_shutdown(old(self)@).1,
    {
        proof {
            if self.containers@.len() == 0 {
                assert(cmap(self.containers@) =~= Map::<Seq<char>, ContainerView>::empty());
            } else {
                lemma_cmap_nonempty(self.containers@);
            }
        }
        if !self.containers.is_empty() {
            return false;
        }
        let fresh = !self.exit_signaled;
        self.exit_signaled = true;
        fresh
    }

    /// The state and the dispatch after one exit event from the sandbox's
    /// stream.  An unknown container or exec id drops the event; a known
    /// running process is marked exited; a process already stopped is left
    /// untouched, so the recorded triple never changes.
    pub open spec fn spec_exit(
        v: TaskView,
        cid: Seq<char>,
        eid: Option<Seq<char>>,
        status: u32,
        at: Timestamp,
    ) -> (TaskView, ExitDispatch) {
        if !v.containers.contains_key(cid) {
            (v, ExitDispatch::UnknownContainer)
        } else {
            let (cv2, o) = Container::spec_set_exited(v.containers[cid], eid, status, at);
            (
                TaskView { containers: v.containers.insert(cid, cv2), ..v },
                ExitDispatch::Process(o),
            )
        }
    }

    /// The subtree-kill pids that an init exit asks for when the
    /// container has no private PID namespace: every registered process.
    pub open spec fn spec_exit_kill_pids(s: Seq<Container>, cid: Seq<char>) -> Seq<i32> {
        let c = s[find_id(s, cid)];
        seq![c.init.pid] + exec_pids(c.execs@)
    }

    /// Dispatch one exit event, as the exit reaper does for each event it
    /// drains from the sandbox's stream.  For an init exit of a container
    /// without a private PID namespace, the second component carries the
    /// subtree kill the engine must perform.  Unknown ids are reported,
    /// never treated as faults: the reaper logs and carries on.
    #[allow(non_snake_case)]
    pub fn Exit(
        &mut self,
        cid: &String,
        exec_id: Option<&String>,
        status: u32,
        at: Timestamp,
    ) -> (r: (ExitDispatch, Option<KillPlan>))
        requires
            old(self).wf(),
            at.wf(),
        ensures
            final(self).wf(),
            final(self)@ == ShimTask::spec_exit(old(self)@, cid@, id_view(exec_id), status, at).0,
            r.0 == ShimTask::spec_exit(old(self)@, cid@, id_view(exec_id), status, at).1,
            (r.1 is Some <==> old(self)@.containers.contains_key(cid@) && id_view(exec_id) is None
                && !old(self)@.containers[cid@].private_pid_ns),
            (r.1 matches Some(p) ==> p.signal == 9 && p.pids@ == ShimTask::spec_exit_kill_pids(
                old(self).containers@,
                cid@,
            )),
    {
        match self.find_container(cid) {
            None => (ExitDispatch::UnknownContainer, None),
            Some(i) => {
                proof {
                    lemma_cmap_index(self.containers@, i as int);
                    lemma_find_id(self.containers@, i as int);
                }
                let plan: Option<KillPlan> = match exec_id {
                    None => {
                        if !self.containers[i].private_pid_ns {
                            Some(KillPlan { signal: 9, pids: self.containers[i].pids() })
                        } else {
                            None
                        }
                    },
                    Some(_) => None,
                };
                let c = &mut self.containers[i];
                let o = c.set_exited(exec_id, status, at);
                proof {
                    self.lemma_after_update(*old(self), i as int);
                }
                (ExitDispatch::Process(o), plan)
            },
        }
    }

    /// The ids of every container in the registry, in registry order: the
    /// teardown plan that a destroy walks, asking the engine to tear each
    /// container down.
    #[allow(non_snake_case)]
    pub fn Destroy(&self) -> (r: Vec<String>)
        ensures
            r@.len() == self.containers@.len(),
            forall|i: int| 0 <= i < r@.len() ==> r@[i]@ == (#[trigger] self.containers@[i]).id@,
    {
        let mut out: Vec<String> = Vec::new();
        let n = self.containers.len();
        for i in 0..n
            invariant
                n == self.containers@.len(),
                out@.len() == i,
                forall|j: int| 0 <= j < i ==> out@[j]@ == (#[trigger] self.containers@[j]).id@,
        {
            out.push(self.containers[i].id.clone());
        }
        out
    }

    /// After replacing the container at `i` by a well-formed one with the
    /// same id, the whole state is well formed and its model is the old
    /// model with that binding updated.
    proof fn lemma_after_update(self, pre: ShimTask, i: int)
        requires
            pre.wf(),
            0 <= i < pre.containers@.len(),
            self.containers@ =~= pre.containers@.update(i, self.containers@[i]),
            self.containers@[i].id@ == pre.containers@[i].id@,
            self.containers@[i].wf(),
            self.namespace == pre.namespace,
            self.sandbox == pre.sandbox,
            self.reaper_started == pre.reaper_started,
            self.exit_signaled == pre.exit_signaled,
        ensures
            self.wf(),
            self@ == (TaskView {
                containers: pre@.containers.insert(
                    pre.containers@[i].id@,
                    self.containers@[i]@,
                ),
                ..pre@
            }),
    {
        lemma_cmap_update(pre.containers@, self.containers@, i);
        assert forall|j: int|
            0 <= j < self.containers@.len() implies (#[trigger] self.containers@[j]).wf() by {
            if j != i {
                assert(self.containers@[j] == pre.containers@[j]);
            }
        }
        assert(cmap(self.containers@) =~= pre@.containers.insert(
            pre.containers@[i].id@,
            self.containers@[i]@,
        ));
    }
}

} // verus!
