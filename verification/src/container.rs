//! One container: its init process and its table of exec processes.
//!
//! The exec table is kept as a vector of entries with pairwise-distinct
//! ids; its mathematical model is the map from exec id to process, built
//! by [`emap`].  Every operation of the container is specified against
//! that map.

use vstd::prelude::*;

use crate::errors::ShimError;
use crate::process::{ExitInfo, Process, ProcessStatus, StateSnapshot, Timestamp};

verus! {

/// One entry of the exec table.
pub struct ExecEntry {
    pub id: String,
    pub proc: Process,
}

/// The map that a sequence of exec entries stands for: later entries win,
/// though under [`exec_ids_distinct`] every id occurs at most once.
pub open spec fn emap(s: Seq<ExecEntry>) -> Map<Seq<char>, Process>
    decreases s.len(),
{
    if s.len() == 0 {
        Map::<Seq<char>, Process>::empty()
    } else {
        emap(s.drop_last()).insert(s.last().id@, s.last().proc)
    }
}

/// No two entries carry the same exec id.
pub open spec fn exec_ids_distinct(s: Seq<ExecEntry>) -> bool {
    forall|i: int, j: int| 0 <= i < j < s.len() ==> s[i].id@ != s[j].id@
}

/// A key is in the map exactly when some entry carries it.
pub proof fn lemma_emap_domain(s: Seq<ExecEntry>)
    ensures
        forall|k: Seq<char>|
            #[trigger] emap(s).contains_key(k) <==> exists|i: int|
                0 <= i < s.len() && #[trigger] s[i].id@ == k,
    decreases s.len(),
{
    if s.len() > 0 {
        lemma_emap_domain(s.drop_last());
        assert forall|k: Seq<char>| #[trigger] emap(s).contains_key(k) implies exists|i: int|
            0 <= i < s.len() && #[trigger] s[i].id@ == k by {
            if k == s.last().id@ {
                assert(s[s.len() - 1].id@ == k);
            } else {
                assert(emap(s.drop_last()).contains_key(k));
                let i = choose|i: int|
                    0 <= i < s.drop_last().len() && #[trigger] s.drop_last()[i].id@ == k;
                assert(s.drop_last()[i] == s[i]);
                assert(s[i].id@ == k);
            }
        }
        assert forall|k: Seq<char>|
            (exists|i: int| 0 <= i < s.len() && #[trigger] s[i].id@ == k) implies #[trigger] emap(
            s,
        ).contains_key(k) by {
            let i = choose|i: int| 0 <= i < s.len() && #[trigger] s[i].id@ == k;
            if i < s.len() - 1 {
                assert(s.drop_last()[i] == s[i]);
                assert(s.drop_last()[i].id@ == k);
                assert(emap(s.drop_last()).contains_key(k));
            }
        }
    }
}

/// Under distinct ids, the entry at index `i` is the map's value at its id.
pub proof fn lemma_emap_index(s: Seq<ExecEntry>, i: int)
    requires
        exec_ids_distinct(s),
        0 <= i < s.len(),
    ensures
        emap(s).contains_key(s[i].id@),
        emap(s)[s[i].id@] == s[i].proc,
    decreases s.len(),
{
    if i < s.len() - 1 {
        assert(s.drop_last()[i] == s[i]);
        lemma_emap_index(s.drop_last(), i);
        assert(s[i].id@ != s.last().id@);
    }
}

/// Appending an entry inserts its binding.
pub proof fn lemma_emap_push(s: Seq<ExecEntry>, e: ExecEntry)
    ensures
        emap(s.push(e)) == emap(s).insert(e.id@, e.proc),
{
    assert(s.push(e).drop_last() =~= s);
    assert(s.push(e).last() == e);
}

/// Replacing the entry at `i` by one with the same id updates its binding.
pub proof fn lemma_emap_update(s: Seq<ExecEntry>, i: int, e: ExecEntry)
    requires
        exec_ids_distinct(s),
        0 <= i < s.len(),
        e.id@ == s[i].id@,
    ensures
        emap(s.update(i, e)) =~= emap(s).insert(e.id@, e.proc),
    decreases s.len(),
{
    if i == s.len() - 1 {
        assert(s.update(i, e).drop_last() =~= s.drop_last());
        assert(s.update(i, e).last() == e);
    } else {
        assert(s.update(i, e).drop_last() =~= s.drop_last().update(i, e));
        assert(s.update(i, e).last() == s.last());
        assert(s.drop_last()[i] == s[i]);
        lemma_emap_update(s.drop_last(), i, e);
        assert(s[i].id@ != s.last().id@);
    }
}

/// Removing the entry at `i` removes its binding.
pub proof fn lemma_emap_remove(s: Seq<ExecEntry>, i: int)
    requires
        exec_ids_distinct(s),
        0 <= i < s.len(),
    ensures
        emap(s.remove(i)) =~= emap(s).remove(s[i].id@),
    decreases s.len(),
{
    lemma_emap_domain(s.drop_last());
    if i == s.len() - 1 {
        assert(s.remove(i) =~= s.drop_last());
        assert(!emap(s.drop_last()).contains_key(s.last().id@));
    } else {
        assert(s.remove(i).drop_last() =~= s.drop_last().remove(i));
        assert(s.remove(i).last() == s.last());
        assert(s.drop_last()[i] == s[i]);
        lemma_emap_remove(s.drop_last(), i);
        assert(s[i].id@ != s.last().id@);
    }
}

/// View of an optional id argument.
pub open spec fn id_view(o: Option<&String>) -> Option<Seq<char>> {
    match o {
        Some(s) => Some(s@),
        None => None,
    }
}

/// How the reaper's dispatch fared for one exit event.
#[derive(Clone, Copy, Debug, PartialEq, Eq, Structural)]
pub enum SetExitOutcome {
    /// The process was running and is now marked `Stopped`.
    Marked,
    /// No process carries the given exec id; the event is dropped.
    UnknownProcess,
    /// The process had already been marked; the event is dropped so that
    /// the recorded exit status and timestamp never change.
    AlreadyStopped,
}

/// The signal deliveries that a kill request asks of the engine.
#[derive(Debug, PartialEq, Eq)]
pub struct KillPlan {
    pub signal: u32,
    pub pids: Vec<i32>,
}

/// The pids of the exec table, in registration order.
pub open spec fn exec_pids(s: Seq<ExecEntry>) -> Seq<i32> {
    s.map_values(|e: ExecEntry| e.proc.pid)
}

/// The mathematical model of one container.
pub struct ContainerView {
    pub bundle: Seq<char>,
    pub init: Process,
    pub execs: Map<Seq<char>, Process>,
    pub private_pid_ns: bool,
}

/// A container: one init process and a table of exec processes, plus the
/// bundle path and whether the container runs in a private PID namespace.
pub struct Container {
    pub id: String,
    pub bundle: String,
    pub init: Process,
    pub execs: Vec<ExecEntry>,
    pub private_pid_ns: bool,
}

impl View for Container {
    type V = ContainerView;

    open spec fn view(&self) -> ContainerView {
        ContainerView {
            bundle: self.bundle@,
            init: self.init,
            execs: emap(self.execs@),
            private_pid_ns: self.private_pid_ns,
        }
    }
}

impl Container {
    /// Distinct exec ids, and every process well formed.
    pub open spec fn wf(self) -> bool {
        &&& exec_ids_distinct(self.execs@)
        &&& self.init.wf()
        &&& forall|i: int|
            0 <= i < self.execs@.len() ==> (#[trigger] self.execs@[i]).proc.wf()
    }

    /// A fresh container around its init process.
    pub fn new(id: String, bundle: String, pid: i32, private_pid_ns: bool) -> (r: Container)
        requires
            pid > 0,
        ensures
            r.id@ == id@,
            r@ == (ContainerView {
                bundle: bundle@,
                init: Process::spec_new(pid),
                execs: Map::<Seq<char>, Process>::empty(),
                private_pid_ns,
            }),
            r.wf(),
    {
        let c = Container {
            id,
            bundle,
            init: Process::new(pid),
            execs: Vec::new(),
            private_pid_ns,
        };
        proof {
            assert(c.execs@.len() == 0);
            assert(emap(c.execs@) =~= Map::<Seq<char>, Process>::empty());
        }
        c
    }

    /// Look up the targeted process: the init process when no exec id is
    /// given, the named exec process otherwise.
    pub open spec fn spec_target(v: ContainerView, eid: Option<Seq<char>>) -> Result<
        Process,
        ShimError,
    > {
        match eid {
            None => Ok(v.init),
            Some(k) => if v.execs.contains_key(k) {
                Ok(v.execs[k])
            } else {
                Err(ShimError::NotFound)
            },
        }
    }

    /// What a state request reports: the snapshot of the targeted process.
    pub open spec fn spec_state(v: ContainerView, eid: Option<Seq<char>>) -> Result<
        StateSnapshot,
        ShimError,
    > {
        match Container::spec_target(v, eid) {
            Ok(p) => Ok(p.spec_snapshot()),
            Err(e) => Err(e),
        }
    }

    /// What a wait reports once the process has exited: the exit triple of
    /// the targeted process.
    pub open spec fn spec_get_exit_info(v: ContainerView, eid: Option<Seq<char>>) -> Result<
        ExitInfo,
        ShimError,
    > {
        match Container::spec_target(v, eid) {
            Ok(p) => Ok(p.spec_exit_info()),
            Err(e) => Err(e),
        }
    }

    /// The container and the answer after a start request: the targeted
    /// process must exist and still be `Created`; it transitions to
    /// `Running` under the pid the engine reported.
    pub open spec fn spec_start(v: ContainerView, eid: Option<Seq<char>>, pid: i32) -> (
        ContainerView,
        Result<i32, ShimError>,
    ) {
        match eid {
            None => if v.init.status is Created {
                (ContainerView { init: v.init.spec_started(pid), ..v }, Ok(pid))
            } else {
                (v, Err(ShimError::StateConflict))
            },
            Some(k) => if !v.execs.contains_key(k) {
                (v, Err(ShimError::NotFound))
            } else if v.execs[k].status is Created {
                (
                    ContainerView { execs: v.execs.insert(k, v.execs[k].spec_started(pid)), ..v },
                    Ok(pid),
                )
            } else {
                (v, Err(ShimError::StateConflict))
            },
        }
    }

    /// The container after registering a new exec process: the id must be
    /// fresh; the process starts out `Created` with no pid yet.
    pub open spec fn spec_exec(v: ContainerView, eid: Seq<char>) -> (
        ContainerView,
        Result<(), ShimError>,
    ) {
        if v.execs.contains_key(eid) {
            (v, Err(ShimError::AlreadyExists))
        } else {
            (ContainerView { execs: v.execs.insert(eid, Process::spec_new(0)), ..v }, Ok(()))
        }
    }

    /// The container and the answer after a delete request.  Deleting a
    /// named exec process removes it and reports its exit triple, and is
    /// refused with `StateConflict` until the process has exited.  Deleting
    /// with no exec id reports the init process's triple; the registry then
    /// drops the whole container.
    pub open spec fn spec_delete(v: ContainerView, eid: Option<Seq<char>>) -> (
        ContainerView,
        Result<ExitInfo, ShimError>,
    ) {
        match eid {
            None => (v, Ok(v.init.spec_exit_info())),
            Some(k) => if !v.execs.contains_key(k) {
                (v, Err(ShimError::NotFound))
            } else if !(v.execs[k].status is Stopped) {
                (v, Err(ShimError::StateConflict))
            } else {
                (ContainerView { execs: v.execs.remove(k), ..v }, Ok(v.execs[k].spec_exit_info()))
            },
        }
    }

    /// What the reaper's dispatch does to the targeted process.
    pub open spec fn spec_set_exited(
        v: ContainerView,
        eid: Option<Seq<char>>,
        status: u32,
        at: Timestamp,
    ) -> (ContainerView, SetExitOutcome) {
        match eid {
            None => if v.init.status is Stopped {
                (v, SetExitOutcome::AlreadyStopped)
            } else {
                (ContainerView { init: v.init.spec_exited(status, at), ..v }, SetExitOutcome::Marked)
            },
            Some(k) => if !v.execs.contains_key(k) {
                (v, SetExitOutcome::UnknownProcess)
            } else if v.execs[k].status is Stopped {
                (v, SetExitOutcome::AlreadyStopped)
            } else {
                (
                    ContainerView {
                        execs: v.execs.insert(k, v.execs[k].spec_exited(status, at)),
                        ..v
                    },
                    SetExitOutcome::Marked,
                )
            },
        }
    }

    /// Index of the exec entry carrying `eid`, if any.
    fn find_exec(&self, eid: &String) -> (r: Option<usize>)
        requires
            exec_ids_distinct(self.execs@),
        ensures
            match r {
                Some(i) => i < self.execs@.len() && self.execs@[i as int].id@ == eid@
                    && self@.execs.contains_key(eid@),
                None => !self@.execs.contains_key(eid@),
            },
    {
        proof {
            lemma_emap_domain(self.execs@);
        }
        let n = self.execs.len();
        for i in 0..n
            invariant
                n == self.execs@.len(),
                forall|j: int| 0 <= j < i ==> (#[trigger] self.execs@[j]).id@ != eid@,
        {
            if self.execs[i].id.eq(eid) {
                proof {
                    lemma_emap_domain(self.execs@);
                    assert(exists|j: int|
                        0 <= j < self.execs@.len() && #[trigger] self.execs@[j].id@ == eid@) by {
                        assert(self.execs@[i as int].id@ == eid@);
                    }
                    assert(emap(self.execs@).contains_key(eid@));
                }
                return Some(i);
            }
        }
        None
    }

    /// Read-only snapshot of the targeted process.
    pub fn state(&self, exec_id: Option<&String>) -> (r: Result<StateSnapshot, ShimError>)
        requires
            self.wf(),
        ensures
            r == Container::spec_state(self@, id_view(exec_id)),
    {
        match exec_id {
            None => Ok(self.init.snapshot()),
            Some(eid) => match self.find_exec(eid) {
                None => Err(ShimError::NotFound),
                Some(i) => {
                    proof {
                        lemma_emap_index(self.execs@, i as int);
                    }
                    Ok(self.execs[i].proc.snapshot())
                },
            },
        }
    }

    /// The exit triple of the targeted process, as a wait re-reads it
    /// after the exit latch has closed.
    pub fn get_exit_info(&self, exec_id: Option<&String>) -> (r: Result<ExitInfo, ShimError>)
        requires
            self.wf(),
        ensures
            r == Container::spec_get_exit_info(self@, id_view(exec_id)),
    {
        match exec_id {
            None => Ok(self.init.exit_info()),
            Some(eid) => match self.find_exec(eid) {
                None => Err(ShimError::NotFound),
                Some(i) => {
                    proof {
                        lemma_emap_index(self.execs@, i as int);
                    }
                    Ok(self.execs[i].proc.exit_info())
                },
            },
        }
    }

    /// Commit a start: the engine has launched the targeted process and
    /// reported `pid`; the process transitions to `Running`.
    pub fn start(&mut self, exec_id: Option<&String>, pid: i32) -> (r: Result<i32, ShimError>)
        requires
            old(self).wf(),
            pid > 0,
        ensures
            final(self).wf(),
            final(self).id@ == old(self).id@,
            final(self)@ == Container::spec_start(old(self)@, id_view(exec_id), pid).0,
            r == Container::spec_start(old(self)@, id_view(exec_id), pid).1,
    {
        match exec_id {
            None => {
                if self.init.status == ProcessStatus::Created {
                    self.init.mark_started(pid);
                    Ok(pid)
                } else {
                    Err(ShimError::StateConflict)
                }
            },
            Some(eid) => match self.find_exec(eid) {
                None => Err(ShimError::NotFound),
                Some(i) => {
                    proof {
                        lemma_emap_index(self.execs@, i as int);
                    }
                    if self.execs[i].proc.status == ProcessStatus::Created {
                        let q = self.execs[i].proc;
                        self.execs[i].proc = Process {
                            pid,
                            status: ProcessStatus::Running,
                            ..q
                        };
                        proof {
                            let s = old(self).execs@;
                            let e = self.execs@[i as int];
                            assert(self.execs@ =~= s.update(i as int, e));
                            lemma_emap_update(s, i as int, e);
                            assert(exec_ids_distinct(self.execs@));
                        }
                        Ok(pid)
                    } else {
                        Err(ShimError::StateConflict)
                    }
                },
            },
        }
    }

    /// Register a new exec process under a fresh exec id.
    pub fn exec(&mut self, exec_id: String) -> (r: Result<(), ShimError>)
        requires
            old(self).wf(),
        ensures
            final(self).wf(),
            final(self).id@ == old(self).id@,
            final(self)@ == Container::spec_exec(old(self)@, exec_id@).0,
            r == Container::spec_exec(old(self)@, exec_id@).1,
    {
        match self.find_exec(&exec_id) {
            Some(_) => Err(ShimError::AlreadyExists),
            None => {
                proof {
                    lemma_emap_domain(self.execs@);
                    assert forall|j: int|
                        0 <= j < self.execs@.len() implies (#[trigger] self.execs@[j]).id@
                        != exec_id@ by {
                        if self.execs@[j].id@ == exec_id@ {
                            assert(emap(self.execs@).contains_key(exec_id@));
                        }
                    }
                }
                let e = ExecEntry { id: exec_id, proc: Process::new(0) };
                proof {
                    lemma_emap_push(self.execs@, e);
                }
                self.execs.push(e);
                Ok(())
            },
        }
    }

    /// Remove a named exec process once it has exited, reporting its exit
    /// triple; or report the init process's triple when no exec id is
    /// given, ahead of the registry dropping the whole container.
    pub fn delete(&mut self, exec_id: Option<&String>) -> (r: Result<ExitInfo, ShimError>)
        requires
            old(self).wf(),
        ensures
            final(self).wf(),
            final(self).id@ == old(self).id@,
            final(self)@ == Container::spec_delete(old(self)@, id_view(exec_id)).0,
            r == Container::spec_delete(old(self)@, id_view(exec_id)).1,
    {
        match exec_id {
            None => Ok(self.init.exit_info()),
            Some(eid) => match self.find_exec(eid) {
                None => Err(ShimError::NotFound),
                Some(i) => {
                    proof {
                        lemma_emap_index(self.execs@, i as int);
                    }
                    if self.execs[i].proc.status == ProcessStatus::Stopped {
                        proof {
                            lemma_emap_remove(self.execs@, i as int);
                        }
                        let e = self.execs.remove(i);
                        Ok(e.proc.exit_info())
                    } else {
                        Err(ShimError::StateConflict)
                    }
                },
            },
        }
    }

    /// Mark the targeted process exited with the given status and time, as
    /// the reaper's dispatch does.  An unknown exec id and a process that
    /// is already stopped are reported, not treated as faults: the caller
    /// logs and carries on.
    pub fn set_exited(
        &mut self,
        exec_id: Option<&String>,
        status: u32,
        at: Timestamp,
    ) -> (r: SetExitOutcome)
        requires
            old(self).wf(),
            at.wf(),
        ensures
            final(self).wf(),
            final(self).id@ == old(self).id@,
            final(self)@ == Container::spec_set_exited(old(self)@, id_view(exec_id), status, at).0,
            r == Container::spec_set_exited(old(self)@, id_view(exec_id), status, at).1,
    {
        match exec_id {
            None => {
                if self.init.status == ProcessStatus::Stopped {
                    SetExitOutcome::AlreadyStopped
                } else {
                    self.init.mark_exited(status, at);
                    SetExitOutcome::Marked
                }
            },
            Some(eid) => match self.find_exec(eid) {
                None => SetExitOutcome::UnknownProcess,
                Some(i) => {
                    proof {
                        lemma_emap_index(self.execs@, i as int);
                    }
                    if self.execs[i].proc.status == ProcessStatus::Stopped {
                        SetExitOutcome::AlreadyStopped
                    } else {
                        let q = self.execs[i].proc;
                        self.execs[i].proc = Process {
                            status: ProcessStatus::Stopped,
                            exit_status: Some(status),
                            exited_at: Some(at),
                            ..q
                        };
                        proof {
                            let s = old(self).execs@;
                            let e = self.execs@[i as int];
                            assert(self.execs@ =~= s.update(i as int, e));
                            lemma_emap_update(s, i as int, e);
                            assert(exec_ids_distinct(self.execs@));
                        }
                        SetExitOutcome::Marked
                    }
                },
            },
        }
    }

    /// The pids of every process of the container: the init process
    /// first, then the exec processes in registration order.
    pub fn pids(&self) -> (r: Vec<i32>)
        ensures
            r@ == seq![self.init.pid] + exec_pids(self.execs@),
    {
        let mut out: Vec<i32> = Vec::new();
        out.push(self.init.pid);
        let n = self.execs.len();
        for i in 0..n
            invariant
                n == self.execs@.len(),
                out@.len() == i + 1,
                out@[0] == self.init.pid,
                forall|j: int| 1 <= j < i + 1 ==> out@[j] == self.execs@[j - 1].proc.pid,
        {
            out.push(self.execs[i].proc.pid);
        }
        proof {
            assert(out@ =~= seq![self.init.pid] + exec_pids(self.execs@));
        }
        out
    }

    /// The signal deliveries a kill request asks for.  A subtree-wide kill
    /// (`all`, honored only without a private PID namespace) targets every
    /// process of the container; otherwise only the targeted process.
    pub open spec fn spec_kill(self, eid: Option<Seq<char>>, signal: u32, all: bool) -> Result<
        (u32, Seq<i32>),
        ShimError,
    > {
        match eid {
            Some(k) => if !emap(self.execs@).contains_key(k) {
                Err(ShimError::NotFound)
            } else if all && !self.private_pid_ns {
                Ok((signal, seq![self.init.pid] + exec_pids(self.execs@)))
            } else {
                Ok((signal, seq![emap(self.execs@)[k].pid]))
            },
            None => if all && !self.private_pid_ns {
                Ok((signal, seq![self.init.pid] + exec_pids(self.execs@)))
            } else {
                Ok((signal, seq![self.init.pid]))
            },
        }
    }

    /// Plan the signal deliveries for a kill request; the engine performs
    /// them.
    pub fn kill(&self, exec_id: Option<&String>, signal: u32, all: bool) -> (r: Result<
        KillPlan,
        ShimError,
    >)
        requires
            self.wf(),
        ensures
            (r matches Ok(p) ==> self.spec_kill(id_view(exec_id), signal, all) == Ok::<
                (u32, Seq<i32>),
                ShimError,
            >((p.signal, p.pids@))),
            (r matches Err(e) ==> self.spec_kill(id_view(exec_id), signal, all) == Err::<
                (u32, Seq<i32>),
                ShimError,
            >(e)),
    {
        match exec_id {
            Some(eid) => match self.find_exec(eid) {
                None => Err(ShimError::NotFound),
                Some(i) => {
                    if all && !self.private_pid_ns {
                        Ok(KillPlan { signal, pids: self.pids() })
                    } else {
                        proof {
                            lemma_emap_index(self.execs@, i as int);
                        }
                        let mut pids: Vec<i32> = Vec::new();
                        pids.push(self.execs[i].proc.pid);
                        proof {
                            assert(pids@ =~= seq![emap(self.execs@)[eid@].pid]);
                        }
                        Ok(KillPlan { signal, pids })
                    }
                },
            },
            None => {
                if all && !self.private_pid_ns {
                    Ok(KillPlan { signal, pids: self.pids() })
                } else {
                    let mut pids: Vec<i32> = Vec::new();
                    pids.push(self.init.pid);
                    proof {
                        assert(pids@ =~= seq![self.init.pid]);
                    }
                    Ok(KillPlan { signal, pids })
                }
            },
        }
    }
}

} // verus!
