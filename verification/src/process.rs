//! One OS-level execution unit inside a container: the init process or an
//! additional exec process.
//!
//! A process carries its pid, its lifecycle state, and — once it has
//! stopped — an exit status and an exit timestamp.  The two exit fields are
//! set exactly when the state is `Stopped`, and once set they never change:
//! every operation of the library preserves that.

use vstd::prelude::*;

verus! {

/// A point in time, as seconds and nanoseconds since the epoch.
#[derive(Clone, Copy, Debug, PartialEq, Eq, Structural)]
pub struct Timestamp {
    pub seconds: i64,
    pub nanos: u32,
}

impl Timestamp {
    /// The nanosecond part stays below one second.
    pub open spec fn wf(self) -> bool {
        self.nanos < 1_000_000_000
    }

    pub fn new(seconds: i64, nanos: u32) -> (r: Timestamp)
        requires
            nanos < 1_000_000_000,
        ensures
            r == (Timestamp { seconds, nanos }),
    {
        Timestamp { seconds, nanos }
    }
}

/// Lifecycle state of one process.
#[derive(Clone, Copy, Debug, PartialEq, Eq, Structural)]
pub enum ProcessStatus {
    Created,
    Running,
    Stopped,
}

/// The read-only snapshot that a state request reports.
#[derive(Clone, Copy, Debug, PartialEq, Eq)]
pub struct StateSnapshot {
    pub pid: i32,
    pub status: ProcessStatus,
    pub exit_status: Option<u32>,
    pub exited_at: Option<Timestamp>,
}

/// The triple that delete and wait report for an exited process.
#[derive(Clone, Copy, Debug, PartialEq, Eq)]
pub struct ExitInfo {
    pub pid: i32,
    pub exit_status: Option<u32>,
    pub exited_at: Option<Timestamp>,
}

/// One process: pid, state, and the exit record.
#[derive(Clone, Copy, Debug, PartialEq, Eq)]
pub struct Process {
    pub pid: i32,
    pub status: ProcessStatus,
    pub exit_status: Option<u32>,
    pub exited_at: Option<Timestamp>,
}

impl Process {
    /// The exit record exists exactly while the process is stopped, the
    /// pid is never negative, and the timestamp is well formed.
    pub open spec fn wf(self) -> bool {
        &&& self.pid >= 0
        &&& (self.status is Stopped <==> self.exit_status is Some)
        &&& (self.status is Stopped <==> self.exited_at is Some)
        &&& (self.exited_at is Some ==> self.exited_at->0.wf())
    }

    /// A freshly registered process: not yet exited.
    pub open spec fn spec_new(pid: i32) -> Process {
        Process { pid, status: ProcessStatus::Created, exit_status: None, exited_at: None }
    }

    pub fn new(pid: i32) -> (r: Process)
        requires
            pid >= 0,
        ensures
            r == Process::spec_new(pid),
            r.wf(),
    {
        Process { pid, status: ProcessStatus::Created, exit_status: None, exited_at: None }
    }

    /// The process after `mark_exited(status, at)`.
    pub open spec fn spec_exited(self, status: u32, at: Timestamp) -> Process {
        Process {
            pid: self.pid,
            status: ProcessStatus::Stopped,
            exit_status: Some(status),
            exited_at: Some(at),
        }
    }

    /// Record the exit of this process.  Marking a process exited twice is
    /// a logic error; the callers guarantee each process is marked at most
    /// once, so the exit record, once written, never changes.
    pub fn mark_exited(&mut self, status: u32, at: Timestamp)
        requires
            old(self).wf(),
            !(old(self).status is Stopped),
            at.wf(),
        ensures
            *final(self) == old(self).spec_exited(status, at),
            final(self).wf(),
    {
        self.status = ProcessStatus::Stopped;
        self.exit_status = Some(status);
        self.exited_at = Some(at);
    }

    /// The process after `mark_started(pid)`.
    pub open spec fn spec_started(self, pid: i32) -> Process {
        Process { pid, status: ProcessStatus::Running, ..self }
    }

    /// Transition to `Running`, recording the pid the engine reports.
    pub fn mark_started(&mut self, pid: i32)
        requires
            old(self).wf(),
            old(self).status is Created,
            pid >= 0,
        ensures
            *final(self) == old(self).spec_started(pid),
            final(self).wf(),
    {
        self.pid = pid;
        self.status = ProcessStatus::Running;
    }

    /// What a state request reports of this process.
    pub open spec fn spec_snapshot(self) -> StateSnapshot {
        StateSnapshot {
            pid: self.pid,
            status: self.status,
            exit_status: self.exit_status,
            exited_at: self.exited_at,
        }
    }

    pub fn snapshot(&self) -> (r: StateSnapshot)
        ensures
            r == self.spec_snapshot(),
    {
        StateSnapshot {
            pid: self.pid,
            status: self.status,
            exit_status: self.exit_status,
            exited_at: self.exited_at,
        }
    }

    /// What delete and wait report of this process.
    pub open spec fn spec_exit_info(self) -> ExitInfo {
        ExitInfo { pid: self.pid, exit_status: self.exit_status, exited_at: self.exited_at }
    }

    pub fn exit_info(&self) -> (r: ExitInfo)
        ensures
            r == self.spec_exit_info(),
    {
        ExitInfo { pid: self.pid, exit_status: self.exit_status, exited_at: self.exited_at }
    }
}

} // verus!
