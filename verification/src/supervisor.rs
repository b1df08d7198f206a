//! Lifecycle of the helper API server process: at most one child process is
//! tracked at a time, and start/stop are idempotent.
//!
//! The supervisor itself never touches the operating system. It decides:
//! `plan_start` and `plan_stop` say what the host must do (spawn, kill, or
//! nothing), and `record_start_outcome` / `finish_stop` turn what the host
//! observed into the operation's result. The host serialises these calls
//! behind one lock, so no two of them run concurrently against the same
//! state; a poisoned lock is reported as `SupervisorError::Lock` without
//! consulting this module.
use crate::strutil::{spec_dec, u64_to_dec};
use vstd::prelude::*;
use vstd::string::*;

verus! {

/// What a start request asks of the host.
#[derive(Debug, PartialEq, Eq, Structural)]
pub enum StartPlan {
    /// A child is already managed: report success, spawn nothing.
    AlreadyRunning,
    /// Spawn the helper, handing it `port` through its environment.
    Spawn { port: u16 },
}

/// What a stop request asks of the host.
#[derive(Debug, PartialEq, Eq, Structural)]
pub enum StopPlan {
    /// Nothing is managed: report success, kill nothing.
    AlreadyStopped,
    /// Terminate the process tree rooted at `pid`.
    Kill { pid: u32 },
}

/// The successful outcome of a supervisor operation.
#[derive(Debug, PartialEq, Eq, Structural)]
pub enum StatusMessage {
    AlreadyRunning,
    Started { port: u16 },
    AlreadyStopped,
    Stopped,
}

/// A failed supervisor operation, each carrying the underlying OS error
/// text where there is one.
#[derive(Debug, Clone)]
pub enum SupervisorError {
    /// The host's mutual-exclusion state is corrupted; fatal for this
    /// supervisor instance.
    Lock,
    /// The helper's working directory could not be resolved.
    DirectoryResolution { detail: String },
    /// Spawning the helper failed.
    Spawn { detail: String },
    /// The termination request itself could not be issued.
    Termination { detail: String },
}

/// The supervisor's state: the managed child process, if any.
#[derive(Debug)]
pub struct Supervisor {
    child: Option<u32>,
}

impl Supervisor {
    /// The process id of the managed child, if one is held.
    pub closed spec fn running(self) -> Option<u32> {
        self.child
    }

    /// What `plan_start` answers in a given state.
    pub open spec fn spec_plan_start(self, port: u16) -> StartPlan {
        if self.running() is Some {
            StartPlan::AlreadyRunning
        } else {
            StartPlan::Spawn { port }
        }
    }

    /// The state after a spawn has been recorded.
    pub closed spec fn spec_after_spawn(self, pid: u32) -> Supervisor {
        Supervisor { child: Some(pid) }
    }

    /// What `plan_stop` leaves behind and answers in a given state.
    pub closed spec fn spec_plan_stop(self) -> (Supervisor, StopPlan) {
        match self.running() {
            Some(pid) => (Supervisor { child: None }, StopPlan::Kill { pid }),
            None => (self, StopPlan::AlreadyStopped),
        }
    }

    /// A fresh supervisor, managing nothing.
    pub fn new() -> (s: Supervisor)
        ensures
            s.running() is None,
    {
        Supervisor { child: None }
    }

    /// Whether a child is currently managed.
    pub fn is_running(&self) -> (r: bool)
        ensures
            r == (self.running() is Some),
    {
        self.child.is_some()
    }

    /// Decides a start request. Starting while a child is managed is not an
    /// error: the plan is to do nothing and report it already running.
    pub fn plan_start(&self, port: u16) -> (r: StartPlan)
        ensures
            r == self.spec_plan_start(port),
    {
        match self.child {
            Some(_) => StartPlan::AlreadyRunning,
            None => StartPlan::Spawn { port },
        }
    }

    /// Records what came of the spawn the plan asked for: a pid on success,
    /// the OS error text otherwise. Only a spawn failure is an error; the
    /// state keeps the child exactly when the spawn succeeded.
    pub fn record_start_outcome(&mut self, port: u16, outcome: Result<u32, String>) -> (r: Result<
        StatusMessage,
        SupervisorError,
    >)
        requires
            old(self).running() is None,
        ensures
            match outcome {
                Ok(pid) => {
                    &&& *final(self) == old(self).spec_after_spawn(pid)
                    &&& final(self).running() == Some(pid)
                    &&& r == Ok::<StatusMessage, SupervisorError>(StatusMessage::Started { port })
                },
                Err(e) => {
                    &&& final(self).running() is None
                    &&& (r matches Err(SupervisorError::Spawn { detail }) && detail@ == e@)
                },
            },
    {
        match outcome {
            Ok(pid) => {
                self.child = Some(pid);
                Ok(StatusMessage::Started { port })
            },
            Err(e) => Err(SupervisorError::Spawn { detail: e }),
        }
    }

    /// Decides a stop request and clears the state. The child leaves the
    /// managed state before the host issues the kill: even a failing kill
    /// does not re-leak the handle. Stopping with nothing managed is not an
    /// error. A stop decision never fails.
    pub fn plan_stop(&mut self) -> (r: StopPlan)
        ensures
            (*final(self), r) == old(self).spec_plan_stop(),
            final(self).running() is None,
            match old(self).running() {
                Some(pid) => r == (StopPlan::Kill { pid }),
                None => r == StopPlan::AlreadyStopped && *final(self) == *old(self),
            },
    {
        match self.child {
            Some(pid) => {
                self.child = None;
                StopPlan::Kill { pid }
            },
            None => StopPlan::AlreadyStopped,
        }
    }
}

/// Turns what came of the kill a stop plan asked for into the operation's
/// result. The child is already un-managed either way.
pub fn finish_stop(outcome: Result<(), String>) -> (r: Result<StatusMessage, SupervisorError>)
    ensures
        match outcome {
            Ok(_) => r == Ok::<StatusMessage, SupervisorError>(StatusMessage::Stopped),
            Err(e) => (r matches Err(SupervisorError::Termination { detail }) && detail@ == e@),
        },
{
    match outcome {
        Ok(_) => Ok(StatusMessage::Stopped),
        Err(e) => Err(SupervisorError::Termination { detail: e }),
    }
}

impl StatusMessage {
    /// The view of `render()`, for stating contracts about the text.
    pub open spec fn render_view(self) -> Seq<char> {
        match self {
            StatusMessage::AlreadyRunning => "Kugou API server is already running"@,
            StatusMessage::Started { port } => "Kugou API server started on port "@ + spec_dec(
                port as nat,
            ),
            StatusMessage::AlreadyStopped => "Kugou API server is not running"@,
            StatusMessage::Stopped => "Kugou API server stopped"@,
        }
    }

    /// The status string shown to the caller; the started form names the
    /// port the helper was asked to serve on.
    pub fn render(&self) -> (r: String)
        ensures
            r@ == self.render_view(),
    {
        match self {
            StatusMessage::AlreadyRunning => "Kugou API server is already running".to_owned(),
            StatusMessage::Started { port } => {
                let mut r = "Kugou API server started on port ".to_owned();
                let digits = u64_to_dec(*port as u64);
                r.append(digits.as_str());
                r
            },
            StatusMessage::AlreadyStopped => "Kugou API server is not running".to_owned(),
            StatusMessage::Stopped => "Kugou API server stopped".to_owned(),
        }
    }
}

impl SupervisorError {
    /// The view of `message()`, for stating contracts about the text.
    pub open spec fn message_view(self) -> Seq<char> {
        match self {
            SupervisorError::Lock => "Supervisor lock is poisoned"@,
            SupervisorError::DirectoryResolution { detail } =>
                "Failed to resolve server directory: "@ + detail@,
            SupervisorError::Spawn { detail } => "Failed to start Kugou API server: "@ + detail@,
            SupervisorError::Termination { detail } => "Failed to stop Kugou API server: "@
                + detail@,
        }
    }

    /// A human-readable description of the failure.
    pub fn message(&self) -> (r: String)
        ensures
            r@ == self.message_view(),
    {
        match self {
            SupervisorError::Lock => "Supervisor lock is poisoned".to_owned(),
            SupervisorError::DirectoryResolution { detail } => {
                let mut r = "Failed to resolve server directory: ".to_owned();
                r.append(detail.as_str());
                r
            },
            SupervisorError::Spawn { detail } => {
                let mut r = "Failed to start Kugou API server: ".to_owned();
                r.append(detail.as_str());
                r
            },
            SupervisorError::Termination { detail } => {
                let mut r = "Failed to stop Kugou API server: ".to_owned();
                r.append(detail.as_str());
                r
            },
        }
    }
}

/// After a spawn is recorded, the recorded process is the managed one.
pub proof fn lemma_after_spawn_running(sup: Supervisor, pid: u32)
    ensures
        sup.spec_after_spawn(pid).running() == Some(pid),
{
}

/// Starting twice in succession without an intervening stop: once a spawn
/// is recorded, every later start decision reports the server as already
/// running and plans no second spawn, whatever port is asked for.
pub proof fn lemma_second_start_already_running(sup: Supervisor, pid: u32, port1: u16, port2: u16)
    requires
        sup.running() is None,
    ensures
        sup.spec_after_spawn(pid).spec_plan_start(port1) == StartPlan::AlreadyRunning,
        sup.spec_after_spawn(pid).spec_plan_start(port2) == StartPlan::AlreadyRunning,
{
}

/// A spawn is only ever planned from a state that manages nothing: at most
/// one child is live under the supervisor's lock.
pub proof fn lemma_spawn_only_when_idle(sup: Supervisor, port: u16)
    ensures
        sup.spec_plan_start(port) is Spawn ==> sup.running() is None,
{
}

/// Stopping when nothing runs succeeds with the already-stopped status,
/// changes nothing, and cannot fail: the decision carries no error case.
pub proof fn lemma_stop_when_stopped(sup: Supervisor)
    requires
        sup.running() is None,
    ensures
        sup.spec_plan_stop() == (sup, StopPlan::AlreadyStopped),
{
}

/// A start followed by a stop: the stop plan kills exactly the process the
/// start recorded, and afterwards nothing is managed.
pub proof fn lemma_start_then_stop_kills_started(sup: Supervisor, pid: u32)
    requires
        sup.running() is None,
    ensures
        sup.spec_after_spawn(pid).spec_plan_stop().1 == (StopPlan::Kill { pid }),
        sup.spec_after_spawn(pid).spec_plan_stop().0.running() is None,
{
}

} // verus!
