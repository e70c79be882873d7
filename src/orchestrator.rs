use vstd::prelude::*;

verus! {

/// The next thing the orchestrator does.
#[derive(Clone, Copy, Debug, PartialEq, Eq)]
pub enum OrchestratorAction {
    StartControl,
    StartWorker { index: u32 },
    /// Wait for worker `index`; report the result through `worker_joined`.
    JoinWorker { index: u32 },
    /// Clear the cancellation token under its lock.
    StopControl,
    JoinControl,
    Finish,
}

/// Progress of the orchestration: control loop first, then every worker
/// started, every worker joined, and only then the control loop cancelled and
/// joined.
#[derive(Clone, Copy, Debug, PartialEq, Eq)]
pub struct Orchestrator {
    pub thread_count: u32,
    pub control: bool,
    pub control_started: bool,
    pub started: u32,
    pub joined: u32,
    pub awaiting_join: bool,
    pub join_failures: u32,
    pub stopped: bool,
    pub control_joined: bool,
}

impl Orchestrator {
    pub open spec fn wf(&self) -> bool {
        &&& self.control_started ==> self.control
        &&& self.started <= self.thread_count
        &&& self.joined <= self.started
        &&& self.join_failures <= self.joined
        &&& self.control && self.started > 0 ==> self.control_started
        &&& self.awaiting_join ==> self.joined < self.started && self.started == self.thread_count
        &&& self.stopped ==> self.control_started && self.joined == self.thread_count && !self.awaiting_join
        &&& self.control_joined ==> self.stopped
    }

    /// The action that follows state `s`.
    pub open spec fn next_of(s: Orchestrator) -> OrchestratorAction {
        if s.control && !s.control_started {
            OrchestratorAction::StartControl
        } else if s.started < s.thread_count {
            OrchestratorAction::StartWorker { index: s.started }
        } else if s.joined < s.thread_count {
            OrchestratorAction::JoinWorker { index: s.joined }
        } else if s.control_started && !s.stopped {
            OrchestratorAction::StopControl
        } else if s.control_started && !s.control_joined {
            OrchestratorAction::JoinControl
        } else {
            OrchestratorAction::Finish
        }
    }

    /// The state once the action of `s` has been handed out.
    pub open spec fn after(s: Orchestrator) -> Orchestrator {
        match Self::next_of(s) {
            OrchestratorAction::StartControl => Orchestrator { control_started: true, ..s },
            OrchestratorAction::StartWorker { .. } => Orchestrator { started: (s.started + 1) as u32, ..s },
            OrchestratorAction::JoinWorker { .. } => Orchestrator { awaiting_join: true, ..s },
            OrchestratorAction::StopControl => Orchestrator { stopped: true, ..s },
            OrchestratorAction::JoinControl => Orchestrator { control_joined: true, ..s },
            OrchestratorAction::Finish => s,
        }
    }

    /// The state once a worker's join has returned, cleanly or not.
    pub open spec fn joined_with(s: Orchestrator, ok: bool) -> Orchestrator {
        Orchestrator {
            joined: (s.joined + 1) as u32,
            awaiting_join: false,
            join_failures: if ok { s.join_failures } else { (s.join_failures + 1) as u32 },
            ..s
        }
    }

    pub fn new(thread_count: u32, control: bool) -> (o: Self)
        ensures
            o.wf(),
            o == (Orchestrator {
                thread_count,
                control,
                control_started: false,
                started: 0,
                joined: 0,
                awaiting_join: false,
                join_failures: 0,
                stopped: false,
                control_joined: false,
            }),
    {
        Orchestrator {
            thread_count,
            control,
            control_started: false,
            started: 0,
            joined: 0,
            awaiting_join: false,
            join_failures: 0,
            stopped: false,
            control_joined: false,
        }
    }

    pub fn next_action(&mut self) -> (a: OrchestratorAction)
        requires
            old(self).wf(),
            !old(self).awaiting_join,
        ensures
            final(self).wf(),
            a == Self::next_of(*old(self)),
            *final(self) == Self::after(*old(self)),
    {
        if self.control && !self.control_started {
            self.control_started = true;
            OrchestratorAction::StartControl
        } else if self.started < self.thread_count {
            let index = self.started;
            self.started = self.started + 1;
            OrchestratorAction::StartWorker { index }
        } else if self.joined < self.thread_count {
            self.awaiting_join = true;
            OrchestratorAction::JoinWorker { index: self.joined }
        } else if self.control_started && !self.stopped {
            self.stopped = true;
            OrchestratorAction::StopControl
        } else if self.control_started && !self.control_joined {
            self.control_joined = true;
            OrchestratorAction::JoinControl
        } else {
            OrchestratorAction::Finish
        }
    }

    /// Records that the awaited worker's join returned; `ok` is false when the
    /// worker ended abnormally. Returns whether to report a join failure. The
    /// orchestration goes on either way.
    pub fn worker_joined(&mut self, ok: bool) -> (report: bool)
        requires
            old(self).wf(),
            old(self).awaiting_join,
        ensures
            final(self).wf(),
            report == !ok,
            *final(self) == Self::joined_with(*old(self), ok),
    {
        self.joined = self.joined + 1;
        self.awaiting_join = false;
        if !ok {
            self.join_failures = self.join_failures + 1;
        }
        !ok
    }
}

/// Join failures do not change the course of the orchestration: whatever a
/// worker's join returned, the next action is the same, and once the last
/// worker has been joined a started control loop is cancelled next.
pub proof fn lemma_join_failures_do_not_block(s: Orchestrator, ok: bool)
    requires
        s.wf(),
        s.awaiting_join,
    ensures
        Orchestrator::joined_with(s, ok).wf(),
        Orchestrator::next_of(Orchestrator::joined_with(s, ok))
            == Orchestrator::next_of(Orchestrator::joined_with(s, true)),
        Orchestrator::after(Orchestrator::joined_with(s, ok)).stopped
            == Orchestrator::after(Orchestrator::joined_with(s, true)).stopped,
        s.joined + 1 == s.thread_count && s.control ==> Orchestrator::next_of(
            Orchestrator::joined_with(s, ok),
        ) == OrchestratorAction::StopControl,
{
}

} // verus!
