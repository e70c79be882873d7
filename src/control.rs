use vstd::prelude::*;

verus! {

/// What the control loop asks its driver to do at the top of an iteration.
#[derive(Clone, Copy, Debug, PartialEq, Eq)]
pub enum ControlAction {
    /// Perform one request and report it through `record`.
    Request,
    /// Cancellation was observed: stop after `iterations` requests.
    Close { iterations: u64 },
}

/// What the driver reports after a control-loop request.
#[derive(Clone, Copy, Debug, PartialEq, Eq)]
pub enum ControlNotice {
    Quiet,
    /// A periodic progress line for this iteration.
    Progress { iteration: u64 },
    /// The request of this iteration failed.
    Abandoned { iteration: u64 },
}

/// Iterations between two progress lines of the control loop.
pub const CONTROL_PROGRESS_EVERY: u64 = 10;

/// State of the unbounded control loop: the requests performed so far, and
/// whether it has observed cancellation.
#[derive(Clone, Copy, Debug, PartialEq, Eq)]
pub struct ControlLoop {
    pub iterations: u64,
    pub closed: bool,
}

impl ControlLoop {
    pub fn new() -> (c: Self)
        ensures
            c.iterations == 0,
            !c.closed,
    {
        ControlLoop { iterations: 0, closed: false }
    }

    /// Decides, from the token read at the top of an iteration, whether to
    /// perform another request. Once cancellation is observed the loop is
    /// closed for good: no later call starts an iteration.
    pub fn next_action(&mut self, running: bool) -> (a: ControlAction)
        ensures
            final(self).iterations == old(self).iterations,
            !old(self).closed && running ==> a == ControlAction::Request && !final(self).closed,
            old(self).closed || !running ==> a == (ControlAction::Close { iterations: old(self).iterations })
                && final(self).closed,
            old(self).closed ==> a != ControlAction::Request,
    {
        if self.closed || !running {
            self.closed = true;
            ControlAction::Close { iterations: self.iterations }
        } else {
            ControlAction::Request
        }
    }

    /// Counts one performed request (saturating at the counter's limit) and
    /// says what to report about it: a failure names its iteration, a success
    /// on every tenth iteration gives a progress line.
    pub fn record(&mut self, succeeded: bool) -> (n: ControlNotice)
        requires
            !old(self).closed,
        ensures
            !final(self).closed,
            final(self).iterations == (if old(self).iterations < u64::MAX {
                old(self).iterations + 1
            } else {
                old(self).iterations as int
            }),
            !succeeded ==> n == (ControlNotice::Abandoned { iteration: final(self).iterations }),
            succeeded && final(self).iterations % CONTROL_PROGRESS_EVERY == 0
                ==> n == (ControlNotice::Progress { iteration: final(self).iterations }),
            succeeded && final(self).iterations % CONTROL_PROGRESS_EVERY != 0 ==> n == ControlNotice::Quiet,
    {
        if self.iterations < u64::MAX {
            self.iterations = self.iterations + 1;
        }
        if !succeeded {
            ControlNotice::Abandoned { iteration: self.iterations }
        } else if self.iterations % CONTROL_PROGRESS_EVERY == 0 {
            ControlNotice::Progress { iteration: self.iterations }
        } else {
            ControlNotice::Quiet
        }
    }
}

} // verus!
