use vstd::prelude::*;

verus! {

/// What a worker asks its driver to do next.
#[derive(Clone, Copy, Debug, PartialEq, Eq)]
pub enum WorkerAction {
    /// A new burst of `len` planned requests begins.
    StartBurst { len: u32 },
    /// Perform one request and report its outcome through `record`.
    Request,
    /// Block for `millis` milliseconds before the next burst.
    Sleep { millis: u32 },
    /// The request budget is spent: the worker is finished.
    Done,
}

/// Per-worker scheduling state, owned by the worker's thread.
#[derive(Clone, Copy, Debug, PartialEq, Eq)]
pub struct WorkerRunState {
    /// Requests configured for this worker.
    pub total: u32,
    /// Requests of the budget not yet spent (attempted or forfeited).
    pub remaining: u32,
    /// Planned requests of the current burst not yet attempted.
    pub burst_remaining: u32,
    /// Whether the most recent request of the current burst succeeded.
    pub clean: bool,
    /// Whether a burst is open.
    pub in_burst: bool,
}

pub open spec fn min_nat(a: nat, b: nat) -> nat {
    if a <= b { a } else { b }
}

impl WorkerRunState {
    pub open spec fn wf(&self) -> bool {
        &&& self.remaining <= self.total
        &&& self.burst_remaining <= self.remaining
        &&& !self.in_burst ==> self.burst_remaining == 0 && self.clean
    }

    /// A fresh worker with a budget of `total` requests.
    pub fn new(total: u32) -> (s: Self)
        ensures
            s.wf(),
            s.total == total,
            s.remaining == total,
            s.burst_remaining == 0,
            s.clean,
            !s.in_burst,
    {
        WorkerRunState { total, remaining: total, burst_remaining: 0, clean: true, in_burst: false }
    }

    pub fn is_done(&self) -> (r: bool)
        ensures
            r == (self.remaining == 0),
    {
        self.remaining == 0
    }

    /// Opens a burst of `min(burst_size, remaining)` planned requests.
    pub fn start_burst(&mut self, burst_size: u32) -> (len: u32)
        requires
            old(self).wf(),
            !old(self).in_burst,
            old(self).remaining > 0,
        ensures
            final(self).wf(),
            len as nat == min_nat(burst_size as nat, old(self).remaining as nat),
            *final(self) == (WorkerRunState { burst_remaining: len, in_burst: true, ..*old(self) }),
    {
        let len = if burst_size <= self.remaining { burst_size } else { self.remaining };
        self.burst_remaining = len;
        self.in_burst = true;
        len
    }

    /// Accounts for one attempted request of the open burst and returns its
    /// 1-based iteration number. A failed request closes the burst early: its
    /// unsent requests are forfeited from the budget and never attempted.
    /// A worker therefore sends fewer requests than configured whenever a
    /// burst is cut short; no request is retried.
    pub fn record(&mut self, succeeded: bool) -> (iteration: u32)
        requires
            old(self).wf(),
            old(self).in_burst,
            old(self).burst_remaining > 0,
        ensures
            final(self).wf(),
            final(self).in_burst,
            final(self).total == old(self).total,
            final(self).clean == succeeded,
            iteration as int == old(self).total - old(self).remaining + 1,
            1 <= iteration <= old(self).total,
            final(self).remaining < old(self).remaining,
            succeeded ==> final(self).remaining == old(self).remaining - 1
                && final(self).burst_remaining == old(self).burst_remaining - 1,
            !succeeded ==> final(self).remaining == old(self).remaining - old(self).burst_remaining
                && final(self).burst_remaining == 0,
    {
        self.remaining = self.remaining - 1;
        self.burst_remaining = self.burst_remaining - 1;
        let iteration = self.total - self.remaining;
        self.clean = succeeded;
        if !succeeded {
            self.remaining = self.remaining - self.burst_remaining;
            self.burst_remaining = 0;
        }
        iteration
    }

    /// Closes a finished burst and decides whether to sleep before the next:
    /// only after a clean burst, with requests left and a positive delay.
    pub fn end_burst(&mut self, delay: u32) -> (sleep: bool)
        requires
            old(self).wf(),
            old(self).in_burst,
            old(self).burst_remaining == 0,
        ensures
            final(self).wf(),
            sleep == (old(self).clean && old(self).remaining > 0 && delay > 0),
            delay == 0 ==> !sleep,
            *final(self) == (WorkerRunState { in_burst: false, clean: true, ..*old(self) }),
    {
        let sleep = self.clean && self.remaining > 0 && delay > 0;
        self.in_burst = false;
        self.clean = true;
        sleep
    }

    /// The next step of the burst/sleep cycle. An exhausted burst is closed
    /// here (see `end_burst`); without a sleep the next burst is opened at once.
    pub fn next_action(&mut self, burst_size: u32, delay: u32) -> (a: WorkerAction)
        requires
            old(self).wf(),
        ensures
            final(self).wf(),
            final(self).total == old(self).total,
            final(self).remaining == old(self).remaining,
            old(self).in_burst && old(self).burst_remaining > 0 ==> a == WorkerAction::Request
                && *final(self) == *old(self),
            a == WorkerAction::Request ==> old(self).in_burst && old(self).burst_remaining > 0,
            a is Sleep <==> old(self).in_burst && old(self).burst_remaining == 0 && old(self).clean
                && old(self).remaining > 0 && delay > 0,
            a is Sleep ==> a == (WorkerAction::Sleep { millis: delay })
                && *final(self) == (WorkerRunState { in_burst: false, clean: true, ..*old(self) }),
            a == WorkerAction::Done <==> old(self).remaining == 0,
            a == WorkerAction::Done ==> *final(self) == (WorkerRunState {
                in_burst: false,
                clean: true,
                burst_remaining: 0,
                ..*old(self)
            }),
            a is StartBurst ==> a == (WorkerAction::StartBurst { len: final(self).burst_remaining })
                && final(self).burst_remaining as nat == min_nat(burst_size as nat, old(self).remaining as nat)
                && *final(self) == (WorkerRunState {
                    in_burst: true,
                    clean: true,
                    burst_remaining: final(self).burst_remaining,
                    ..*old(self)
                }),
    {
        if self.in_burst {
            if self.burst_remaining > 0 {
                return WorkerAction::Request;
            }
            if self.end_burst(delay) {
                return WorkerAction::Sleep { millis: delay };
            }
        }
        if self.remaining == 0 {
            WorkerAction::Done
        } else {
            let len = self.start_burst(burst_size);
            WorkerAction::StartBurst { len }
        }
    }
}

/// A burst start is announced only for bursts of more than one request.
pub fn announces_burst(len: u32) -> (r: bool)
    ensures
        r == (len > 1),
{
    len > 1
}

/// Progress is shown on every iteration that is a multiple of `every`; an
/// interval of zero shows none.
pub fn shows_progress(iteration: u32, every: u32) -> (r: bool)
    ensures
        r == (every > 0 && iteration % every == 0),
{
    every > 0 && iteration % every == 0
}

/// What one burst of a run amounted to.
#[derive(Clone, Copy, Debug, PartialEq, Eq)]
pub struct BurstReport {
    /// Requests the burst was opened with.
    pub planned: u32,
    /// Requests actually attempted: up to and including the first failure.
    pub attempted: u32,
    /// Whether the worker slept after the burst.
    pub slept: bool,
}

/// The outcome of the request at position `i` of a run; positions past the
/// end of `outs` succeed.
pub open spec fn ok_at(outs: Seq<bool>, i: int) -> bool {
    i < 0 || i >= outs.len() || outs[i]
}

/// Requests attempted by a burst of `len` planned requests whose first request
/// is at position `start`: up to the first failure, or all of them.
pub open spec fn burst_attempts(outs: Seq<bool>, start: int, len: nat) -> nat
    decreases len,
{
    if len == 0 {
        0
    } else if !ok_at(outs, start) {
        1
    } else {
        1 + burst_attempts(outs, start + 1, (len - 1) as nat)
    }
}

/// The bursts of a worker with `remaining` requests of budget, whose next
/// request is at position `start` of the run. A burst spends its whole planned
/// length from the budget, attempted or forfeited.
pub open spec fn plan(outs: Seq<bool>, start: int, remaining: nat, burst: nat, delay: nat) -> Seq<BurstReport>
    decreases remaining,
{
    if remaining == 0 || burst == 0 {
        seq![]
    } else {
        let len = min_nat(burst, remaining);
        let a = burst_attempts(outs, start, len);
        let slept = ok_at(outs, start + a - 1) && remaining - len > 0 && delay > 0;
        seq![BurstReport { planned: len as u32, attempted: a as u32, slept }]
            + plan(outs, start + a, (remaining - len) as nat, burst, delay)
    }
}

pub open spec fn total_planned(s: Seq<BurstReport>) -> nat
    decreases s.len(),
{
    if s.len() == 0 { 0 } else { s[0].planned as nat + total_planned(s.drop_first()) }
}

pub open spec fn total_attempted(s: Seq<BurstReport>) -> nat
    decreases s.len(),
{
    if s.len() == 0 { 0 } else { s[0].attempted as nat + total_attempted(s.drop_first()) }
}

proof fn lemma_burst_attempts_bounds(outs: Seq<bool>, start: int, len: nat)
    ensures
        burst_attempts(outs, start, len) <= len,
        len > 0 ==> burst_attempts(outs, start, len) >= 1,
    decreases len,
{
    if len > 0 {
        lemma_burst_attempts_bounds(outs, start + 1, (len - 1) as nat);
    }
}

/// Runs one worker's schedule against a sequence of request outcomes
/// (`outcomes[i]` for the request at position `i`; later ones succeed) and
/// reports each burst.
pub fn run_worker(requests: u32, burst_size: u32, delay: u32, outcomes: &Vec<bool>) -> (r: Vec<BurstReport>)
    requires
        burst_size > 0 || requests == 0,
    ensures
        r@ == plan(outcomes@, 0, requests as nat, burst_size as nat, delay as nat),
{
    let ghost outs = outcomes@;
    let mut st = WorkerRunState::new(requests);
    let mut idx: usize = 0;
    let mut out: Vec<BurstReport> = Vec::new();
    while !st.is_done()
        invariant
            st.wf(),
            !st.in_burst,
            st.total == requests,
            burst_size > 0 || requests == 0,
            idx as nat <= requests - st.remaining,
            outs == outcomes@,
            out@ + plan(outs, idx as int, st.remaining as nat, burst_size as nat, delay as nat)
                == plan(outs, 0, requests as nat, burst_size as nat, delay as nat),
        decreases st.remaining,
    {
        let ghost rem_before = st.remaining as nat;
        let start = idx;
        let len = st.start_burst(burst_size);
        let mut attempted: u32 = 0;
        while st.burst_remaining > 0
            invariant
                st.wf(),
                st.in_burst,
                st.total == requests,
                outs == outcomes@,
                idx as nat <= requests - st.remaining,
                0 < len <= rem_before,
                attempted <= len,
                idx == start + attempted,
                st.clean ==> st.burst_remaining == len - attempted
                    && st.remaining == rem_before - attempted
                    && burst_attempts(outs, start as int, len as nat)
                        == attempted + burst_attempts(outs, idx as int, (len - attempted) as nat)
                    && (attempted > 0 ==> ok_at(outs, idx - 1)),
                !st.clean ==> st.burst_remaining == 0
                    && st.remaining == rem_before - len
                    && attempted >= 1
                    && burst_attempts(outs, start as int, len as nat) == attempted
                    && !ok_at(outs, idx - 1),
            decreases st.burst_remaining,
        {
            let ok = idx >= outcomes.len() || outcomes[idx];
            assert(ok == ok_at(outs, idx as int));
            st.record(ok);
            idx = idx + 1;
            attempted = attempted + 1;
        }
        let slept = st.end_burst(delay);
        let report = BurstReport { planned: len, attempted, slept };
        let ghost rest = plan(outs, idx as int, st.remaining as nat, burst_size as nat, delay as nat);
        assert(plan(outs, start as int, rem_before, burst_size as nat, delay as nat)
            == seq![report] + rest);
        assert(out@.push(report) + rest =~= out@ + (seq![report] + rest));
        out.push(report);
    }
    out
}

proof fn lemma_burst_full(outs: Seq<bool>, start: int, len: nat)
    requires
        forall|i: int| start <= i < start + len ==> #[trigger] ok_at(outs, i),
    ensures
        burst_attempts(outs, start, len) == len,
    decreases len,
{
    if len > 0 {
        lemma_burst_full(outs, start + 1, (len - 1) as nat);
    }
}

proof fn lemma_burst_cut(outs: Seq<bool>, start: int, len: nat, k: nat)
    requires
        1 <= k <= len,
        forall|j: int| start <= j < start + k - 1 ==> #[trigger] ok_at(outs, j),
        !ok_at(outs, start + k - 1),
    ensures
        burst_attempts(outs, start, len) == k,
    decreases k,
{
    if k > 1 {
        assert(ok_at(outs, start));
        lemma_burst_cut(outs, start + 1, (len - 1) as nat, (k - 1) as nat);
    }
}

proof fn lemma_plan_totals(outs: Seq<bool>, start: int, remaining: nat, burst: nat, delay: nat)
    requires
        burst > 0,
        burst <= u32::MAX,
    ensures
        ({
            let p = plan(outs, start, remaining, burst, delay);
            &&& total_planned(p) == remaining
            &&& forall|k: int| 0 <= k < p.len() ==> #[trigger] p[k].attempted <= p[k].planned
            &&& total_attempted(p) <= remaining
            &&& total_attempted(p) == remaining <==> forall|k: int| 0 <= k < p.len()
                ==> #[trigger] p[k].attempted == p[k].planned
            &&& (forall|i: int| start <= i < start + remaining ==> #[trigger] ok_at(outs, i))
                ==> total_attempted(p) == remaining
        }),
    decreases remaining,
{
    if remaining > 0 {
        let len = min_nat(burst, remaining);
        let a = burst_attempts(outs, start, len);
        lemma_burst_attempts_bounds(outs, start, len);
        let slept = ok_at(outs, start + a - 1) && remaining - len > 0 && delay > 0;
        let r = BurstReport { planned: len as u32, attempted: a as u32, slept };
        let rest = plan(outs, start + a, (remaining - len) as nat, burst, delay);
        lemma_plan_totals(outs, start + a, (remaining - len) as nat, burst, delay);
        let p = plan(outs, start, remaining, burst, delay);
        assert(p == seq![r] + rest);
        assert(p.drop_first() =~= rest);
        assert(p[0] == r);
        assert forall|k: int| 0 <= k < p.len() implies #[trigger] p[k].attempted <= p[k].planned by {
            if k > 0 {
                assert(p[k] == rest[k - 1]);
            }
        }
        if total_attempted(p) == remaining {
            assert forall|k: int| 0 <= k < p.len() implies #[trigger] p[k].attempted == p[k].planned by {
                if k > 0 {
                    assert(p[k] == rest[k - 1]);
                }
            }
        }
        if forall|k: int| 0 <= k < p.len() ==> #[trigger] p[k].attempted == p[k].planned {
            assert forall|k: int| 0 <= k < rest.len() implies #[trigger] rest[k].attempted == rest[k].planned by {
                assert(p[k + 1] == rest[k]);
            }
            assert(p[0].attempted == p[0].planned);
        }
        if forall|i: int| start <= i < start + remaining ==> #[trigger] ok_at(outs, i) {
            lemma_burst_full(outs, start, len);
        }
    }
}

/// Budget law: the requests a worker attempts never exceed its
/// requests-per-thread; the budget is spent exactly, burst by burst; and the
/// attempts reach the budget exactly when no burst was cut short, in
/// particular when no request failed.
pub proof fn lemma_attempts_within_budget(outs: Seq<bool>, requests: u32, burst: u32, delay: u32)
    requires
        burst > 0,
    ensures
        ({
            let p = plan(outs, 0, requests as nat, burst as nat, delay as nat);
            &&& total_planned(p) == requests
            &&& total_attempted(p) <= requests
            &&& total_attempted(p) == requests <==> forall|k: int| 0 <= k < p.len()
                ==> #[trigger] p[k].attempted == p[k].planned
            &&& (forall|i: int| 0 <= i < requests ==> #[trigger] ok_at(outs, i))
                ==> total_attempted(p) == requests
        }),
{
    lemma_plan_totals(outs, 0, requests as nat, burst as nat, delay as nat);
}

proof fn lemma_single_bursts_from(outs: Seq<bool>, start: int, remaining: nat, delay: nat)
    ensures
        ({
            let p = plan(outs, start, remaining, 1, delay);
            &&& p.len() == remaining
            &&& forall|k: int| 0 <= k < remaining ==> (#[trigger] p[k]) == (BurstReport {
                planned: 1,
                attempted: 1,
                slept: ok_at(outs, start + k) && k + 1 < remaining && delay > 0,
            })
        }),
    decreases remaining,
{
    if remaining > 0 {
        lemma_single_bursts_from(outs, start + 1, (remaining - 1) as nat, delay);
        let p = plan(outs, start, remaining, 1, delay);
        let rest = plan(outs, start + 1, (remaining - 1) as nat, 1, delay);
        assert(burst_attempts(outs, start, 1) == 1) by {
            reveal_with_fuel(burst_attempts, 2);
        }
        assert forall|k: int| 0 <= k < remaining implies (#[trigger] p[k]) == (BurstReport {
            planned: 1,
            attempted: 1,
            slept: ok_at(outs, start + k) && k + 1 < remaining && delay > 0,
        }) by {
            if k > 0 {
                assert(p[k] == rest[k - 1]);
                assert(start + 1 + (k - 1) == start + k);
            }
        }
    }
}

/// Single-request bursts: with a burst size of one, every request is its own
/// burst, and the worker sleeps after a request exactly when it succeeded, it
/// is not the last one, and the delay is positive.
pub proof fn lemma_single_request_bursts(outs: Seq<bool>, requests: u32, delay: u32)
    ensures
        ({
            let p = plan(outs, 0, requests as nat, 1, delay as nat);
            &&& p.len() == requests
            &&& forall|k: int| 0 <= k < requests ==> (#[trigger] p[k]) == (BurstReport {
                planned: 1,
                attempted: 1,
                slept: ok_at(outs, k) && k + 1 < requests && delay > 0,
            })
        }),
{
    lemma_single_bursts_from(outs, 0, requests as nat, delay as nat);
}

proof fn lemma_no_delay_from(outs: Seq<bool>, start: int, remaining: nat, burst: nat)
    ensures
        forall|k: int| 0 <= k < plan(outs, start, remaining, burst, 0).len()
            ==> !(#[trigger] plan(outs, start, remaining, burst, 0)[k]).slept,
    decreases remaining,
{
    if remaining > 0 && burst > 0 {
        let len = min_nat(burst, remaining);
        let a = burst_attempts(outs, start, len);
        lemma_no_delay_from(outs, start + a, (remaining - len) as nat, burst);
        let p = plan(outs, start, remaining, burst, 0);
        let rest = plan(outs, start + a, (remaining - len) as nat, burst, 0);
        assert forall|k: int| 0 <= k < p.len() implies !(#[trigger] p[k]).slept by {
            if k > 0 {
                assert(p[k] == rest[k - 1]);
            }
        }
    }
}

/// Without a delay a worker never sleeps, whatever the outcomes.
pub proof fn lemma_no_delay_never_sleeps(outs: Seq<bool>, requests: u32, burst: u32)
    ensures
        forall|k: int| 0 <= k < plan(outs, 0, requests as nat, burst as nat, 0).len()
            ==> !(#[trigger] plan(outs, 0, requests as nat, burst as nat, 0)[k]).slept,
{
    lemma_no_delay_from(outs, 0, requests as nat, burst as nat);
}

/// Fail-fast: when the `k`-th request of a burst of `b` planned requests is
/// the first to fail, exactly `k` are attempted, `b - k` are skipped, and the
/// worker goes on to its next burst without sleeping, whatever the delay,
/// starting from the request that follows the failed one.
pub proof fn lemma_failure_cuts_burst(outs: Seq<bool>, start: int, remaining: u32, burst: u32, delay: u32, k: nat)
    requires
        burst > 0,
        remaining > 0,
        1 <= k <= min_nat(burst as nat, remaining as nat),
        forall|j: int| start <= j < start + k - 1 ==> #[trigger] ok_at(outs, j),
        !ok_at(outs, start + k - 1),
    ensures
        ({
            let b = plan(outs, start, remaining as nat, burst as nat, delay as nat)[0];
            &&& b.planned == min_nat(burst as nat, remaining as nat)
            &&& b.attempted == k
            &&& b.planned - b.attempted == min_nat(burst as nat, remaining as nat) - k
            &&& !b.slept
            &&& plan(outs, start, remaining as nat, burst as nat, delay as nat).drop_first() == plan(
                outs,
                start + k,
                (remaining - min_nat(burst as nat, remaining as nat)) as nat,
                burst as nat,
                delay as nat,
            )
        }),
{
    let len = min_nat(burst as nat, remaining as nat);
    lemma_burst_cut(outs, start, len, k);
    let p = plan(outs, start, remaining as nat, burst as nat, delay as nat);
    assert(p.drop_first() =~= plan(outs, start + k, (remaining - len) as nat, burst as nat, delay as nat));
}

} // verus!
