use vstd::prelude::*;

verus! {

/// Result of a competitive booking race.
pub enum BookingOutcome {
    /// One worker won the claim; `attempts` is the total issued by all workers.
    Success { attempts: u64 },
    /// Every worker ran out of retries; total attempts and sample error messages.
    Exhausted { attempts: u64, errors: Vec<String> },
}

impl BookingOutcome {
    pub open spec fn attempt_count(&self) -> u64 {
        match self {
            BookingOutcome::Success { attempts } => *attempts,
            BookingOutcome::Exhausted { attempts, .. } => *attempts,
        }
    }

    pub open spec fn is_success(&self) -> bool {
        self is Success
    }

    /// Total attempts issued during the race.
    pub fn attempts(&self) -> (r: u64)
        ensures
            r == self.attempt_count(),
    {
        match self {
            BookingOutcome::Success { attempts } => *attempts,
            BookingOutcome::Exhausted { attempts, .. } => *attempts,
        }
    }

    /// Whether the race was won.
    pub fn succeeded(&self) -> (r: bool)
        ensures
            r == self.is_success(),
    {
        match self {
            BookingOutcome::Success { .. } => true,
            BookingOutcome::Exhausted { .. } => false,
        }
    }
}

/// The state shared by all workers of one race: the success flag and the
/// attempt counter.
#[derive(Clone, Copy, Debug)]
pub struct RaceState {
    pub success: bool,
    pub attempts: u64,
}

impl RaceState {
    /// A fresh race: no success, no attempts.
    pub fn new() -> (r: RaceState)
        ensures
            !r.success,
            r.attempts == 0,
    {
        RaceState { success: false, attempts: 0 }
    }

    /// A worker about to attempt: if the flag is set it must stop, otherwise
    /// the attempt is counted. Returns whether to attempt.
    pub fn begin_attempt(&mut self) -> (go: bool)
        requires
            old(self).attempts < u64::MAX,
        ensures
            go == !old(self).success,
            final(self).success == old(self).success,
            final(self).attempts == old(self).attempts + if go { 1int } else { 0int },
    {
        if self.success {
            false
        } else {
            self.attempts = self.attempts + 1;
            true
        }
    }

    /// A worker whose attempt succeeded sets the flag; only the one that
    /// changes it from unset to set is the winner.
    pub fn claim_success(&mut self) -> (won: bool)
        ensures
            won == !old(self).success,
            final(self).success,
            final(self).attempts == old(self).attempts,
    {
        let won = !self.success;
        self.success = true;
        won
    }

    /// The race's outcome once every worker has finished.
    pub fn outcome(&self, errors: Vec<String>) -> (r: BookingOutcome)
        ensures
            r.attempt_count() == self.attempts,
            r.is_success() == self.success,
            !self.success ==> r == (BookingOutcome::Exhausted { attempts: self.attempts, errors }),
    {
        race_outcome(self.success, self.attempts, errors)
    }
}

/// `Success` when the flag is set, else `Exhausted`, with the attempt total.
pub fn race_outcome(success: bool, attempts: u64, errors: Vec<String>) -> (r: BookingOutcome)
    ensures
        success ==> r == (BookingOutcome::Success { attempts }),
        !success ==> r == (BookingOutcome::Exhausted { attempts, errors }),
{
    if success {
        BookingOutcome::Success { attempts }
    } else {
        BookingOutcome::Exhausted { attempts, errors }
    }
}

/// The largest retry budget whose every backoff delay fits in a `u64`.
pub const MAX_RETRIES: u64 = 368_934_881_474_191_032;

/// Milliseconds to wait after the failed attempt of index `retry`: linear in it.
pub open spec fn backoff_ms(retry: nat) -> nat {
    50 * (retry + 1)
}

/// The wait after the failed attempt of index `retry`.
pub fn backoff_delay_ms(retry: u64) -> (r: u64)
    requires
        retry < MAX_RETRIES,
    ensures
        r == backoff_ms(retry as nat),
{
    50 * (retry + 1)
}

/// After the failed attempt of index `retry`, out of `retries`: the wait
/// before the next attempt, or `None` when the worker has no retries left.
pub fn after_failure(retry: u64, retries: u64) -> (r: Option<u64>)
    requires
        retry < retries,
        retries <= MAX_RETRIES,
    ensures
        retry + 1 < retries ==> r == Some(backoff_ms(retry as nat) as u64),
        retry + 1 >= retries ==> r is None,
{
    if retry + 1 < retries {
        Some(backoff_delay_ms(retry))
    } else {
        None
    }
}

/// The delays never shrink as the retry index grows.
pub proof fn lemma_backoff_non_decreasing(a: nat, b: nat)
    requires
        a <= b,
    ensures
        backoff_ms(a) <= backoff_ms(b),
{
}

/// One worker as the race driver tracks it.
#[derive(Clone, Copy, Debug)]
pub struct WorkerSim {
    /// Index of the next attempt (or of the one in flight).
    pub next: u64,
    /// Attempts this worker has issued (counted on the shared counter).
    pub issued: u64,
    /// An attempt has been counted and its result is not yet known.
    pub in_flight: bool,
    pub done: bool,
    /// This worker set the success flag.
    pub won: bool,
    /// This worker ended because the flag was already set.
    pub stopped: bool,
}

/// The result of the `k`-th attempt of worker `w` in a synthetic plan;
/// attempts beyond the plan fail.
pub open spec fn planned(results: Seq<Vec<bool>>, w: int, k: int) -> bool {
    0 <= w < results.len() && 0 <= k < results[w]@.len() && results[w]@[k]
}

/// The attempts issued by all workers together.
pub open spec fn issued_total(ws: Seq<WorkerSim>) -> int
    decreases ws.len(),
{
    if ws.len() == 0 {
        0
    } else {
        issued_total(ws.drop_last()) + ws.last().issued
    }
}

/// What holds of worker `w` at every point of a race.
pub open spec fn worker_ok(
    x: WorkerSim,
    retries: u64,
    results: Seq<Vec<bool>>,
    w: int,
    success: bool,
) -> bool {
    &&& x.next <= retries
    &&& x.issued == x.next || (x.issued == x.next + 1 && x.next < retries)
    &&& x.in_flight || x.won ==> x.issued == x.next + 1
    &&& !(x.in_flight || x.won || x.stopped) ==> x.issued == x.next
    &&& x.in_flight ==> !x.done
    &&& x.won ==> x.done && !x.in_flight && !x.stopped && planned(results, w, x.next as int)
        && success
    &&& x.stopped ==> x.done && !x.in_flight && success
    &&& forall|k: int| 0 <= k < x.next ==> !planned(results, w, k)
    &&& x.done && !x.won && !x.stopped ==> x.next == retries
}

/// What holds of all workers and the shared state at every point of a race.
pub open spec fn race_ok(
    ws: Seq<WorkerSim>,
    st: RaceState,
    retries: u64,
    results: Seq<Vec<bool>>,
) -> bool {
    &&& forall|w: int| 0 <= w < ws.len() ==> #[trigger] worker_ok(ws[w], retries, results, w, st.success)
    &&& st.attempts == issued_total(ws)
    &&& st.success <==> exists|w: int| 0 <= w < ws.len() && #[trigger] ws[w].won
    &&& forall|a: int, b: int|
        0 <= a < ws.len() && 0 <= b < ws.len() && #[trigger] ws[a].won && #[trigger] ws[b].won
            ==> a == b
}

proof fn lemma_total_update(ws: Seq<WorkerSim>, i: int, x: WorkerSim)
    requires
        0 <= i < ws.len(),
    ensures
        issued_total(ws.update(i, x)) == issued_total(ws) - ws[i].issued + x.issued,
    decreases ws.len(),
{
    let u = ws.update(i, x);
    if i == ws.len() - 1 {
        assert(u.drop_last() =~= ws.drop_last());
    } else {
        lemma_total_update(ws.drop_last(), i, x);
        assert(u.drop_last() =~= ws.drop_last().update(i, x));
    }
}

proof fn lemma_total_bounded(ws: Seq<WorkerSim>, bound: u64)
    requires
        forall|w: int| 0 <= w < ws.len() ==> #[trigger] ws[w].issued <= bound,
    ensures
        0 <= issued_total(ws) <= ws.len() * bound,
    decreases ws.len(),
{
    if ws.len() > 0 {
        let d = ws.drop_last();
        assert forall|w: int| 0 <= w < d.len() implies #[trigger] d[w].issued <= bound by {
            assert(d[w] == ws[w]);
        }
        lemma_total_bounded(d, bound);
        assert(ws.len() * bound == d.len() * bound + bound) by (nonlinear_arith)
            requires
                ws.len() == d.len() + 1,
        ;
    }
}

proof fn lemma_total_uniform(ws: Seq<WorkerSim>, n: u64)
    requires
        forall|w: int| 0 <= w < ws.len() ==> #[trigger] ws[w].issued == n,
    ensures
        issued_total(ws) == ws.len() * n,
    decreases ws.len(),
{
    if ws.len() > 0 {
        let d = ws.drop_last();
        assert forall|w: int| 0 <= w < d.len() implies #[trigger] d[w].issued == n by {
            assert(d[w] == ws[w]);
        }
        lemma_total_uniform(d, n);
        assert(ws.len() * n == d.len() * n + n) by (nonlinear_arith)
            requires
                ws.len() == d.len() + 1,
        ;
    }
}

/// How far worker `x` is from finishing: it shrinks with every step.
pub open spec fn steps_left(x: WorkerSim, retries: u64) -> nat {
    if x.done {
        0
    } else if x.in_flight {
        (2 * (retries - x.next)) as nat
    } else {
        (2 * (retries - x.next) + 1) as nat
    }
}

fn planned_result(results: &Vec<Vec<bool>>, w: usize, k: u64) -> (r: bool)
    ensures
        r == planned(results@, w as int, k as int),
{
    if w < results.len() && k < results[w].len() as u64 {
        results[w][k as usize]
    } else {
        false
    }
}

/// Advances worker `w` by one step: start an attempt (or stop), or finish the
/// attempt in flight with its planned result.
fn step_worker(
    ws: &mut Vec<WorkerSim>,
    st: &mut RaceState,
    w: usize,
    retries: u64,
    results: &Vec<Vec<bool>>,
)
    requires
        w < old(ws)@.len(),
        race_ok(old(ws)@, *old(st), retries, results@),
        old(ws)@.len() * retries < u64::MAX,
        retries <= MAX_RETRIES,
    ensures
        race_ok(final(ws)@, *final(st), retries, results@),
        final(ws)@.len() == old(ws)@.len(),
        forall|v: int| 0 <= v < old(ws)@.len() && v != w ==> final(ws)@[v] == old(ws)@[v],
        old(ws)@[w as int].done ==> final(ws)@[w as int] == old(ws)@[w as int] && *final(st)
            == *old(st),
        !old(ws)@[w as int].done ==> steps_left(final(ws)@[w as int], retries) < steps_left(
            old(ws)@[w as int],
            retries,
        ),
{
    let ghost ws0 = ws@;
    let ghost st0 = *st;
    let x = ws[w];
    if x.done {
        return;
    }
    proof {
        assert(worker_ok(ws0[w as int], retries, results@, w as int, st0.success));
    }
    let mut y = x;
    if !x.in_flight {
        if x.next >= retries {
            y.done = true;
        } else {
            proof {
                assert forall|v: int| 0 <= v < ws0.len() implies #[trigger] ws0[v].issued
                    <= retries by {
                    assert(worker_ok(ws0[v], retries, results@, v, st0.success));
                }
                lemma_total_bounded(ws0, retries);
            }
            if st.begin_attempt() {
                y.in_flight = true;
                y.issued = x.issued + 1;
            } else {
                y.done = true;
                y.stopped = true;
            }
        }
    } else {
        let ok = planned_result(results, w, x.next);
        y.in_flight = false;
        if ok {
            y.done = true;
            if st.claim_success() {
                y.won = true;
            } else {
                y.stopped = true;
            }
        } else {
            if after_failure(x.next, retries).is_none() {
                y.done = true;
            }
            y.next = x.next + 1;
        }
    }
    ws[w] = y;
    proof {
        let ws1 = ws@;
        assert(ws1 == ws0.update(w as int, y));
        lemma_total_update(ws0, w as int, y);
        assert forall|v: int| 0 <= v < ws1.len() implies #[trigger] worker_ok(
            ws1[v],
            retries,
            results@,
            v,
            st.success,
        ) by {
            assert(worker_ok(ws0[v], retries, results@, v, st0.success));
            if v != w {
                assert(ws1[v] == ws0[v]);
            }
            if v == w {
                assert(ws0[v] == x && ws1[v] == y);
                assert forall|k: int| 0 <= k < y.next implies !planned(results@, v, k) by {
                    if k < x.next {
                        assert(!planned(results@, v, k));
                    }
                }
            }
        }
        if st.success {
            if !st0.success {
                assert(ws1[w as int].won);
            } else {
                let u = choose|u: int| 0 <= u < ws0.len() && #[trigger] ws0[u].won;
                assert(ws1[u].won);
            }
        }
        if st0.success && y.won {
            assert(false);
        }
        assert forall|a: int, b: int|
            0 <= a < ws1.len() && 0 <= b < ws1.len() && #[trigger] ws1[a].won
                && #[trigger] ws1[b].won implies a == b by {
            if a != b && (a == w || b == w) {
                let other = if a == w { b } else { a };
                assert(ws0[other].won);
                assert(!st0.success);
            }
            if a != w && b != w {
                assert(ws0[a].won && ws0[b].won);
            }
        }
    }
}

/// What a simulated race reports: the outcome and each worker's final state.
pub struct RaceReport {
    pub outcome: BookingOutcome,
    pub workers: Vec<WorkerSim>,
}

/// Runs a race of `worker_count` workers with `retries` attempts each against a
/// synthetic booking plan: `results[w][k]` is whether worker `w`'s `k`-th attempt
/// succeeds (missing entries fail). The interleaving is given by `schedule`:
/// each entry advances that worker by one step (start an attempt, or finish the
/// one in flight); afterwards every worker runs to its end in index order.
pub fn simulate_race(
    worker_count: usize,
    retries: u64,
    schedule: &Vec<usize>,
    results: &Vec<Vec<bool>>,
) -> (r: RaceReport)
    requires
        worker_count * retries < u64::MAX,
        retries <= MAX_RETRIES,
    ensures
        r.workers@.len() == worker_count,
        forall|w: int| 0 <= w < worker_count ==> #[trigger] r.workers@[w].done,
        forall|w: int| 0 <= w < worker_count ==> #[trigger] r.workers@[w].issued <= retries,
        // the reported count is the sum of the attempts the workers issued
        r.outcome.attempt_count() == issued_total(r.workers@),
        // at most one winner; success is reported exactly when there is one
        forall|a: int, b: int|
            0 <= a < worker_count && 0 <= b < worker_count && #[trigger] r.workers@[a].won
                && #[trigger] r.workers@[b].won ==> a == b,
        r.outcome.is_success() <==> exists|w: int|
            0 <= w < worker_count && #[trigger] r.workers@[w].won,
        forall|w: int|
            0 <= w < worker_count && #[trigger] r.workers@[w].won ==> planned(
                results@,
                w,
                r.workers@[w].issued - 1,
            ),
        // no success: every worker issued all its attempts and each one failed
        !r.outcome.is_success() ==> forall|w: int, k: int|
            0 <= w < worker_count && 0 <= k < retries ==> r.workers@[w].issued == retries
                && !#[trigger] planned(results@, w, k),
        !r.outcome.is_success() ==> r.outcome.attempt_count() == worker_count * retries,
        // a plan where every attempt fails ends exhausted after exactly W * R attempts
        (forall|w: int, k: int|
            0 <= w < worker_count && 0 <= k < retries ==> !#[trigger] planned(results@, w, k))
            ==> !r.outcome.is_success() && r.outcome.attempt_count() == worker_count * retries,
        // a plan where every worker's first attempt succeeds has exactly one winner
        (worker_count >= 1 && retries >= 1 && forall|w: int|
            0 <= w < worker_count ==> #[trigger] planned(results@, w, 0)) ==> r.outcome.is_success()
            && exists|w: int| 0 <= w < worker_count && #[trigger] r.workers@[w].won,
{
    let mut ws: Vec<WorkerSim> = Vec::new();
    let mut i: usize = 0;
    while i < worker_count
        invariant
            i <= worker_count,
            ws@.len() == i,
            forall|v: int| 0 <= v < i ==> #[trigger] ws@[v] == (WorkerSim {
                next: 0,
                issued: 0,
                in_flight: false,
                done: false,
                won: false,
                stopped: false,
            }),
        decreases worker_count - i,
    {
        ws.push(
            WorkerSim { next: 0, issued: 0, in_flight: false, done: false, won: false, stopped: false },
        );
        i = i + 1;
    }
    let mut st = RaceState::new();
    proof {
        lemma_total_uniform(ws@, 0);
        assert forall|v: int| 0 <= v < ws@.len() implies #[trigger] worker_ok(
            ws@[v],
            retries,
            results@,
            v,
            st.success,
        ) by {}
    }
    let mut s: usize = 0;
    while s < schedule.len()
        invariant
            ws@.len() == worker_count,
            worker_count * retries < u64::MAX,
            retries <= MAX_RETRIES,
            race_ok(ws@, st, retries, results@),
        decreases schedule@.len() - s,
    {
        let w = schedule[s];
        if w < worker_count {
            step_worker(&mut ws, &mut st, w, retries, results);
        }
        s = s + 1;
    }
    let mut w: usize = 0;
    while w < worker_count
        invariant
            ws@.len() == worker_count,
            worker_count * retries < u64::MAX,
            retries <= MAX_RETRIES,
            race_ok(ws@, st, retries, results@),
            w <= worker_count,
            forall|v: int| 0 <= v < w ==> #[trigger] ws@[v].done,
        decreases worker_count - w,
    {
        while !ws[w].done
            invariant
                ws@.len() == worker_count,
                worker_count * retries < u64::MAX,
                retries <= MAX_RETRIES,
                race_ok(ws@, st, retries, results@),
                w < worker_count,
                forall|v: int| 0 <= v < w ==> #[trigger] ws@[v].done,
            decreases steps_left(ws@[w as int], retries),
        {
            step_worker(&mut ws, &mut st, w, retries, results);
        }
        w = w + 1;
    }
    proof {
        assert forall|v: int| 0 <= v < worker_count implies #[trigger] ws@[v].issued
            <= retries by {
            assert(worker_ok(ws@[v], retries, results@, v, st.success));
        }
        if !st.success {
            assert forall|v: int| 0 <= v < worker_count implies #[trigger] ws@[v].issued
                == retries by {
                assert(worker_ok(ws@[v], retries, results@, v, st.success));
            }
            assert forall|v: int, k: int|
                0 <= v < worker_count && 0 <= k < retries implies ws@[v].issued == retries
                && !#[trigger] planned(results@, v, k) by {
                assert(worker_ok(ws@[v], retries, results@, v, st.success));
            }
            lemma_total_uniform(ws@, retries);
        }
        assert forall|v: int|
            0 <= v < worker_count && #[trigger] ws@[v].won implies planned(
            results@,
            v,
            ws@[v].issued - 1,
        ) by {
            assert(worker_ok(ws@[v], retries, results@, v, st.success));
        }
    }
    let outcome = st.outcome(Vec::new());
    proof {
        assert(race_ok(ws@, st, retries, results@));
        assert(outcome.is_success() == st.success);
        if worker_count >= 1 && retries >= 1 && forall|w: int|
            0 <= w < worker_count ==> #[trigger] planned(results@, w, 0) {
            if !st.success {
                assert(worker_ok(ws@[0], retries, results@, 0, st.success));
                assert(planned(results@, 0, 0));
            }
        }
        if forall|w: int, k: int|
            0 <= w < worker_count && 0 <= k < retries ==> !#[trigger] planned(results@, w, k) {
            if st.success {
                let u = choose|u: int| 0 <= u < ws@.len() && #[trigger] ws@[u].won;
                assert(worker_ok(ws@[u], retries, results@, u, st.success));
                assert(planned(results@, u, ws@[u].issued - 1));
            }
        }
    }
    RaceReport { outcome, workers: ws }
}

} // verus!
