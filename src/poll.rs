use vstd::prelude::*;

use crate::types::Slot;

verus! {

/// The slots of `slots` that satisfy the filters, in their original order.
pub open spec fn matching(slots: Seq<Slot>, times: Seq<String>, types: Seq<String>) -> Seq<Slot> {
    slots.filter(|s: Slot| s.spec_matches(times, types))
}

/// What one availability query produced: the slots, or `None` when the
/// response could not be obtained or parsed.
pub open spec fn matched_by(
    fetched: Option<Seq<Slot>>,
    times: Seq<String>,
    types: Seq<String>,
) -> Seq<Slot> {
    match fetched {
        Some(slots) => matching(slots, times, types),
        None => Seq::empty(),
    }
}

/// A query result seen as sequences.
pub open spec fn fetched_view(fetched: Option<Vec<Slot>>) -> Option<Seq<Slot>> {
    match fetched {
        Some(v) => Some(v@),
        None => None,
    }
}

/// The poller's decision after one query.
pub enum PollDecision {
    /// A non-empty matched set: polling ends with it.
    Found(Vec<Slot>),
    /// Nothing matched and the deadline has been reached.
    TimedOut,
    /// Nothing matched yet: wait one interval and query again.
    Continue,
}

/// The final result of a polling run.
pub enum PollOutcome {
    /// The matched set and the number of queries issued.
    Found { slots: Vec<Slot>, attempts: u64 },
    /// The deadline passed with no match: elapsed time and queries issued.
    TimedOut { elapsed_ms: u64, attempts: u64 },
    /// The observations ran out before either happened.
    Pending { attempts: u64 },
}

/// The slots that satisfy the filters, in order.
pub fn filter_matching(slots: &Vec<Slot>, times: &[String], types: &[String]) -> (r: Vec<Slot>)
    ensures
        r@ == matching(slots@, times@, types@),
{
    let mut out: Vec<Slot> = Vec::new();
    let mut i: usize = 0;
    while i < slots.len()
        invariant
            i <= slots@.len(),
            out@ == matching(slots@.subrange(0, i as int), times@, types@),
        decreases slots@.len() - i,
    {
        let s = &slots[i];
        let keep = s.matches(times, types);
        proof {
            let sub = slots@.subrange(0, i as int + 1);
            assert(sub.drop_last() =~= slots@.subrange(0, i as int));
            assert(sub.last() == *s);
            reveal_with_fuel(Seq::filter, 1);
        }
        if keep {
            out.push(s.copied());
        }
        i = i + 1;
    }
    proof {
        assert(slots@.subrange(0, slots@.len() as int) =~= slots@);
    }
    out
}

/// Decides what follows one query: `fetched` is the query's slots, or `None`
/// if the query failed (a transient condition); `elapsed_ms` is the time since
/// polling began.
pub fn poll_step(
    fetched: &Option<Vec<Slot>>,
    times: &[String],
    types: &[String],
    elapsed_ms: u64,
    timeout_ms: u64,
) -> (r: PollDecision)
    ensures
        ({
            let m = matched_by(fetched_view(*fetched), times@, types@);
            match r {
                PollDecision::Found(v) => m.len() > 0 && v@ == m,
                PollDecision::TimedOut => m.len() == 0 && elapsed_ms >= timeout_ms,
                PollDecision::Continue => m.len() == 0 && elapsed_ms < timeout_ms,
            }
        }),
{
    if let Some(slots) = fetched {
        let m = filter_matching(slots, times, types);
        if m.len() > 0 {
            return PollDecision::Found(m);
        }
    }
    if elapsed_ms >= timeout_ms {
        PollDecision::TimedOut
    } else {
        PollDecision::Continue
    }
}

/// One observed query: what it returned and the elapsed time read after it.
pub struct Observation {
    pub fetched: Option<Vec<Slot>>,
    pub elapsed_ms: u64,
}

/// The query at index `k` found nothing and came before the deadline.
pub open spec fn quiet(
    obs: Seq<Observation>,
    k: int,
    times: Seq<String>,
    types: Seq<String>,
    timeout_ms: u64,
) -> bool {
    matched_by(fetched_view(obs[k].fetched), times, types).len() == 0 && obs[k].elapsed_ms
        < timeout_ms
}

/// The outcome of polling against the observations `obs`, in query order.
pub open spec fn poll_outcome_ok(
    r: PollOutcome,
    obs: Seq<Observation>,
    times: Seq<String>,
    types: Seq<String>,
    timeout_ms: u64,
) -> bool {
    match r {
        PollOutcome::Found { slots, attempts } => {
            let k = attempts - 1;
            &&& 1 <= attempts <= obs.len()
            &&& forall|j: int| 0 <= j < k ==> quiet(obs, j, times, types, timeout_ms)
            &&& matched_by(fetched_view(obs[k].fetched), times, types).len() > 0
            &&& slots@ == matched_by(fetched_view(obs[k].fetched), times, types)
        },
        PollOutcome::TimedOut { elapsed_ms, attempts } => {
            let k = attempts - 1;
            &&& 1 <= attempts <= obs.len()
            &&& forall|j: int| 0 <= j < k ==> quiet(obs, j, times, types, timeout_ms)
            &&& matched_by(fetched_view(obs[k].fetched), times, types).len() == 0
            &&& elapsed_ms == obs[k].elapsed_ms
            &&& elapsed_ms >= timeout_ms
        },
        PollOutcome::Pending { attempts } => {
            &&& attempts == obs.len()
            &&& forall|j: int| 0 <= j < obs.len() ==> quiet(obs, j, times, types, timeout_ms)
        },
    }
}

/// Runs the poller over a recorded sequence of queries: it stops at the first
/// query whose matched set is non-empty, or at the first one after which the
/// deadline has been reached.
pub fn run_poll(obs: &Vec<Observation>, times: &[String], types: &[String], timeout_ms: u64) -> (r:
    PollOutcome)
    requires
        obs@.len() < u64::MAX,
    ensures
        poll_outcome_ok(r, obs@, times@, types@, timeout_ms),
{
    let mut i: usize = 0;
    while i < obs.len()
        invariant
            i <= obs@.len() < u64::MAX,
            forall|j: int| 0 <= j < i ==> quiet(obs@, j, times@, types@, timeout_ms),
        decreases obs@.len() - i,
    {
        let o = &obs[i];
        let attempts = i as u64 + 1;
        match poll_step(&o.fetched, times, types, o.elapsed_ms, timeout_ms) {
            PollDecision::Found(v) => {
                return PollOutcome::Found { slots: v, attempts };
            },
            PollDecision::TimedOut => {
                return PollOutcome::TimedOut { elapsed_ms: o.elapsed_ms, attempts };
            },
            PollDecision::Continue => {},
        }
        i = i + 1;
    }
    PollOutcome::Pending { attempts: i as u64 }
}

/// Polling ends at the first query whose matched set is non-empty, provided
/// every earlier query found nothing before the deadline: it returns that set
/// after exactly `k + 1` queries.
pub proof fn lemma_poll_stops_at_first_match(
    r: PollOutcome,
    obs: Seq<Observation>,
    times: Seq<String>,
    types: Seq<String>,
    timeout_ms: u64,
    k: int,
)
    requires
        poll_outcome_ok(r, obs, times, types, timeout_ms),
        0 <= k < obs.len(),
        forall|j: int| 0 <= j < k ==> quiet(obs, j, times, types, timeout_ms),
        matched_by(fetched_view(obs[k].fetched), times, types).len() > 0,
    ensures
        r matches PollOutcome::Found { slots, attempts } && attempts == k + 1 && slots@
            == matched_by(fetched_view(obs[k].fetched), times, types),
{
    match r {
        PollOutcome::Found { slots, attempts } => {
            if attempts - 1 < k {
                assert(quiet(obs, attempts - 1, times, types, timeout_ms));
            }
            if attempts - 1 > k {
                assert(quiet(obs, k, times, types, timeout_ms));
            }
        },
        PollOutcome::TimedOut { elapsed_ms, attempts } => {
            if attempts - 1 > k {
                assert(quiet(obs, k, times, types, timeout_ms));
            }
            if attempts - 1 < k {
                assert(quiet(obs, attempts - 1, times, types, timeout_ms));
            }
        },
        PollOutcome::Pending { attempts } => {
            assert(quiet(obs, k, times, types, timeout_ms));
        },
    }
}

/// With queries spaced `interval_ms` apart (query `j` reads `j * interval_ms`)
/// and no match ever, polling times out after the first reading at or past the
/// deadline: the reported elapsed time is `(attempts - 1) * interval_ms`, and
/// one interval earlier was still before the deadline.
pub proof fn lemma_poll_timeout_tracks_interval(
    r: PollOutcome,
    obs: Seq<Observation>,
    times: Seq<String>,
    types: Seq<String>,
    timeout_ms: u64,
    interval_ms: u64,
)
    requires
        poll_outcome_ok(r, obs, times, types, timeout_ms),
        forall|j: int| 0 <= j < obs.len() ==> #[trigger] obs[j].elapsed_ms == j * interval_ms,
        forall|j: int|
            0 <= j < obs.len() ==> #[trigger] matched_by(fetched_view(obs[j].fetched), times, types).len()
                == 0,
        obs.len() > 0,
        obs[obs.len() - 1].elapsed_ms >= timeout_ms,
    ensures
        r matches PollOutcome::TimedOut { elapsed_ms, attempts } && elapsed_ms == (attempts - 1)
            * interval_ms && elapsed_ms >= timeout_ms && (attempts == 1 || elapsed_ms - interval_ms
            < timeout_ms),
{
    match r {
        PollOutcome::Found { slots, attempts } => {
            assert(matched_by(fetched_view(obs[attempts - 1].fetched), times, types).len() == 0);
        },
        PollOutcome::TimedOut { elapsed_ms, attempts } => {
            assert(obs[attempts - 1].elapsed_ms == (attempts - 1) * interval_ms);
            if attempts > 1 {
                assert(quiet(obs, attempts - 2, times, types, timeout_ms));
                assert(obs[attempts - 2].elapsed_ms == (attempts - 2) * interval_ms);
                assert((attempts - 1) * interval_ms - interval_ms == (attempts - 2) * interval_ms)
                    by (nonlinear_arith);
            }
        },
        PollOutcome::Pending { attempts } => {
            assert(quiet(obs, obs.len() - 1, times, types, timeout_ms));
        },
    }
}

} // verus!
