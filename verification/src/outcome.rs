//! Per-request outcome accounting. Every attempted request increments
//! exactly one of the two counters: a response with a 2xx status counts as
//! a success and its latency is recorded; any other outcome (non-2xx
//! status, transport error, timeout) counts as a failure and leaves the
//! latency distribution untouched.

use vstd::multiset::Multiset;
use vstd::prelude::*;

use crate::latency::{LatencyHistogram, LATENCY_CEILING_MS};

verus! {

broadcast use vstd::multiset::group_multiset_axioms;

/// What one attempted request came to: a response with some status code,
/// or no response at all (connection failure or timeout). `elapsed_ms` is
/// the measured wall-clock time of the attempt.
#[derive(Clone, Copy, Debug, PartialEq, Eq, Structural)]
pub enum RequestOutcome {
    Completed { status: u16, elapsed_ms: u64 },
    TransportFailed,
}

/// A status in the 2xx range.
pub open spec fn is_success_status(s: u16) -> bool {
    200 <= s < 300
}

/// Whether an outcome counts as a success.
pub open spec fn is_success(o: RequestOutcome) -> bool {
    match o {
        RequestOutcome::Completed { status, elapsed_ms: _ } => is_success_status(status),
        RequestOutcome::TransportFailed => false,
    }
}

/// The latencies an outcome adds to the histogram: one value for a
/// success within the recordable range, nothing otherwise.
pub open spec fn recorded_delta(o: RequestOutcome) -> Multiset<u64> {
    match o {
        RequestOutcome::Completed { status, elapsed_ms } => {
            if is_success_status(status) && elapsed_ms <= LATENCY_CEILING_MS {
                Multiset::singleton(elapsed_ms)
            } else {
                Multiset::empty()
            }
        },
        RequestOutcome::TransportFailed => Multiset::empty(),
    }
}

/// Number of successes in a sequence of outcomes.
pub open spec fn successes_in(s: Seq<RequestOutcome>) -> int
    decreases s.len(),
{
    if s.len() == 0 {
        0
    } else {
        successes_in(s.drop_last()) + if is_success(s.last()) {
            1int
        } else {
            0int
        }
    }
}

/// All latencies a sequence of outcomes adds to the histogram.
pub open spec fn recorded_in(s: Seq<RequestOutcome>) -> Multiset<u64>
    decreases s.len(),
{
    if s.len() == 0 {
        Multiset::empty()
    } else {
        recorded_in(s.drop_last()).add(recorded_delta(s.last()))
    }
}

/// The success count of a sequence lies between 0 and its length.
pub proof fn lemma_successes_bounds(s: Seq<RequestOutcome>)
    ensures
        0 <= successes_in(s) <= s.len(),
    decreases s.len(),
{
    if s.len() > 0 {
        lemma_successes_bounds(s.drop_last());
    }
}

/// The two outcome counters of a run, as one worker accumulates them.
pub struct Tally {
    pub success: u64,
    pub failure: u64,
}

impl Tally {
    pub fn new() -> (t: Tally)
        ensures
            t.success == 0,
            t.failure == 0,
    {
        Tally { success: 0, failure: 0 }
    }
}

/// Whether an outcome counts as a success, as exec code.
pub fn outcome_is_success(o: &RequestOutcome) -> (r: bool)
    ensures
        r == is_success(*o),
{
    match o {
        RequestOutcome::Completed { status, elapsed_ms: _ } => 200 <= *status && *status < 300,
        RequestOutcome::TransportFailed => false,
    }
}

/// Account for one attempted request: exactly one counter goes up by one,
/// and the latency is recorded exactly when the outcome is a success (a
/// measurement above the recordable ceiling is dropped).
pub fn record_outcome(t: &mut Tally, h: &mut LatencyHistogram, o: &RequestOutcome)
    requires
        old(t).success < u64::MAX,
        old(t).failure < u64::MAX,
        old(h).wf(),
    ensures
        final (h).wf(),
        final (t).success + final (t).failure == old(t).success + old(t).failure + 1,
        is_success(*o) ==> final (t).success == old(t).success + 1 && final (t).failure == old(
            t,
        ).failure,
        !is_success(*o) ==> final (t).failure == old(t).failure + 1 && final (t).success == old(
            t,
        ).success,
        final (h)@ == old(h)@.add(recorded_delta(*o)),
        !is_success(*o) ==> final (h)@ == old(h)@,
{
    let success = outcome_is_success(o);
    if success {
        t.success = t.success + 1;
        match o {
            RequestOutcome::Completed { status: _, elapsed_ms } => {
                h.record_ms(*elapsed_ms);
                proof {
                    if *elapsed_ms <= LATENCY_CEILING_MS {
                        assert(old(h)@.insert(*elapsed_ms) == old(h)@.add(recorded_delta(*o)));
                    } else {
                        assert(old(h)@.add(Multiset::empty()) =~= old(h)@);
                    }
                }
            },
            RequestOutcome::TransportFailed => {
                proof {
                    assert(false);
                }
            },
        }
    } else {
        t.failure = t.failure + 1;
        proof {
            assert(old(h)@.add(Multiset::<u64>::empty()) =~= old(h)@);
        }
    }
}

/// Account for a whole sequence of attempted requests, as one worker's
/// loop does: the counters go up by exactly the number of outcomes, split
/// into successes and failures, and the histogram gains exactly the
/// successes' latencies.
pub fn apply_outcomes(t: &mut Tally, h: &mut LatencyHistogram, outcomes: &Vec<RequestOutcome>)
    requires
        old(t).success + old(t).failure + outcomes@.len() <= u64::MAX,
        old(h).wf(),
    ensures
        final (h).wf(),
        final (t).success == old(t).success + successes_in(outcomes@),
        final (t).failure == old(t).failure + outcomes@.len() - successes_in(outcomes@),
        final (t).success + final (t).failure == old(t).success + old(t).failure + outcomes@.len(),
        final (h)@ == old(h)@.add(recorded_in(outcomes@)),
{
    let ghost s = outcomes@;
    let mut i: usize = 0;
    proof {
        assert(old(h)@.add(recorded_in(s.take(0))) =~= old(h)@);
        assert(s.take(0) =~= Seq::<RequestOutcome>::empty());
    }
    while i < outcomes.len()
        invariant
            0 <= i <= s.len(),
            s == outcomes@,
            old(t).success + old(t).failure + s.len() <= u64::MAX,
            t.success == old(t).success + successes_in(s.take(i as int)),
            t.failure == old(t).failure + i - successes_in(s.take(i as int)),
            h.wf(),
            h@ == old(h)@.add(recorded_in(s.take(i as int))),
        decreases s.len() - i,
    {
        proof {
            lemma_successes_bounds(s.take(i as int));
        }
        let ghost pre = s.take(i as int);
        let ghost post = s.take(i + 1);
        proof {
            assert(post.drop_last() =~= pre);
            assert(post.last() == s[i as int]);
        }
        let ghost h_before = h@;
        record_outcome(t, h, &outcomes[i]);
        proof {
            assert(recorded_in(post) == recorded_in(pre).add(recorded_delta(s[i as int])));
            assert(old(h)@.add(recorded_in(pre)).add(recorded_delta(s[i as int])) =~= old(
                h,
            )@.add(recorded_in(post)));
        }
        i += 1;
    }
    proof {
        assert(s.take(s.len() as int) =~= s);
    }
}

} // verus!
