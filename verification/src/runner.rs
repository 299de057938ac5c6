//! Run orchestration logic: laying out a run from a validated
//! configuration (including the per-worker partition of a request budget),
//! combining the workers' private tallies and histograms into the final
//! aggregate, and summarizing the merged histogram for a reporter.

use vstd::multiset::Multiset;
use vstd::prelude::*;

use crate::config::{
    body_model,
    build_config,
    config_error_of,
    folded_headers,
    headers_model,
    lines_model,
    mode_of,
    with_default_content_type,
    BenchConfig,
    ConfigError,
    RawConfig,
    RunMode,
};
use crate::latency::{
    hist_max_ms,
    hist_mean_ms,
    hist_min_ms,
    hist_percentile_ms,
    LatencyHistogram,
};
use crate::outcome::Tally;
use crate::partition::{partition_requests, share, sum_counts};

verus! {

broadcast use vstd::multiset::group_multiset_axioms;

/// What each worker is told to do: run a fixed number of requests, or run
/// until a stop flag set after the given duration is observed.
#[derive(Debug)]
pub enum WorkAssignment {
    PerWorkerCounts(Vec<usize>),
    TimedMillis(u64),
}

/// A validated configuration together with the laid-out work. Building a
/// plan performs no network activity; a rejected configuration never
/// yields a plan, so no request of a rejected run is ever attempted.
#[derive(Debug)]
pub struct RunPlan {
    pub config: BenchConfig,
    pub assignment: WorkAssignment,
}

/// Validate a raw configuration and lay out the work across
/// `concurrency` workers, before anything is sent.
pub fn prepare_run(raw: RawConfig) -> (r: Result<RunPlan, ConfigError>)
    ensures
        match r {
            Ok(plan) => {
                &&& config_error_of(raw) is None
                &&& plan.config.wf()
                &&& plan.config.url@ == raw.url@
                &&& plan.config.method@ == raw.method@
                &&& body_model(plan.config.body) == body_model(raw.body)
                &&& headers_model(plan.config.headers@) == with_default_content_type(
                    folded_headers(lines_model(raw.headers@)),
                    raw.body is Some,
                )
                &&& plan.config.concurrency == raw.concurrency
                &&& plan.config.mode == mode_of(raw)
                &&& plan.config.percentile == raw.percentile
                &&& match plan.assignment {
                    WorkAssignment::PerWorkerCounts(counts) => {
                        &&& plan.config.mode matches RunMode::TotalRequests(total)
                        &&& counts@.len() == plan.config.concurrency
                        &&& sum_counts(counts@) == total
                        &&& forall|i: int|
                            0 <= i < counts@.len() ==> #[trigger] counts@[i] == share(
                                total as int,
                                plan.config.concurrency as int,
                                i,
                            )
                        &&& forall|i: int, j: int|
                            0 <= i < counts@.len() && 0 <= j < counts@.len()
                                ==> #[trigger] counts@[i] - #[trigger] counts@[j] <= 1
                    },
                    WorkAssignment::TimedMillis(d) => plan.config.mode
                        == RunMode::DurationMillis(d),
                }
            },
            Err(e) => config_error_of(raw) == Some(e),
        },
{
    let config = match build_config(raw) {
        Ok(c) => c,
        Err(e) => {
            return Err(e);
        },
    };
    let assignment = match &config.mode {
        RunMode::TotalRequests(total) => {
            let counts = partition_requests(*total, config.concurrency);
            WorkAssignment::PerWorkerCounts(counts)
        },
        RunMode::DurationMillis(d) => WorkAssignment::TimedMillis(*d),
    };
    Ok(RunPlan { config, assignment })
}

/// What one worker hands back when it terminates: its private tally and
/// its private histogram.
pub struct WorkerReport {
    pub tally: Tally,
    pub hist: LatencyHistogram,
}

/// Sum of the workers' success counters.
pub open spec fn total_successes(rs: Seq<WorkerReport>) -> int
    decreases rs.len(),
{
    if rs.len() == 0 {
        0
    } else {
        total_successes(rs.drop_last()) + rs.last().tally.success
    }
}

/// Sum of the workers' failure counters.
pub open spec fn total_failures(rs: Seq<WorkerReport>) -> int
    decreases rs.len(),
{
    if rs.len() == 0 {
        0
    } else {
        total_failures(rs.drop_last()) + rs.last().tally.failure
    }
}

/// Union of the workers' recorded latencies.
pub open spec fn combined_contents(rs: Seq<WorkerReport>) -> Multiset<u64>
    decreases rs.len(),
{
    if rs.len() == 0 {
        Multiset::empty()
    } else {
        combined_contents(rs.drop_last()).add(rs.last().hist@)
    }
}

/// The aggregate a finished run hands to the reporter.
pub struct RunTotals {
    pub success: u64,
    pub failure: u64,
    pub histogram: LatencyHistogram,
}

/// Merge the workers' reports into the final aggregate: counters are
/// summed and histograms merged into `base` (an empty histogram in a real
/// run). Merge order does not affect the result; see the commutativity and
/// associativity lemmas of the latency module.
pub fn combine_reports(base: LatencyHistogram, reports: &Vec<WorkerReport>) -> (r: RunTotals)
    requires
        base.wf(),
        forall|i: int| 0 <= i < reports@.len() ==> (#[trigger] reports@[i]).hist.wf(),
        total_successes(reports@) <= u64::MAX,
        total_failures(reports@) <= u64::MAX,
    ensures
        r.histogram.wf(),
        r.success == total_successes(reports@),
        r.failure == total_failures(reports@),
        r.histogram@ == base@.add(combined_contents(reports@)),
{
    let ghost rs = reports@;
    let mut histogram = base;
    let mut success: u64 = 0;
    let mut failure: u64 = 0;
    let mut i: usize = 0;
    proof {
        assert(rs.take(0) =~= Seq::<WorkerReport>::empty());
        assert(base@.add(combined_contents(rs.take(0))) =~= base@);
    }
    while i < reports.len()
        invariant
            0 <= i <= rs.len(),
            rs == reports@,
            forall|k: int| 0 <= k < rs.len() ==> (#[trigger] rs[k]).hist.wf(),
            total_successes(rs) <= u64::MAX,
            total_failures(rs) <= u64::MAX,
            success == total_successes(rs.take(i as int)),
            failure == total_failures(rs.take(i as int)),
            histogram.wf(),
            histogram@ == base@.add(combined_contents(rs.take(i as int))),
        decreases rs.len() - i,
    {
        let ghost pre = rs.take(i as int);
        let ghost post = rs.take(i + 1);
        proof {
            assert(post.drop_last() =~= pre);
            assert(post.last() == rs[i as int]);
            lemma_totals_prefix_bounds(rs, i + 1);
            lemma_totals_prefix_bounds(rs, i as int);
        }
        success = success + reports[i].tally.success;
        failure = failure + reports[i].tally.failure;
        histogram.merge_from(&reports[i].hist);
        proof {
            assert(base@.add(combined_contents(pre)).add(rs[i as int].hist@) =~= base@.add(
                combined_contents(post),
            ));
        }
        i += 1;
    }
    proof {
        assert(rs.take(rs.len() as int) =~= rs);
    }
    RunTotals { success, failure, histogram }
}

/// Counter sums over a prefix of the reports stay between 0 and the sums
/// over all of them.
pub proof fn lemma_totals_prefix_bounds(rs: Seq<WorkerReport>, n: int)
    requires
        0 <= n <= rs.len(),
    ensures
        0 <= total_successes(rs.take(n)) <= total_successes(rs),
        0 <= total_failures(rs.take(n)) <= total_failures(rs),
    decreases rs.len(),
{
    if rs.len() == 0 {
        assert(rs.take(n) =~= rs);
    } else if n == rs.len() {
        assert(rs.take(n) =~= rs);
        lemma_totals_prefix_bounds(rs.drop_last(), rs.len() - 1);
        assert(rs.drop_last().take(rs.len() - 1) =~= rs.drop_last());
    } else {
        assert(rs.take(n) =~= rs.drop_last().take(n));
        lemma_totals_prefix_bounds(rs.drop_last(), n);
    }
}

/// Every attempted request lands in exactly one counter, so when each
/// worker attempts exactly its assigned share, the grand total of
/// successes and failures equals the sum of the shares; in count mode
/// that sum is the requested total.
pub proof fn lemma_attempts_match_shares(rs: Seq<WorkerReport>, counts: Seq<usize>)
    requires
        rs.len() == counts.len(),
        forall|i: int|
            0 <= i < rs.len() ==> (#[trigger] rs[i]).tally.success + rs[i].tally.failure
                == counts[i],
    ensures
        total_successes(rs) + total_failures(rs) == sum_counts(counts),
    decreases rs.len(),
{
    if rs.len() > 0 {
        assert(rs.drop_last().len() == counts.drop_last().len());
        assert forall|i: int| 0 <= i < rs.drop_last().len() implies (#[trigger] rs.drop_last()[
            i
        ]).tally.success + rs.drop_last()[i].tally.failure == counts.drop_last()[i] by {
            assert(rs.drop_last()[i] == rs[i]);
            assert(counts.drop_last()[i] == counts[i]);
        }
        lemma_attempts_match_shares(rs.drop_last(), counts.drop_last());
        assert(rs[rs.len() - 1].tally.success + rs[rs.len() - 1].tally.failure == counts[rs.len()
            - 1]);
    }
}

/// Duration-mode loop decision, checked once before each iteration: a
/// worker issues another request exactly when the stop flag has not been
/// observed, so it never starts a request after observing the flag, and it
/// finishes (drains) the request already in flight when the flag is set.
pub fn duration_worker_continues(stop_flag_set: bool) -> (r: bool)
    ensures
        r == !stop_flag_set,
{
    !stop_flag_set
}

/// The statistics a reporter renders, in the same millisecond unit used
/// for recording. The value at the requested percentile never exceeds the
/// highest recorded value level, and at percentile 100 it equals it.
pub struct StatsReport {
    pub min_ms: u64,
    pub max_ms: u64,
    pub mean_ms: u64,
    pub percentile: u32,
    pub percentile_value_ms: u64,
}

/// Summarize a merged histogram for the reporter.
pub fn summarize(h: &LatencyHistogram, percentile: u32) -> (s: StatsReport)
    requires
        h.wf(),
    ensures
        s.min_ms == hist_min_ms(h@),
        s.max_ms == hist_max_ms(h@),
        s.mean_ms == hist_mean_ms(h@),
        s.percentile == percentile,
        s.percentile_value_ms == hist_percentile_ms(h@, percentile),
        s.percentile_value_ms <= s.max_ms,
        percentile >= 100 ==> s.percentile_value_ms == s.max_ms,
        h@.len() == 0 ==> s.min_ms == 0 && s.max_ms == 0 && s.mean_ms == 0,
{
    StatsReport {
        min_ms: h.min_ms(),
        max_ms: h.max_ms(),
        mean_ms: h.mean_ms(),
        percentile,
        percentile_value_ms: h.value_at_percentile(percentile),
    }
}

} // verus!
