//! Latency accounting on top of `hdrhistogram`. Every histogram of this
//! crate is created with the same fixed bounds (values 1..=3,600,000 ms at
//! three significant digits), so its observable statistics are functions
//! of the multiset of recorded values, which is the abstraction the
//! contracts below use. Merging histograms sums those multisets, which
//! makes merge order irrelevant (see the commutativity and associativity
//! lemmas at the end).

use vstd::multiset::Multiset;
use vstd::prelude::*;

verus! {

broadcast use vstd::multiset::group_multiset_axioms;

/// Highest latency, in milliseconds, a run's histogram can record
/// (one hour); higher measurements are dropped, as recording them would
/// be refused by the histogram.
pub const LATENCY_CEILING_MS: u64 = 3600000;

/// A latency histogram with this crate's fixed bounds. Its view is the
/// multiset of recorded latencies in milliseconds. The wrapped histogram
/// is opaque here; the named spec functions below are its abstraction.
#[verifier::external_body]
pub struct LatencyHistogram {
    inner: hdrhistogram::Histogram<u64>,
}

/// The multiset of values recorded into a histogram (directly or through
/// merges) since its creation.
pub uninterp spec fn hist_contents(h: LatencyHistogram) -> Multiset<u64>;

/// Whether a histogram was created with this crate's fixed bounds and
/// with auto-resize disabled.
pub uninterp spec fn hist_fixed_bounds(h: LatencyHistogram) -> bool;

/// The lowest recorded value level reported for the given contents.
pub uninterp spec fn hist_min_ms(s: Multiset<u64>) -> u64;

/// The highest recorded value level reported for the given contents.
pub uninterp spec fn hist_max_ms(s: Multiset<u64>) -> u64;

/// The mean of the given contents, truncated to whole milliseconds.
pub uninterp spec fn hist_mean_ms(s: Multiset<u64>) -> u64;

/// The value at the given percentile of the given contents.
pub uninterp spec fn hist_percentile_ms(s: Multiset<u64>, p: u32) -> u64;

/// The recorded value/frequency table of the given contents, in ascending
/// value order.
pub uninterp spec fn hist_table(s: Multiset<u64>) -> Seq<(u64, u64)>;

/// Relies on hdrhistogram::Histogram::new_with_max: a newly constructed
/// histogram has no recorded values, and construction with these constant
/// arguments fails only on resource exhaustion.
#[verifier::external_body]
fn hd_new() -> (r: Option<LatencyHistogram>)
    ensures
        r is Some ==> hist_fixed_bounds(r->0),
        r is Some ==> hist_contents(r->0) == Multiset::<u64>::empty(),
{
    match hdrhistogram::Histogram::<u64>::new_with_max(3600000, 3) {
        Ok(inner) => Some(LatencyHistogram { inner }),
        Err(_) => None,
    }
}

/// Relies on hdrhistogram::Histogram::record: recording a value no larger
/// than the histogram's highest trackable value succeeds and adds one
/// count of that value.
#[verifier::external_body]
fn hd_record(h: &mut LatencyHistogram, v: u64)
    requires
        hist_fixed_bounds(*old(h)),
        v <= LATENCY_CEILING_MS,
    ensures
        hist_fixed_bounds(*final (h)),
        hist_contents(*final (h)) == hist_contents(*old(h)).insert(v),
{
    let _ = h.inner.record(v);
}

/// Relies on hdrhistogram::Histogram::add: merging a histogram with the
/// same bounds always succeeds and sums the per-value counts.
#[verifier::external_body]
fn hd_merge(dst: &mut LatencyHistogram, src: &LatencyHistogram)
    requires
        hist_fixed_bounds(*old(dst)),
        hist_fixed_bounds(*src),
    ensures
        hist_fixed_bounds(*final (dst)),
        hist_contents(*final (dst)) == hist_contents(*old(dst)).add(hist_contents(*src)),
{
    let _ = dst.inner.add(&src.inner);
}

/// Relies on hdrhistogram::Histogram::is_empty: true exactly when nothing
/// has been recorded.
#[verifier::external_body]
fn hd_is_empty(h: &LatencyHistogram) -> (r: bool)
    requires
        hist_fixed_bounds(*h),
    ensures
        r <==> hist_contents(*h).len() == 0,
{
    h.inner.is_empty()
}

/// Relies on hdrhistogram::Histogram::min: at fixed bounds the lowest
/// recorded value level is a function of the recorded values; it is 0 for
/// an empty histogram.
#[verifier::external_body]
fn hd_min(h: &LatencyHistogram) -> (r: u64)
    requires
        hist_fixed_bounds(*h),
    ensures
        r == hist_min_ms(hist_contents(*h)),
        hist_contents(*h).len() == 0 ==> r == 0,
{
    h.inner.min()
}

/// Relies on hdrhistogram::Histogram::max: at fixed bounds the highest
/// recorded value level is a function of the recorded values; it is 0 for
/// an empty histogram.
#[verifier::external_body]
fn hd_max(h: &LatencyHistogram) -> (r: u64)
    requires
        hist_fixed_bounds(*h),
    ensures
        r == hist_max_ms(hist_contents(*h)),
        hist_contents(*h).len() == 0 ==> r == 0,
{
    h.inner.max()
}

/// Relies on hdrhistogram::Histogram::mean: at fixed bounds the mean is a
/// function of the recorded values; it is 0 for an empty histogram.
#[verifier::external_body]
fn hd_mean_ms(h: &LatencyHistogram) -> (r: u64)
    requires
        hist_fixed_bounds(*h),
    ensures
        r == hist_mean_ms(hist_contents(*h)),
        hist_contents(*h).len() == 0 ==> r == 0,
{
    h.inner.mean() as u64
}

/// Relies on hdrhistogram::Histogram::value_at_percentile: at fixed bounds
/// the value at a percentile is a function of the recorded values; the
/// percentile is capped at 100, where the reported value is the highest
/// recorded value level, and no percentile reports above that level.
#[verifier::external_body]
fn hd_value_at_percentile(h: &LatencyHistogram, p: u32) -> (r: u64)
    requires
        hist_fixed_bounds(*h),
    ensures
        r == hist_percentile_ms(hist_contents(*h), p),
        r <= hist_max_ms(hist_contents(*h)),
        p >= 100 ==> r == hist_max_ms(hist_contents(*h)),
{
    h.inner.value_at_percentile(p.into())
}

/// Relies on hdrhistogram::Histogram::iter_recorded: one entry per
/// distinct recorded value level, in ascending value order.
#[verifier::external_body]
fn hd_recorded(h: &LatencyHistogram) -> (r: Vec<(u64, u64)>)
    requires
        hist_fixed_bounds(*h),
    ensures
        r@ == hist_table(hist_contents(*h)),
        forall|i: int, j: int| 0 <= i < j < r@.len() ==> (#[trigger] r@[i]).0 < (
        #[trigger] r@[j]).0,
{
    h.inner.iter_recorded().map(|x| (x.value_iterated_to(), x.count_at_value())).collect()
}

impl View for LatencyHistogram {
    type V = Multiset<u64>;

    closed spec fn view(&self) -> Multiset<u64> {
        hist_contents(*self)
    }
}

impl LatencyHistogram {
    /// Invariant: the underlying histogram has the fixed bounds.
    pub closed spec fn wf(self) -> bool {
        hist_fixed_bounds(self)
    }

    /// An empty histogram; `None` only when the underlying allocation
    /// fails, which the caller treats as a fatal setup error.
    pub fn new() -> (r: Option<LatencyHistogram>)
        ensures
            r matches Some(h) ==> h.wf() && h@ == Multiset::<u64>::empty(),
    {
        hd_new()
    }

    /// Record one latency; a measurement above the ceiling is dropped.
    pub fn record_ms(&mut self, v: u64)
        requires
            old(self).wf(),
        ensures
            final (self).wf(),
            v <= LATENCY_CEILING_MS ==> final (self)@ == old(self)@.insert(v),
            v > LATENCY_CEILING_MS ==> final (self)@ == old(self)@,
    {
        if v <= LATENCY_CEILING_MS {
            hd_record(self, v);
        }
    }

    /// Merge another worker's histogram into this one; the contents add up.
    pub fn merge_from(&mut self, other: &LatencyHistogram)
        requires
            old(self).wf(),
            other.wf(),
        ensures
            final (self).wf(),
            final (self)@ == old(self)@.add(other@),
    {
        hd_merge(self, other);
    }

    /// Whether nothing has been recorded.
    pub fn is_empty(&self) -> (r: bool)
        requires
            self.wf(),
        ensures
            r <==> self@.len() == 0,
    {
        hd_is_empty(self)
    }

    /// Lowest recorded value level; 0 when empty.
    pub fn min_ms(&self) -> (r: u64)
        requires
            self.wf(),
        ensures
            r == hist_min_ms(self@),
            self@.len() == 0 ==> r == 0,
    {
        hd_min(self)
    }

    /// Highest recorded value level; 0 when empty.
    pub fn max_ms(&self) -> (r: u64)
        requires
            self.wf(),
        ensures
            r == hist_max_ms(self@),
            self@.len() == 0 ==> r == 0,
    {
        hd_max(self)
    }

    /// Mean in whole milliseconds; 0 when empty.
    pub fn mean_ms(&self) -> (r: u64)
        requires
            self.wf(),
        ensures
            r == hist_mean_ms(self@),
            self@.len() == 0 ==> r == 0,
    {
        hd_mean_ms(self)
    }

    /// Value at the given percentile (capped at 100). The 100th percentile
    /// reports the highest recorded value level, and no percentile reports
    /// a value above it.
    pub fn value_at_percentile(&self, p: u32) -> (r: u64)
        requires
            self.wf(),
        ensures
            r == hist_percentile_ms(self@, p),
            r <= hist_max_ms(self@),
            p >= 100 ==> r == hist_max_ms(self@),
    {
        hd_value_at_percentile(self, p)
    }

    /// The recorded value/frequency table in ascending value order, for
    /// persistence by a reporter.
    pub fn recorded_table(&self) -> (r: Vec<(u64, u64)>)
        requires
            self.wf(),
        ensures
            r@ == hist_table(self@),
            forall|i: int, j: int| 0 <= i < j < r@.len() ==> (#[trigger] r@[i]).0 < (
            #[trigger] r@[j]).0,
    {
        hd_recorded(self)
    }
}

/// Histogram merge is commutative: merging in either order yields the same
/// recorded contents, hence the identical total count and identical min,
/// max, mean and percentile statistics.
pub proof fn lemma_merge_commutative(a: Multiset<u64>, b: Multiset<u64>)
    ensures
        a.add(b) == b.add(a),
        a.add(b).len() == b.add(a).len(),
        hist_min_ms(a.add(b)) == hist_min_ms(b.add(a)),
        hist_max_ms(a.add(b)) == hist_max_ms(b.add(a)),
        hist_mean_ms(a.add(b)) == hist_mean_ms(b.add(a)),
        forall|p: u32| #[trigger]
            hist_percentile_ms(a.add(b), p) == hist_percentile_ms(b.add(a), p),
{
    assert(a.add(b) =~= b.add(a));
}

/// Histogram merge is associative: either grouping yields the same
/// recorded contents, hence the identical total count and identical min,
/// max, mean and percentile statistics.
pub proof fn lemma_merge_associative(a: Multiset<u64>, b: Multiset<u64>, c: Multiset<u64>)
    ensures
        a.add(b).add(c) == a.add(b.add(c)),
        a.add(b).add(c).len() == a.add(b.add(c)).len(),
        hist_min_ms(a.add(b).add(c)) == hist_min_ms(a.add(b.add(c))),
        hist_max_ms(a.add(b).add(c)) == hist_max_ms(a.add(b.add(c))),
        hist_mean_ms(a.add(b).add(c)) == hist_mean_ms(a.add(b.add(c))),
        forall|p: u32| #[trigger]
            hist_percentile_ms(a.add(b).add(c), p) == hist_percentile_ms(a.add(b.add(c)), p),
{
    assert(a.add(b).add(c) =~= a.add(b.add(c)));
}

} // verus!
