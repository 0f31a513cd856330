//! The history DSM does not keep.
//!
//! `SYNO.Core.System.Utilization` is a snapshot and DSM keeps no series
//! behind it, so the app records its own. A sample is offered to four tiers
//! and each accepts one only once its own interval has elapsed, which bounds
//! the whole store at a few thousand points.
//!
//! Every function whose answer depends on the time takes `now` as an
//! argument; the clock is the caller's business.

use vstd::prelude::*;

use crate::model::utilization::{cpu_total, first_total};
use crate::model::Utilization;

verus! {

/// The ranges the UI offers.
#[derive(Debug, Clone, Copy, PartialEq, Eq, Hash, Structural)]
pub enum Range {
    Hour,
    Day,
    Week,
    Month,
}

impl Range {
    pub const ALL: [Range; 4] = [Range::Hour, Range::Day, Range::Week, Range::Month];

    /// How often this tier accepts a sample, in seconds.
    pub open spec fn interval_secs(self) -> int {
        match self {
            Range::Hour => 5,
            Range::Day => 60,
            Range::Week => 300,
            Range::Month => 1800,
        }
    }

    /// How far back it reaches, in seconds.
    pub open spec fn span_secs(self) -> int {
        match self {
            Range::Hour => 3600,
            Range::Day => 86400,
            Range::Week => 604800,
            Range::Month => 2592000,
        }
    }

    /// The most samples this tier ever holds: span over interval, plus one
    /// so a full window is not one short.
    pub open spec fn spec_capacity(self) -> int {
        self.span_secs() / self.interval_secs() + 1
    }

    /// How often this tier accepts a sample, in seconds.
    pub fn interval(self) -> (r: i64)
        ensures
            r == self.interval_secs(),
    {
        match self {
            Range::Hour => 5,
            Range::Day => 60,
            Range::Week => 300,
            Range::Month => 1800,
        }
    }

    /// How far back it reaches, in seconds.
    pub fn span(self) -> (r: i64)
        ensures
            r == self.span_secs(),
    {
        match self {
            Range::Hour => 3600,
            Range::Day => 86400,
            Range::Week => 604800,
            Range::Month => 2592000,
        }
    }

    /// The most samples this tier ever holds.
    pub fn capacity(self) -> (r: usize)
        ensures
            r == self.spec_capacity(),
    {
        (self.span() / self.interval()) as usize + 1
    }

    /// The label the toggle group shows.
    pub fn label(self) -> (r: &'static str)
        ensures
            r@ == match self {
                Range::Hour => "1 h"@,
                Range::Day => "24 h"@,
                Range::Week => "7 d"@,
                Range::Month => "30 d"@,
            },
    {
        match self {
            Range::Hour => "1 h",
            Range::Day => "24 h",
            Range::Week => "7 d",
            Range::Month => "30 d",
        }
    }
}

/// How often a tier accepts a sample, in nanoseconds.
pub open spec fn interval_nanos(range: Range) -> int {
    range.interval_secs() * 1_000_000_000
}

/// How far back a tier reaches, in nanoseconds.
pub open spec fn span_nanos(range: Range) -> int {
    range.span_secs() * 1_000_000_000
}

/// One recorded moment, reduced to the handful of numbers the charts draw.
///
/// Deliberately not the whole [`Utilization`]: storing every field for 30
/// days to draw four lines would be most of a megabyte nobody reads.
#[derive(Debug, Clone, Copy, PartialEq, Eq)]
pub struct Sample {
    /// When it was taken, in nanoseconds since the Unix epoch.
    pub at: i128,
    pub cpu_percent: u8,
    pub memory_percent: u8,
    pub network_rx: u64,
    pub network_tx: u64,
    pub disk_utilization: u8,
    pub temperature_c: Option<i64>,
}

impl Sample {
    /// Reduce a live reading. `temperature_c` comes from `SYNO.Core.System`,
    /// a different call, so it is passed in rather than dug out.
    pub fn new(at: i128, u: &Utilization, temperature_c: Option<i64>) -> (r: Sample)
        ensures
            r.at == at,
            r.cpu_percent == cpu_total(u.cpu),
            r.memory_percent == u.memory.usage_percent,
            r.network_rx == match first_total(u.network@) {
                Some(i) => u.network@[i].rx,
                None => 0,
            },
            r.network_tx == match first_total(u.network@) {
                Some(i) => u.network@[i].tx,
                None => 0,
            },
            r.disk_utilization == match u.disk {
                Some(d) => d.utilization,
                None => 0,
            },
            r.temperature_c == temperature_c,
    {
        let net = u.network_total();
        Sample {
            at,
            cpu_percent: u.cpu.total(),
            memory_percent: u.memory.usage_percent,
            network_rx: match net {
                Some(n) => n.rx,
                None => 0,
            },
            network_tx: match net {
                Some(n) => n.tx,
                None => 0,
            },
            disk_utilization: match u.disk {
                Some(d) => d.utilization,
                None => 0,
            },
            temperature_c,
        }
    }
}

/// One tier: samples at a fixed cadence, oldest dropped when full.
#[derive(Debug, Clone)]
pub struct Series {
    pub range: Range,
    pub samples: Vec<Sample>,
}

/// The last `cap` elements of `s`, or all of them when there are fewer.
pub open spec fn keep_last(s: Seq<Sample>, cap: int) -> Seq<Sample> {
    if s.len() > cap {
        s.skip(s.len() - cap)
    } else {
        s
    }
}

/// Whether a tier turns `x` away: it comes less than the tier's interval
/// after the newest sample it holds. A sample from before the newest is not
/// turned away — the clock went backwards.
pub open spec fn too_soon(s: Seq<Sample>, range: Range, x: Sample) -> bool {
    s.len() > 0 && x.at >= s.last().at && x.at - s.last().at < interval_nanos(range)
}

/// What a tier holds after `x` is offered to it: unchanged when it is too
/// soon; otherwise `x` added at the end — after dropping everything when the
/// clock went backwards — and the oldest dropped past the capacity.
pub open spec fn after_offer(s: Seq<Sample>, range: Range, x: Sample) -> Seq<Sample> {
    if too_soon(s, range, x) {
        s
    } else if s.len() > 0 && x.at < s.last().at {
        keep_last(seq![x], range.spec_capacity())
    } else {
        keep_last(s.push(x), range.spec_capacity())
    }
}

/// The samples of `s` taken at or after `cutoff`, in order.
pub open spec fn taken_since(s: Seq<Sample>, cutoff: int) -> Seq<Sample> {
    s.filter(|x: Sample| x.at >= cutoff)
}

/// A tier as its invariant has it: no more than its capacity, in time order,
/// each sample at least an interval after the one before it.
pub open spec fn tier_ok(range: Range, s: Seq<Sample>) -> bool {
    &&& s.len() <= range.spec_capacity()
    &&& forall|i: int, j: int| 0 <= i < j < s.len() ==> #[trigger] s[i].at + interval_nanos(range) <= #[trigger] s[j].at
}

impl Series {
    fn new(range: Range) -> (r: Series)
        ensures
            r.range == range,
            r.samples@.len() == 0,
    {
        Series { range, samples: Vec::new() }
    }

    /// Offer a sample. Accepted only if this tier's interval has passed.
    ///
    /// The backwards case is tested first, and has to be: a clock that went
    /// backwards — a suspend/resume, or an NTP step — produces a negative
    /// duration, which compares as "too soon". The tier would then reject
    /// every sample until the clock caught up, and the chart would silently
    /// stop.
    fn offer(&mut self, sample: Sample) -> (accepted: bool)
        ensures
            final(self).range == old(self).range,
            final(self).samples@ == after_offer(old(self).samples@, old(self).range, sample),
            accepted == !too_soon(old(self).samples@, old(self).range, sample),
    {
        let n = self.samples.len();
        if n > 0 {
            let last_at = self.samples[n - 1].at;
            if sample.at < last_at {
                self.samples.clear();
            } else {
                let interval: i128 = self.range.interval() as i128 * 1_000_000_000;
                if last_at > i128::MAX - interval || sample.at < last_at + interval {
                    return false;
                }
            }
        }
        self.samples.push(sample);
        let cap = self.range.capacity();
        let ghost pushed = self.samples@;
        if self.samples.len() > cap {
            let drop = self.samples.len() - cap;
            let mut k: usize = 0;
            while k < drop
                invariant
                    k <= drop,
                    drop == pushed.len() - cap,
                    self.samples@ == pushed.skip(k as int),
                    self.range == old(self).range,
                decreases drop - k,
            {
                self.samples.remove(0);
                assert(self.samples@ =~= pushed.skip(k + 1));
                k = k + 1;
            }
        }
        true
    }

    /// Samples inside the window ending at `now`.
    fn window(&self, now: i128) -> (r: Vec<Sample>)
        ensures
            r@ == taken_since(self.samples@, now - span_nanos(self.range)),
    {
        let ghost c: int = now - span_nanos(self.range);
        let span: i128 = self.range.span() as i128 * 1_000_000_000;
        // A window reaching back past the first representable instant holds
        // everything.
        let cutoff: i128 = if now < i128::MIN + span {
            i128::MIN
        } else {
            now - span
        };
        let mut out: Vec<Sample> = Vec::new();
        let mut i: usize = 0;
        while i < self.samples.len()
            invariant
                i <= self.samples@.len(),
                c == now - span_nanos(self.range),
                c < i128::MIN ==> cutoff == i128::MIN,
                c >= i128::MIN ==> cutoff == c,
                out@ == taken_since(self.samples@.subrange(0, i as int), c),
            decreases self.samples.len() - i,
        {
            let s = self.samples[i];
            proof {
                assert(self.samples@.subrange(0, i + 1).drop_last() =~= self.samples@.subrange(0, i as int));
                self.samples@.subrange(0, i as int).lemma_filter_push(s, |x: Sample| x.at >= c);
                assert(self.samples@.subrange(0, i as int).push(s) =~= self.samples@.subrange(0, i + 1));
            }
            if s.at >= cutoff {
                out.push(s);
            }
            i = i + 1;
        }
        assert(self.samples@.subrange(0, self.samples@.len() as int) =~= self.samples@);
        out
    }
}

/// Recorded history for one DiskStation: one tier per range.
#[derive(Debug, Clone)]
pub struct Trends {
    pub series: Vec<Series>,
}

/// The four tiers, one per range in `Range::ALL` order, each within its
/// invariant: what `new` makes and `record` keeps.
pub open spec fn trends_ok(t: Trends) -> bool {
    &&& t.series@.len() == 4
    &&& t.series@[0].range == Range::Hour
    &&& t.series@[1].range == Range::Day
    &&& t.series@[2].range == Range::Week
    &&& t.series@[3].range == Range::Month
    &&& forall|i: int| 0 <= i < 4 ==> tier_ok(t.series@[i].range, #[trigger] t.series@[i].samples@)
}

/// The position of the first tier for `range`.
pub open spec fn tier_index(s: Seq<Series>, range: Range) -> Option<int>
    decreases s.len(),
{
    if s.len() == 0 {
        None
    } else if s[0].range == range {
        Some(0)
    } else {
        match tier_index(s.drop_first(), range) {
            Some(i) => Some(i + 1),
            None => None,
        }
    }
}

proof fn lemma_tier_index(s: Seq<Series>, range: Range, i: int)
    requires
        0 <= i <= s.len(),
        forall|j: int| 0 <= j < i ==> s[j].range != range,
    ensures
        i < s.len() && s[i].range == range ==> tier_index(s, range) == Some(i),
        i == s.len() ==> tier_index(s, range) is None,
    decreases i,
{
    if i > 0 {
        lemma_tier_index(s.drop_first(), range, i - 1);
    }
}

/// The samples held across every tier.
pub open spec fn total_samples(s: Seq<Series>) -> int
    decreases s.len(),
{
    if s.len() == 0 {
        0
    } else {
        total_samples(s.drop_last()) + s.last().samples@.len()
    }
}

impl Default for Trends {
    fn default() -> (r: Trends)
        ensures
            trends_ok(r),
            forall|i: int| 0 <= i < 4 ==> (#[trigger] r.series@[i]).samples@.len() == 0,
    {
        let mut series: Vec<Series> = Vec::new();
        series.push(Series::new(Range::Hour));
        series.push(Series::new(Range::Day));
        series.push(Series::new(Range::Week));
        series.push(Series::new(Range::Month));
        Trends { series }
    }
}

impl Trends {
    /// Empty history: the four tiers, nothing in them.
    pub fn new() -> (r: Trends)
        ensures
            trends_ok(r),
            forall|i: int| 0 <= i < 4 ==> (#[trigger] r.series@[i]).samples@.len() == 0,
    {
        Trends::default()
    }

    /// Record a sample into whichever tiers are due for one.
    pub fn record(&mut self, sample: Sample)
        ensures
            final(self).series@.len() == old(self).series@.len(),
            forall|i: int|
                0 <= i < old(self).series@.len() ==> {
                    &&& (#[trigger] final(self).series@[i]).range == old(self).series@[i].range
                    &&& final(self).series@[i].samples@ == after_offer(
                        old(self).series@[i].samples@,
                        old(self).series@[i].range,
                        sample,
                    )
                },
    {
        let n = self.series.len();
        let mut i: usize = 0;
        while i < n
            invariant
                i <= n,
                n == old(self).series@.len(),
                self.series@.len() == n,
                forall|j: int|
                    0 <= j < i ==> {
                        &&& (#[trigger] self.series@[j]).range == old(self).series@[j].range
                        &&& self.series@[j].samples@ == after_offer(
                            old(self).series@[j].samples@,
                            old(self).series@[j].range,
                            sample,
                        )
                    },
                forall|j: int| i <= j < n ==> #[trigger] self.series@[j] == old(self).series@[j],
            decreases n - i,
        {
            let mut tier = self.series.remove(i);
            tier.offer(sample);
            self.series.insert(i, tier);
            i = i + 1;
        }
    }

    /// The samples to draw for a range, oldest first: those of its tier
    /// taken inside the window ending at `now`.
    pub fn window(&self, range: Range, now: i128) -> (r: Vec<Sample>)
        ensures
            match tier_index(self.series@, range) {
                Some(i) => r@ == taken_since(self.series@[i].samples@, now - span_nanos(range)),
                None => r@.len() == 0,
            },
    {
        let mut i: usize = 0;
        while i < self.series.len()
            invariant
                i <= self.series@.len(),
                forall|j: int| 0 <= j < i ==> self.series@[j].range != range,
            decreases self.series.len() - i,
        {
            if self.series[i].range == range {
                proof {
                    lemma_tier_index(self.series@, range, i as int);
                }
                return self.series[i].window(now);
            }
            i = i + 1;
        }
        proof {
            lemma_tier_index(self.series@, range, i as int);
        }
        Vec::new()
    }

    /// Total samples held, across every tier. For diagnostics.
    pub fn len(&self) -> (r: usize)
        requires
            total_samples(self.series@) <= usize::MAX,
        ensures
            r == total_samples(self.series@),
    {
        let mut total: usize = 0;
        let mut i: usize = 0;
        while i < self.series.len()
            invariant
                i <= self.series@.len(),
                total == total_samples(self.series@.subrange(0, i as int)),
                total_samples(self.series@) <= usize::MAX,
            decreases self.series.len() - i,
        {
            proof {
                assert(self.series@.subrange(0, i + 1).drop_last() =~= self.series@.subrange(0, i as int));
                lemma_total_prefix(self.series@, i + 1);
            }
            total = total + self.series[i].samples.len();
            i = i + 1;
        }
        assert(self.series@.subrange(0, self.series@.len() as int) =~= self.series@);
        total
    }

    /// Whether no tier holds anything.
    pub fn is_empty(&self) -> (r: bool)
        ensures
            r == (total_samples(self.series@) == 0),
    {
        let mut i: usize = 0;
        while i < self.series.len()
            invariant
                i <= self.series@.len(),
                total_samples(self.series@.subrange(0, i as int)) == 0,
            decreases self.series.len() - i,
        {
            assert(self.series@.subrange(0, i + 1).drop_last() =~= self.series@.subrange(0, i as int));
            if self.series[i].samples.len() > 0 {
                proof {
                    lemma_total_prefix(self.series@, i + 1);
                }
                return false;
            }
            i = i + 1;
        }
        assert(self.series@.subrange(0, self.series@.len() as int) =~= self.series@);
        true
    }
}

/// The samples in a prefix are no more than in the whole.
proof fn lemma_total_prefix(s: Seq<Series>, k: int)
    requires
        0 <= k <= s.len(),
    ensures
        total_samples(s.subrange(0, k)) <= total_samples(s),
    decreases s.len() - k,
{
    if k < s.len() {
        lemma_total_prefix(s.drop_last(), k);
        assert(s.drop_last().subrange(0, k) =~= s.subrange(0, k));
    } else {
        assert(s.subrange(0, k) =~= s);
    }
}

// ---------------------------------------------------------------------------
// What every offer keeps.

/// Offering a sample keeps a tier within its invariant: never more samples
/// than its capacity, and each at least an interval after the one before.
pub proof fn lemma_offer_keeps_tier(range: Range, s: Seq<Sample>, x: Sample)
    requires
        tier_ok(range, s),
    ensures
        tier_ok(range, after_offer(s, range, x)),
{
    let cap = range.spec_capacity();
    let iv = interval_nanos(range);
    assert(cap >= 1 && iv > 0);
    if too_soon(s, range, x) {
    } else if s.len() > 0 && x.at < s.last().at {
        assert(keep_last(seq![x], cap) == seq![x]);
    } else {
        let p = s.push(x);
        assert forall|i: int, j: int| 0 <= i < j < p.len() implies #[trigger] p[i].at + iv <= #[trigger] p[j].at by {
            if j == s.len() {
                if i < s.len() - 1 {
                    assert(s[i].at + iv <= s[s.len() - 1].at);
                }
                assert(p[i] == s[i]);
            } else {
                assert(p[i] == s[i] && p[j] == s[j]);
            }
        }
        let k = keep_last(p, cap);
        if p.len() > cap {
            assert forall|i: int, j: int| 0 <= i < j < k.len() implies #[trigger] k[i].at + iv <= #[trigger] k[j].at by {
                assert(k[i] == p[i + p.len() - cap]);
                assert(k[j] == p[j + p.len() - cap]);
            }
        }
    }
}

/// Recording keeps every tier of a history within its invariant.
pub proof fn lemma_record_keeps_history(before: Trends, after: Trends, x: Sample)
    requires
        trends_ok(before),
        after.series@.len() == before.series@.len(),
        forall|i: int|
            0 <= i < before.series@.len() ==> {
                &&& (#[trigger] after.series@[i]).range == before.series@[i].range
                &&& after.series@[i].samples@ == after_offer(before.series@[i].samples@, before.series@[i].range, x)
            },
    ensures
        trends_ok(after),
{
    assert forall|i: int| 0 <= i < 4 implies tier_ok(after.series@[i].range, #[trigger] after.series@[i].samples@) by {
        assert(tier_ok(before.series@[i].range, before.series@[i].samples@));
        lemma_offer_keeps_tier(before.series@[i].range, before.series@[i].samples@, x);
    }
}

/// A window of a tier comes back oldest first: its samples strictly in time
/// order.
pub proof fn lemma_window_oldest_first(range: Range, s: Seq<Sample>, cutoff: int)
    requires
        tier_ok(range, s),
    ensures
        forall|i: int, j: int|
            0 <= i < j < taken_since(s, cutoff).len() ==> #[trigger] taken_since(s, cutoff)[i].at
                < #[trigger] taken_since(s, cutoff)[j].at,
    decreases s.len(),
{
    if s.len() > 0 {
        let t = s.drop_last();
        assert forall|i: int, j: int| 0 <= i < j < t.len() implies #[trigger] t[i].at + interval_nanos(range)
            <= #[trigger] t[j].at by {
            assert(t[i] == s[i] && t[j] == s[j]);
        }
        lemma_window_oldest_first(range, t, cutoff);
        assert(s =~= t.push(s.last()));
        t.lemma_filter_push(s.last(), |x: Sample| x.at >= cutoff);
        let w = taken_since(t, cutoff);
        // Everything the shorter window holds is older than the last sample.
        assert forall|i: int| 0 <= i < w.len() implies #[trigger] w[i].at < s.last().at by {
            assert(t.filter(|x: Sample| x.at >= cutoff).contains(w[i]));
            t.lemma_filter_contains_rev(|x: Sample| x.at >= cutoff, w[i]);
            let k = choose|k: int| 0 <= k < t.len() && t[k] == w[i];
            assert(s[k].at + interval_nanos(range) <= s[s.len() - 1].at);
        }
    }
}

/// A sample that is not turned away is always stored, as the tier's newest:
/// the first sample, one from a clock that went backwards, and one an
/// interval or more after the newest are each kept. A tier drops its oldest
/// only to make room: below capacity the sample is appended, and a full tier
/// keeps everything but its oldest, then the new one. A sample less than an
/// interval after the newest leaves the tier as it was.
pub proof fn lemma_offer_stores_what_it_accepts(range: Range, s: Seq<Sample>, x: Sample)
    requires
        tier_ok(range, s),
    ensures
        (s.len() == 0 || x.at < s.last().at || x.at >= s.last().at + range.interval_secs() * 1_000_000_000) ==> {
            &&& after_offer(s, range, x).len() > 0
            &&& after_offer(s, range, x).last() == x
        },
        (s.len() > 0 && x.at >= s.last().at + range.interval_secs() * 1_000_000_000) ==> after_offer(s, range, x) == if s.len()
            < range.span_secs() / range.interval_secs() + 1 {
            s.push(x)
        } else {
            s.skip(1).push(x)
        },
        (s.len() > 0 && s.last().at <= x.at < s.last().at + range.interval_secs() * 1_000_000_000) ==> after_offer(s, range, x) == s,
{
    let cap = range.spec_capacity();
    assert(cap >= 1 && range.interval_secs() >= 1);
    if s.len() > 0 && x.at >= s.last().at + range.interval_secs() * 1_000_000_000 {
        if s.len() >= cap {
            assert(s.push(x).skip(1) =~= s.skip(1).push(x));
        }
    }
}

/// Every tier takes the first sample it is offered, so a fresh install draws
/// something.
pub proof fn lemma_first_sample_taken(range: Range, x: Sample)
    ensures
        after_offer(Seq::empty(), range, x) == seq![x],
{
    assert(range.spec_capacity() >= 1);
}

/// A clock that jumps backwards restarts the tier with the new sample rather
/// than wedging it.
pub proof fn lemma_backwards_clock_restarts(range: Range, s: Seq<Sample>, x: Sample)
    requires
        s.len() > 0,
        x.at < s.last().at,
    ensures
        after_offer(s, range, x) == seq![x],
{
    assert(range.spec_capacity() >= 1);
}

/// Bounded store: every tier together holds at most 5,620 samples, which is
/// cheap to persist.
pub proof fn lemma_capacities_bounded()
    ensures
        Range::Hour.spec_capacity() + Range::Day.spec_capacity() + Range::Week.spec_capacity()
            + Range::Month.spec_capacity() == 5620,
{
}

} // verus!
