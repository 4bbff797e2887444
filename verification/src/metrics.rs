//! Counters of a session and windows of recent samples.
use vstd::prelude::*;
use vstd::set_lib::*;

verus! {

/// Samples that a window keeps.
pub const DEFAULT_WINDOW: usize = 4_096;

/// Distance behind the highest sequence within which late arrivals count.
pub const SEQUENCE_TRACKING_WINDOW: u64 = 4_096;

/// Number of values below a limit.
pub open spec fn count_below(values: Seq<i64>, limit: int) -> nat
    decreases values.len(),
{
    if values.len() == 0 {
        0
    } else {
        count_below(values.drop_last(), limit) + if values.last() < limit {
            1nat
        } else {
            0nat
        }
    }
}

/// `value` stands at place `rank` when the values are put in order.
pub open spec fn is_at_rank(values: Seq<i64>, rank: int, value: i64) -> bool {
    count_below(values, value as int) <= rank < count_below(values, value + 1)
}

proof fn count_below_bounds(values: Seq<i64>, limit: int, split: int)
    requires
        0 <= split <= values.len(),
    ensures
        (forall|i: int| split <= i < values.len() ==> #[trigger] values[i] >= limit)
            ==> count_below(values, limit) <= split,
        (forall|i: int| 0 <= i < split ==> #[trigger] values[i] < limit) ==> count_below(
            values,
            limit,
        ) >= split,
    decreases values.len(),
{
    if values.len() > 0 {
        let rest = values.drop_last();
        if split == values.len() {
            count_below_bounds(rest, limit, split - 1);
            assert(values.last() == values[values.len() - 1]);
            assert forall|i: int| split - 1 <= i < rest.len() implies #[trigger] rest[i]
                >= limit by {}
            if forall|i: int| 0 <= i < split ==> #[trigger] values[i] < limit {
                assert forall|i: int| 0 <= i < split - 1 implies #[trigger] rest[i] < limit by {
                    assert(values[i] < limit);
                }
                assert(values[split - 1] < limit);
            }
            count_below_bounds(rest, limit, rest.len() as int);
        } else {
            count_below_bounds(rest, limit, split);
            if forall|i: int| split <= i < values.len() ==> #[trigger] values[i] >= limit {
                assert(values[values.len() - 1] >= limit);
                assert forall|i: int| split <= i < rest.len() implies #[trigger] rest[i]
                    >= limit by {
                    assert(values[i] >= limit);
                }
            }
            if forall|i: int| 0 <= i < split ==> #[trigger] values[i] < limit {
                assert forall|i: int| 0 <= i < split implies #[trigger] rest[i] < limit by {
                    assert(values[i] < limit);
                }
            }
        }
    }
}

proof fn count_below_insert(values: Seq<i64>, at: int, value: i64, limit: int)
    requires
        0 <= at <= values.len(),
    ensures
        count_below(values.insert(at, value), limit) == count_below(values, limit) + if value
            < limit {
            1nat
        } else {
            0nat
        },
    decreases values.len(),
{
    let longer = values.insert(at, value);
    if at == values.len() {
        assert(longer.drop_last() =~= values);
        assert(longer.last() == value);
    } else {
        count_below_insert(values.drop_last(), at, value, limit);
        assert(longer.drop_last() =~= values.drop_last().insert(at, value));
        assert(longer.last() == values.last());
    }
}

pub open spec fn ascending(values: Seq<i64>) -> bool {
    forall|i: int, j: int| 0 <= i < j < values.len() ==> values[i] <= values[j]
}

fn sorted_samples(values: &Vec<i64>) -> (result: Vec<i64>)
    ensures
        ascending(result@),
        result@.len() == values@.len(),
        forall|limit: int| #[trigger]
            count_below(result@, limit) == count_below(values@, limit),
{
    let mut sorted: Vec<i64> = Vec::new();
    let mut next: usize = 0;
    while next < values.len()
        invariant
            next <= values@.len(),
            sorted@.len() == next,
            ascending(sorted@),
            forall|limit: int| #[trigger]
                count_below(sorted@, limit) == count_below(values@.take(next as int), limit),
        decreases values@.len() - next,
    {
        let value: i64 = values[next];
        let mut at: usize = sorted.len();
        while at > 0 && sorted[at - 1] > value
            invariant
                at <= sorted@.len(),
                ascending(sorted@),
                forall|i: int| at <= i < sorted@.len() ==> sorted@[i] > value,
            decreases at,
        {
            at = at - 1;
        }
        let ghost before = sorted@;
        sorted.insert(at, value);
        proof {
            assert(values@.take(next + 1).drop_last() =~= values@.take(next as int));
            assert forall|limit: int| #[trigger]
                count_below(sorted@, limit) == count_below(values@.take(next + 1), limit) by {
                count_below_insert(before, at as int, value, limit);
                assert(count_below(before, limit) == count_below(
                    values@.take(next as int),
                    limit,
                ));
            }
            assert forall|i: int, j: int| 0 <= i < j < sorted@.len() implies sorted@[i]
                <= sorted@[j] by {
                if i < at && j == at {
                    assert(before[at - 1] <= value);
                    if i < at - 1 {
                        assert(before[i] <= before[at - 1]);
                    }
                }
            }
        }
        next = next + 1;
    }
    assert(values@.take(next as int) =~= values@);
    sorted
}

proof fn sorted_ranks(sorted: Seq<i64>, rank: int)
    requires
        ascending(sorted),
        0 <= rank < sorted.len(),
    ensures
        is_at_rank(sorted, rank, sorted[rank]),
{
    let value = sorted[rank];
    assert forall|i: int| rank <= i < sorted.len() implies #[trigger] sorted[i] >= value by {}
    count_below_bounds(sorted, value as int, rank);
    assert forall|i: int| 0 <= i < rank + 1 implies #[trigger] sorted[i] < value + 1 by {}
    count_below_bounds(sorted, value + 1, rank + 1);
}

/// Place of a quantile, given in thousandths, among so many ordered samples.
pub open spec fn quantile_rank(count: nat, thousandths: int) -> int {
    ((count - 1) * thousandths + 999) / 1000
}

#[derive(Clone, Copy, Debug, PartialEq, Eq, Structural)]
pub struct SampleSummary {
    pub count: usize,
    pub p50: i64,
    pub p95: i64,
    pub p99: i64,
    pub p999: i64,
    pub maximum: i64,
}

impl SampleSummary {
    pub open spec fn summarizes(self, values: Seq<i64>) -> bool {
        &&& self.count == values.len()
        &&& is_at_rank(values, quantile_rank(values.len(), 500), self.p50)
        &&& is_at_rank(values, quantile_rank(values.len(), 950), self.p95)
        &&& is_at_rank(values, quantile_rank(values.len(), 990), self.p99)
        &&& is_at_rank(values, quantile_rank(values.len(), 999), self.p999)
        &&& is_at_rank(values, values.len() - 1, self.maximum)
    }
}

/// Two summaries of the same samples are the same.
pub proof fn summaries_are_unique(values: Seq<i64>, first: SampleSummary, second: SampleSummary)
    requires
        first.summarizes(values),
        second.summarizes(values),
    ensures
        first == second,
{
    rank_is_unique(values, quantile_rank(values.len(), 500), first.p50, second.p50);
    rank_is_unique(values, quantile_rank(values.len(), 950), first.p95, second.p95);
    rank_is_unique(values, quantile_rank(values.len(), 990), first.p99, second.p99);
    rank_is_unique(values, quantile_rank(values.len(), 999), first.p999, second.p999);
    rank_is_unique(values, values.len() - 1, first.maximum, second.maximum);
}

proof fn count_below_grows(values: Seq<i64>, low: int, high: int)
    requires
        low <= high,
    ensures
        count_below(values, low) <= count_below(values, high),
    decreases values.len(),
{
    if values.len() > 0 {
        count_below_grows(values.drop_last(), low, high);
    }
}

proof fn rank_is_unique(values: Seq<i64>, rank: int, first: i64, second: i64)
    requires
        is_at_rank(values, rank, first),
        is_at_rank(values, rank, second),
    ensures
        first == second,
{
    if first < second {
        count_below_grows(values, first + 1, second as int);
    } else if second < first {
        count_below_grows(values, second + 1, first as int);
    }
}

/// A quantile is the sample at the first rank that leaves at least that share of
/// the way from the lowest rank to the highest behind it.
pub proof fn quantiles_stand_at_their_share(count: nat, thousandths: int)
    requires
        0 < count,
        0 <= thousandths <= 1000,
    ensures
        0 <= quantile_rank(count, thousandths) < count,
        (count - 1) * thousandths <= 1000 * quantile_rank(count, thousandths) < (count - 1)
            * thousandths + 1000,
{
    let way = (count - 1) * thousandths;
    assert(0 <= way <= (count - 1) * 1000) by (nonlinear_arith)
        requires
            way == (count - 1) * thousandths,
            0 < count,
            0 <= thousandths <= 1000,
    ;
}

/// How many samples are at most a limit.
pub open spec fn count_up_to(values: Seq<i64>, limit: i64) -> nat
    decreases values.len(),
{
    if values.len() == 0 {
        0
    } else {
        count_up_to(values.drop_last(), limit) + if values.last() <= limit {
            1nat
        } else {
            0nat
        }
    }
}

proof fn count_up_to_is_below_next(values: Seq<i64>, limit: i64)
    ensures
        count_up_to(values, limit) == count_below(values, limit + 1),
        count_up_to(values, limit) <= values.len(),
    decreases values.len(),
{
    if values.len() > 0 {
        count_up_to_is_below_next(values.drop_last(), limit);
    }
}

proof fn counted_samples_are_low(values: Seq<i64>, limit: i64, at: int)
    requires
        count_up_to(values, limit) == values.len(),
        0 <= at < values.len(),
    ensures
        values[at] <= limit,
    decreases values.len(),
{
    count_up_to_is_below_next(values.drop_last(), limit);
    if at < values.len() - 1 {
        counted_samples_are_low(values.drop_last(), limit, at);
    }
}

/// What a summary says of its samples. At least half of the way from the lowest
/// sample to the highest lies behind the median, and so for the others; no sample
/// is above the maximum; the quantiles ascend.
pub proof fn summaries_describe_their_samples(summary: SampleSummary, values: Seq<i64>, at: int)
    requires
        summary.summarizes(values),
        0 <= at < values.len(),
    ensures
        summary.count == values.len(),
        500 * (values.len() - 1) <= 1000 * (count_up_to(values, summary.p50) - 1),
        950 * (values.len() - 1) <= 1000 * (count_up_to(values, summary.p95) - 1),
        990 * (values.len() - 1) <= 1000 * (count_up_to(values, summary.p99) - 1),
        999 * (values.len() - 1) <= 1000 * (count_up_to(values, summary.p999) - 1),
        values[at] <= summary.maximum,
        summary.p50 <= summary.p95 <= summary.p99 <= summary.p999 <= summary.maximum,
{
    let n = values.len();
    count_up_to_is_below_next(values, summary.p50);
    count_up_to_is_below_next(values, summary.p95);
    count_up_to_is_below_next(values, summary.p99);
    count_up_to_is_below_next(values, summary.p999);
    count_up_to_is_below_next(values, summary.maximum);
    quantiles_stand_at_their_share(n, 500);
    quantiles_stand_at_their_share(n, 950);
    quantiles_stand_at_their_share(n, 990);
    quantiles_stand_at_their_share(n, 999);
    counted_samples_are_low(values, summary.maximum, at);
    lower_ranks_hold_lower_samples(
        values,
        quantile_rank(n, 500),
        summary.p50,
        quantile_rank(n, 950),
        summary.p95,
    );
    lower_ranks_hold_lower_samples(
        values,
        quantile_rank(n, 950),
        summary.p95,
        quantile_rank(n, 990),
        summary.p99,
    );
    lower_ranks_hold_lower_samples(
        values,
        quantile_rank(n, 990),
        summary.p99,
        quantile_rank(n, 999),
        summary.p999,
    );
    lower_ranks_hold_lower_samples(
        values,
        quantile_rank(n, 999),
        summary.p999,
        n - 1,
        summary.maximum,
    );
}

proof fn lower_ranks_hold_lower_samples(
    values: Seq<i64>,
    low: int,
    low_value: i64,
    high: int,
    high_value: i64,
)
    requires
        low <= high,
        is_at_rank(values, low, low_value),
        is_at_rank(values, high, high_value),
    ensures
        low_value <= high_value,
{
    if high_value < low_value {
        count_below_grows(values, high_value + 1, low_value as int);
    }
}

/// The last samples, up to a capacity. A sample is the whole number by which
/// its measurement is ordered.
#[derive(Debug, PartialEq, Eq)]
pub struct SampleWindow {
    pub capacity: usize,
    pub values: Vec<i64>,
}

impl Default for SampleWindow {
    fn default() -> (result: Self)
        ensures
            result.wf(),
            result.capacity == DEFAULT_WINDOW,
            result.values@.len() == 0,
    {
        SampleWindow::new(DEFAULT_WINDOW)
    }
}

impl SampleWindow {
    pub open spec fn wf(&self) -> bool {
        0 < self.capacity && self.values@.len() <= self.capacity
    }

    pub fn new(capacity: usize) -> (result: Self)
        requires
            capacity > 0,
        ensures
            result.wf(),
            result.capacity == capacity,
            result.values@.len() == 0,
    {
        SampleWindow { capacity, values: Vec::new() }
    }

    /// Keeps a sample, and drops the oldest when the window is full. A
    /// measurement that is no finite number is `None` and is ignored.
    pub fn record(&mut self, sample: Option<i64>)
        requires
            old(self).wf(),
        ensures
            final(self).wf(),
            final(self).capacity == old(self).capacity,
            final(self).values@ == match sample {
                None => old(self).values@,
                Some(value) => if old(self).values@.len() == old(self).capacity {
                    old(self).values@.drop_first().push(value)
                } else {
                    old(self).values@.push(value)
                },
            },
    {
        if let Some(value) = sample {
            if self.values.len() == self.capacity {
                let _ = self.values.remove(0);
                assert(self.values@ =~= old(self).values@.drop_first());
            }
            self.values.push(value);
        }
    }

    pub fn summary(&self) -> (result: Option<SampleSummary>)
        requires
            self.wf(),
        ensures
            match result {
                Some(summary) => summary.summarizes(self.values@),
                None => self.values@.len() == 0,
            },
    {
        if self.values.len() == 0 {
            return None;
        }
        let sorted = sorted_samples(&self.values);
        let count: usize = sorted.len();
        let last: i64 = sorted[count - 1];
        proof {
            sorted_ranks(sorted@, count - 1);
        }
        Some(
            SampleSummary {
                count,
                p50: percentile(&sorted, 500),
                p95: percentile(&sorted, 950),
                p99: percentile(&sorted, 990),
                p999: percentile(&sorted, 999),
                maximum: last,
            },
        )
    }
}

fn percentile(sorted: &Vec<i64>, thousandths: u64) -> (result: i64)
    requires
        ascending(sorted@),
        sorted@.len() > 0,
        thousandths <= 1000,
    ensures
        is_at_rank(sorted@, quantile_rank(sorted@.len(), thousandths as int), result),
{
    let below: u128 = (sorted.len() - 1) as u128;
    assert(0 <= below * thousandths <= below * 1000) by (nonlinear_arith)
        requires
            0 <= thousandths <= 1000,
            0 <= below,
    ;
    let index: u128 = (below * thousandths as u128 + 999) / 1000;
    proof {
        sorted_ranks(sorted@, index as int);
    }
    sorted[index as usize]
}

/// A summary never counts more samples than the window's capacity.
pub proof fn windows_are_bounded(window: SampleWindow, summary: SampleSummary)
    requires
        window.wf(),
        summary.summarizes(window.values@),
    ensures
        summary.count <= window.capacity,
{
}

/// Counters of a session.
#[derive(Debug, PartialEq, Eq)]
pub struct SessionMetrics {
    /// Events seen while local input was being taken over, before the devices
    /// were grabbed.
    pub switch_time_leakage_events: u64,
    pub clock_reset_count: u64,
    /// Motion sequences that did not arrive, as far as is known.
    pub loss: u64,
    pub reordered: u64,
    pub duplicate_datagrams: u64,
    /// Datagrams that a newer one replaced before they were read.
    pub datagram_queue_drops: u64,
    pub scheduler_late_events: u64,
    pub catch_up_steps: u64,
    pub catch_up_pointer_units: u64,
    pub catch_up_scroll_units: u64,
    pub lease_renewals: u64,
    pub snapshot_acknowledgements: u64,
    pub synthetic_releases: u64,
    pub stale_events_rejected: u64,
    pub epoch_changes: u64,
    pub generation_changes: u64,
    pub explicit_rebases: u64,
    pub rebase_discarded_pointer_units: u64,
    pub rebase_discarded_scroll_units: u64,
    pub highest_motion_sequence: u64,
    /// Sequences near the highest one that have arrived, in order.
    pub recent_motion_sequences: Vec<u64>,
    pub last_packet_delay_us: Option<u64>,
}

impl Default for SessionMetrics {
    fn default() -> (result: Self)
        ensures
            result.wf(),
            result.traffic() == (Traffic {
                loss: 0,
                reordered: 0,
                duplicates: 0,
                highest: 0,
                recent: Set::empty(),
            }),
            result.last_packet_delay_us is None,
            result.switch_time_leakage_events == 0,
            result.clock_reset_count == 0,
            result.datagram_queue_drops == 0,
            result.scheduler_late_events == 0,
            result.catch_up_steps == 0,
            result.catch_up_pointer_units == 0,
            result.catch_up_scroll_units == 0,
            result.lease_renewals == 0,
            result.snapshot_acknowledgements == 0,
            result.synthetic_releases == 0,
            result.stale_events_rejected == 0,
            result.epoch_changes == 0,
            result.generation_changes == 0,
            result.explicit_rebases == 0,
            result.rebase_discarded_pointer_units == 0,
            result.rebase_discarded_scroll_units == 0,
    {
        let result = SessionMetrics {
            switch_time_leakage_events: 0,
            clock_reset_count: 0,
            loss: 0,
            reordered: 0,
            duplicate_datagrams: 0,
            datagram_queue_drops: 0,
            scheduler_late_events: 0,
            catch_up_steps: 0,
            catch_up_pointer_units: 0,
            catch_up_scroll_units: 0,
            lease_renewals: 0,
            snapshot_acknowledgements: 0,
            synthetic_releases: 0,
            stale_events_rejected: 0,
            epoch_changes: 0,
            generation_changes: 0,
            explicit_rebases: 0,
            rebase_discarded_pointer_units: 0,
            rebase_discarded_scroll_units: 0,
            highest_motion_sequence: 0,
            recent_motion_sequences: Vec::new(),
            last_packet_delay_us: None,
        };
        assert(result.recent_motion_sequences@.to_set() =~= Set::empty());
        result
    }
}

/// The counters of a session as they are reported.
#[derive(Clone, Copy, Debug, PartialEq, Eq, Structural)]
pub struct SessionMetricsSnapshot {
    pub switch_time_leakage_events: u64,
    pub clock_reset_count: u64,
    pub loss: u64,
    pub reordered: u64,
    pub duplicate_datagrams: u64,
    pub datagram_queue_drops: u64,
    pub scheduler_late_events: u64,
    pub catch_up_steps: u64,
    pub catch_up_pointer_units: u64,
    pub catch_up_scroll_units: u64,
    pub lease_renewals: u64,
    pub snapshot_acknowledgements: u64,
    pub synthetic_releases: u64,
    pub stale_events_rejected: u64,
    pub epoch_changes: u64,
    pub generation_changes: u64,
    pub explicit_rebases: u64,
    pub rebase_discarded_pointer_units: u64,
    pub rebase_discarded_scroll_units: u64,
}

/// What is known of the motion sequences of a session.
#[verifier::ext_equal]
pub struct Traffic {
    pub loss: u64,
    pub reordered: u64,
    pub duplicates: u64,
    pub highest: u64,
    pub recent: Set<u64>,
}

pub open spec fn saturated(value: int) -> u64 {
    if value > u64::MAX {
        u64::MAX
    } else if value < 0 {
        0
    } else {
        value as u64
    }
}

/// The lowest sequence that still counts.
pub open spec fn tracking_floor(highest: u64) -> u64 {
    saturated(highest - (SEQUENCE_TRACKING_WINDOW - 1))
}

impl Traffic {
    /// Everything recent is positive and within the window.
    pub open spec fn wf(self) -> bool {
        &&& self.recent.finite()
        &&& forall|sequence: u64| #[trigger]
            self.recent.contains(sequence) ==> 0 < sequence <= self.highest && tracking_floor(
                self.highest,
            ) <= sequence
    }

    /// A higher sequence leaves a gap. A lower one within the window repairs a
    /// gap the first time and is a repeat afterwards; below the window it may be
    /// either, and nothing is concluded.
    pub open spec fn observed(self, sequence: u64) -> Traffic {
        if sequence == 0 {
            self
        } else if sequence > self.highest {
            Traffic {
                loss: saturated(self.loss + (sequence - self.highest - 1)),
                highest: sequence,
                recent: self.recent.insert(sequence).filter(
                    |other: u64| other >= tracking_floor(sequence),
                ),
                ..self
            }
        } else if sequence < tracking_floor(self.highest) {
            self
        } else if self.recent.contains(sequence) {
            Traffic { duplicates: saturated(self.duplicates + 1), ..self }
        } else {
            Traffic {
                reordered: saturated(self.reordered + 1),
                loss: saturated(self.loss - 1),
                recent: self.recent.insert(sequence),
                ..self
            }
        }
    }
}

pub open spec fn increasing_sequences(values: Seq<u64>) -> bool {
    forall|i: int, j: int| 0 <= i < j < values.len() ==> values[i] < values[j]
}

impl SessionMetrics {
    pub open spec fn traffic(&self) -> Traffic {
        Traffic {
            loss: self.loss,
            reordered: self.reordered,
            duplicates: self.duplicate_datagrams,
            highest: self.highest_motion_sequence,
            recent: self.recent_motion_sequences@.to_set(),
        }
    }

    pub open spec fn wf(&self) -> bool {
        increasing_sequences(self.recent_motion_sequences@) && self.traffic().wf()
    }

    /// Nothing but the motion sequences differs.
    pub open spec fn differs_in_traffic(&self, other: SessionMetrics) -> bool {
        other == (SessionMetrics {
            loss: other.loss,
            reordered: other.reordered,
            duplicate_datagrams: other.duplicate_datagrams,
            highest_motion_sequence: other.highest_motion_sequence,
            recent_motion_sequences: other.recent_motion_sequences,
            ..*self
        })
    }

    /// A new activation numbers its motion from the start.
    pub fn begin_activation(&mut self)
        ensures
            final(self).wf(),
            final(self).traffic() == (Traffic {
                highest: 0,
                recent: Set::empty(),
                ..old(self).traffic()
            }),
            final(self).last_packet_delay_us is None,
            (SessionMetrics { last_packet_delay_us: None, ..*old(self) }).differs_in_traffic(
                *final(self),
            ),
    {
        self.highest_motion_sequence = 0;
        self.recent_motion_sequences = Vec::new();
        self.last_packet_delay_us = None;
        assert(self.recent_motion_sequences@.to_set() =~= Set::empty());
    }

    /// Gives how much the delay changed since the packet before, if there was one.
    pub fn observe_packet_delay(&mut self, delay_us: u64) -> (variation: Option<u64>)
        ensures
            variation == match old(self).last_packet_delay_us {
                Some(previous) => Some(
                    if delay_us >= previous {
                        (delay_us - previous) as u64
                    } else {
                        (previous - delay_us) as u64
                    },
                ),
                None => None,
            },
            *final(self) == (SessionMetrics {
                last_packet_delay_us: Some(delay_us),
                ..*old(self)
            }),
    {
        let variation = match self.last_packet_delay_us {
            Some(previous) => if delay_us >= previous {
                Some(delay_us - previous)
            } else {
                Some(previous - delay_us)
            },
            None => None,
        };
        self.last_packet_delay_us = Some(delay_us);
        variation
    }

    pub fn snapshot(&self) -> (result: SessionMetricsSnapshot)
        ensures
            result == (SessionMetricsSnapshot {
                switch_time_leakage_events: self.switch_time_leakage_events,
                clock_reset_count: self.clock_reset_count,
                loss: self.loss,
                reordered: self.reordered,
                duplicate_datagrams: self.duplicate_datagrams,
                datagram_queue_drops: self.datagram_queue_drops,
                scheduler_late_events: self.scheduler_late_events,
                catch_up_steps: self.catch_up_steps,
                catch_up_pointer_units: self.catch_up_pointer_units,
                catch_up_scroll_units: self.catch_up_scroll_units,
                lease_renewals: self.lease_renewals,
                snapshot_acknowledgements: self.snapshot_acknowledgements,
                synthetic_releases: self.synthetic_releases,
                stale_events_rejected: self.stale_events_rejected,
                epoch_changes: self.epoch_changes,
                generation_changes: self.generation_changes,
                explicit_rebases: self.explicit_rebases,
                rebase_discarded_pointer_units: self.rebase_discarded_pointer_units,
                rebase_discarded_scroll_units: self.rebase_discarded_scroll_units,
            }),
    {
        SessionMetricsSnapshot {
            switch_time_leakage_events: self.switch_time_leakage_events,
            clock_reset_count: self.clock_reset_count,
            loss: self.loss,
            reordered: self.reordered,
            duplicate_datagrams: self.duplicate_datagrams,
            datagram_queue_drops: self.datagram_queue_drops,
            scheduler_late_events: self.scheduler_late_events,
            catch_up_steps: self.catch_up_steps,
            catch_up_pointer_units: self.catch_up_pointer_units,
            catch_up_scroll_units: self.catch_up_scroll_units,
            lease_renewals: self.lease_renewals,
            snapshot_acknowledgements: self.snapshot_acknowledgements,
            synthetic_releases: self.synthetic_releases,
            stale_events_rejected: self.stale_events_rejected,
            epoch_changes: self.epoch_changes,
            generation_changes: self.generation_changes,
            explicit_rebases: self.explicit_rebases,
            rebase_discarded_pointer_units: self.rebase_discarded_pointer_units,
            rebase_discarded_scroll_units: self.rebase_discarded_scroll_units,
        }
    }

    /// Tracks sequence gaps without retaining an unbounded session history.
    /// Late arrivals repair the loss estimate while they remain in the recent
    /// window. Older arrivals are not guessed at because they may be repeats.
    pub fn observe_motion_sequence(&mut self, sequence: u64)
        requires
            old(self).wf(),
        ensures
            final(self).wf(),
            final(self).traffic() == old(self).traffic().observed(sequence),
            old(self).differs_in_traffic(*final(self)),
    {
        if sequence == 0 {
            return;
        }
        let ghost before = self.recent_motion_sequences@;
        if sequence > self.highest_motion_sequence {
            let gap: u64 = sequence - self.highest_motion_sequence - 1;
            self.loss = self.loss.saturating_add(gap);
            self.highest_motion_sequence = sequence;
            let floor: u64 = sequence.saturating_sub(SEQUENCE_TRACKING_WINDOW - 1);
            let mut recent = keep_from(&self.recent_motion_sequences, floor);
            let ghost kept = recent@;
            assert forall|i: int| 0 <= i < kept.len() implies kept[i] < sequence by {
                assert(kept.to_set().contains(kept[i]));
                assert(before.to_set().contains(kept[i]));
                assert(old(self).traffic().recent.contains(kept[i]));
            }
            recent.push(sequence);
            self.recent_motion_sequences = recent;
            proof {
                let after = self.recent_motion_sequences@;
                let wanted = before.to_set().insert(sequence).filter(
                    |other: u64| other >= tracking_floor(sequence),
                );
                assert forall|other: u64| after.to_set().contains(other)
                    == wanted.contains(other) by {
                    insert_members(kept, kept.len() as int, sequence, other);
                    assert(after =~= kept.insert(kept.len() as int, sequence));
                    assert(kept.to_set().contains(other) == (before.to_set().contains(other)
                        && other >= floor));
                }
                assert(after.to_set() =~= wanted);
                assert forall|other: u64| #[trigger]
                    after.to_set().contains(other) implies 0 < other <= sequence && floor
                    <= other by {
                    if other != sequence {
                        assert(before.to_set().contains(other));
                        assert(old(self).traffic().recent.contains(other));
                    }
                }
                vstd::seq_lib::seq_to_set_is_finite(after);
            }
            return;
        }
        let floor: u64 = self.highest_motion_sequence.saturating_sub(SEQUENCE_TRACKING_WINDOW - 1);
        if sequence < floor {
            return;
        }
        let mut at: usize = self.recent_motion_sequences.len();
        while at > 0 && self.recent_motion_sequences[at - 1] >= sequence
            invariant
                *self == *old(self),
                self.wf(),
                at <= self.recent_motion_sequences@.len(),
                forall|i: int|
                    at <= i < self.recent_motion_sequences@.len()
                        ==> self.recent_motion_sequences@[i] >= sequence,
            decreases at,
        {
            at = at - 1;
        }
        if at < self.recent_motion_sequences.len() && self.recent_motion_sequences[at]
            == sequence {
            self.duplicate_datagrams = self.duplicate_datagrams.saturating_add(1);
            assert(before.to_set().contains(before[at as int]));
            return;
        }
        proof {
            assert forall|i: int| 0 <= i < before.len() implies before[i] != sequence by {
                if i < at && at > 0 {
                    if i < at - 1 {
                        assert(before[i] < before[at - 1]);
                    }
                } else if at < i {
                    assert(before[at as int] < before[i]);
                }
            }
            assert(!before.to_set().contains(sequence));
        }
        self.recent_motion_sequences.insert(at, sequence);
        self.reordered = self.reordered.saturating_add(1);
        self.loss = self.loss.saturating_sub(1);
        proof {
            let after = self.recent_motion_sequences@;
            assert(after =~= before.insert(at as int, sequence));
            assert forall|other: u64| after.to_set().contains(other)
                == before.to_set().insert(sequence).contains(other) by {
                insert_members(before, at as int, sequence, other);
            }
            assert(after.to_set() =~= before.to_set().insert(sequence));
            assert forall|i: int, j: int| 0 <= i < j < after.len() implies after[i]
                < after[j] by {
                if j == at && i < at - 1 {
                    assert(before[i] < before[at - 1]);
                }
                if i == at && j > at + 1 {
                    assert(before[at as int] < before[j - 1]);
                }
                if i < at && j > at {
                    assert(before[i] < before[j - 1]);
                }
            }
            assert forall|other: u64| #[trigger]
                after.to_set().contains(other) implies 0 < other
                <= self.highest_motion_sequence && tracking_floor(self.highest_motion_sequence)
                <= other by {
                if other != sequence {
                    assert(before.to_set().contains(other));
                    assert(old(self).traffic().recent.contains(other));
                }
            }
            vstd::seq_lib::seq_to_set_is_finite(after);
        }
    }
}

proof fn insert_members(values: Seq<u64>, at: int, value: u64, other: u64)
    requires
        0 <= at <= values.len(),
    ensures
        values.insert(at, value).to_set().contains(other) == (other == value
            || values.to_set().contains(other)),
{
    let after = values.insert(at, value);
    if values.contains(other) {
        let k = choose|k: int| 0 <= k < values.len() && values[k] == other;
        if k < at {
            assert(after[k] == other);
        } else {
            assert(after[k + 1] == other);
        }
    }
    if other == value {
        assert(after[at] == other);
    }
    if after.contains(other) && other != value {
        let k = choose|k: int| 0 <= k < after.len() && after[k] == other;
        if k < at {
            assert(values[k] == other);
        } else {
            assert(values[k - 1] == other);
        }
    }
}

fn keep_from(values: &Vec<u64>, floor: u64) -> (result: Vec<u64>)
    requires
        increasing_sequences(values@),
    ensures
        increasing_sequences(result@),
        forall|value: u64| #[trigger]
            result@.to_set().contains(value) == (values@.to_set().contains(value) && value
                >= floor),
{
    let mut kept: Vec<u64> = Vec::new();
    let mut at: usize = 0;
    while at < values.len() && values[at] < floor
        invariant
            at <= values@.len(),
            forall|i: int| 0 <= i < at ==> values@[i] < floor,
        decreases values@.len() - at,
    {
        at = at + 1;
    }
    let start: usize = at;
    while at < values.len()
        invariant
            increasing_sequences(values@),
            start <= at <= values@.len(),
            kept@ =~= values@.subrange(start as int, at as int),
        decreases values@.len() - at,
    {
        kept.push(values[at]);
        at = at + 1;
    }
    proof {
        assert forall|value: u64| #[trigger]
            kept@.to_set().contains(value) == (values@.to_set().contains(value) && value
                >= floor) by {
            if kept@.contains(value) {
                let k = choose|k: int| 0 <= k < kept@.len() && kept@[k] == value;
                assert(values@[start + k] == value);
                if k > 0 {
                    assert(values@[start as int] < values@[start + k]);
                }
            }
            if values@.contains(value) && value >= floor {
                let k = choose|k: int| 0 <= k < values@.len() && values@[k] == value;
                assert(k >= start);
                assert(kept@[k - start] == value);
            }
        }
    }
    kept
}

/// The traffic after a run of arrivals.
pub open spec fn traffic_run(start: Traffic, arrivals: Seq<u64>) -> Traffic
    decreases arrivals.len(),
{
    if arrivals.len() == 0 {
        start
    } else {
        traffic_run(start, arrivals.drop_last()).observed(arrivals.last())
    }
}

/// A sequence that still counts.
pub open spec fn is_recent(traffic: Traffic, sequence: u64) -> bool {
    0 < sequence && tracking_floor(traffic.highest) <= sequence
}

/// Every arrival has a number and is within the window when it comes.
pub open spec fn within_window(start: Traffic, arrivals: Seq<u64>) -> bool {
    forall|i: int|
        0 <= i < arrivals.len() ==> is_recent(
            traffic_run(start, #[trigger] arrivals.take(i)),
            arrivals[i],
        )
}

/// An activation of which nothing arrived yet.
pub open spec fn begun(traffic: Traffic) -> bool {
    traffic.highest == 0 && traffic.recent == Set::<u64>::empty()
}

proof fn distinct_arrivals_fit(known: Set<u64>, highest: u64)
    requires
        known.finite(),
        forall|n: u64| #[trigger] known.contains(n) ==> 0 < n <= highest,
    ensures
        known.len() <= highest,
{
    let range = set_int_range(1, highest + 1);
    lemma_int_range(1, highest + 1);
    let as_ints = known.map(|n: u64| n as int);
    assert(as_ints.subset_of(range)) by {
        assert forall|n: int| as_ints.contains(n) implies range.contains(n) by {
            let m = choose|m: u64| known.contains(m) && m as int == n;
            assert(known.contains(m));
        }
    }
    lemma_len_subset(as_ints, range);
    lemma_map_size(known, as_ints, |n: u64| n as int);
}

/// While arrivals stay within the window, the losses of an activation are
/// exactly the sequences up to the highest that have not arrived: each late
/// arrival takes back what its gap added, and repeats change nothing.
pub proof fn late_arrivals_repair_the_loss(start: Traffic, arrivals: Seq<u64>)
    requires
        begun(start),
        within_window(start, arrivals),
        start.loss + traffic_run(start, arrivals).highest <= u64::MAX,
    ensures
        ({
            let after = traffic_run(start, arrivals);
            &&& after.wf()
            &&& after.loss == start.loss + after.highest - arrivals.to_set().len()
            &&& forall|n: u64| #[trigger]
                arrivals.to_set().contains(n) ==> 0 < n <= after.highest
            &&& forall|n: u64| #[trigger]
                after.recent.contains(n) == (arrivals.to_set().contains(n) && n >= tracking_floor(
                    after.highest,
                ))
        }),
    decreases arrivals.len(),
{
    let after = traffic_run(start, arrivals);
    let seen = arrivals.to_set();
    vstd::seq_lib::seq_to_set_is_finite(arrivals);
    if arrivals.len() == 0 {
        assert(seen =~= Set::<u64>::empty());
    } else {
        let earlier = arrivals.drop_last();
        let before = traffic_run(start, earlier);
        let sequence = arrivals.last();
        let known = earlier.to_set();
        let last = arrivals.len() - 1;
        assert(arrivals.take(last) =~= earlier);
        assert forall|i: int| 0 <= i < earlier.len() implies is_recent(
            traffic_run(start, #[trigger] earlier.take(i)),
            earlier[i],
        ) by {
            assert(earlier.take(i) =~= arrivals.take(i));
        }
        assert(before.highest <= after.highest);
        late_arrivals_repair_the_loss(start, earlier);
        vstd::seq_lib::seq_to_set_is_finite(earlier);
        assert(tracking_floor(before.highest) <= sequence && 0 < sequence);
        assert(seen =~= known.insert(sequence)) by {
            assert(arrivals =~= earlier.insert(last, sequence));
            assert forall|n: u64| seen.contains(n) == known.insert(sequence).contains(n) by {
                insert_members(earlier, last, sequence, n);
            }
        }
        if sequence <= before.highest {
            assert(before.recent.contains(sequence) == known.contains(sequence));
            distinct_arrivals_fit(seen, before.highest);
        } else {
            assert(!known.contains(sequence));
            distinct_arrivals_fit(known, before.highest);
        }
        assert(after.recent.finite());
    }
}

/// How many samples are less than a limit.
pub open spec fn count_under(values: Seq<i64>, limit: i64) -> nat
    decreases values.len(),
{
    if values.len() == 0 {
        0
    } else {
        count_under(values.drop_last(), limit) + if values.last() < limit {
            1nat
        } else {
            0nat
        }
    }
}

proof fn samples_at_a_rank_exist(values: Seq<i64>, limit: i64)
    ensures
        count_under(values, limit) == count_below(values, limit as int),
        count_below(values, limit as int) < count_below(values, limit + 1) ==> values.contains(
            limit,
        ),
    decreases values.len(),
{
    if values.len() > 0 {
        let earlier = values.drop_last();
        samples_at_a_rank_exist(earlier, limit);
        if earlier.contains(limit) {
            let i = choose|i: int| 0 <= i < earlier.len() && earlier[i] == limit;
            assert(values[i] == limit);
        }
        if values.last() == limit {
            assert(values[values.len() - 1] == limit);
        }
    }
}

/// Every number of a summary is a sample, and no more samples lie under it than its
/// share asks for.
pub proof fn summaries_do_not_exceed_their_share(summary: SampleSummary, values: Seq<i64>)
    requires
        summary.summarizes(values),
        values.len() > 0,
    ensures
        values.contains(summary.p50),
        values.contains(summary.p95),
        values.contains(summary.p99),
        values.contains(summary.p999),
        values.contains(summary.maximum),
        1000 * count_under(values, summary.p50) < 500 * (values.len() - 1) + 1000,
        1000 * count_under(values, summary.p95) < 950 * (values.len() - 1) + 1000,
        1000 * count_under(values, summary.p99) < 990 * (values.len() - 1) + 1000,
        1000 * count_under(values, summary.p999) < 999 * (values.len() - 1) + 1000,
{
    let n = values.len();
    samples_at_a_rank_exist(values, summary.p50);
    samples_at_a_rank_exist(values, summary.p95);
    samples_at_a_rank_exist(values, summary.p99);
    samples_at_a_rank_exist(values, summary.p999);
    samples_at_a_rank_exist(values, summary.maximum);
    quantiles_stand_at_their_share(n, 500);
    quantiles_stand_at_their_share(n, 950);
    quantiles_stand_at_their_share(n, 990);
    quantiles_stand_at_their_share(n, 999);
}

/// An arrival counts as one thing at most: as repeated exactly if it was seen, as
/// reordered exactly if it is new, not ahead, and less than 4096 behind. It moves the
/// highest sequence only forward, and what it skips is lost.
pub proof fn arrivals_count_once(traffic: Traffic, sequence: u64)
    requires
        traffic.wf(),
        sequence > 0,
    ensures
        ({
            let after = traffic.observed(sequence);
            let seen = traffic.recent.contains(sequence);
            let ahead = sequence > traffic.highest;
            let late = !ahead && !seen && traffic.highest - sequence < 4096;
            &&& after.highest == if ahead {
                sequence
            } else {
                traffic.highest
            }
            &&& seen ==> after.duplicates == saturated(traffic.duplicates + 1)
            &&& !seen ==> after.duplicates == traffic.duplicates
            &&& late ==> after.reordered == saturated(traffic.reordered + 1) && after.loss
                == saturated(traffic.loss - 1)
            &&& !late ==> after.reordered == traffic.reordered
            &&& ahead ==> after.loss == saturated(traffic.loss + (sequence - traffic.highest - 1))
            &&& !ahead && !late ==> after.loss == traffic.loss && after.recent == traffic.recent
            &&& ahead || late ==> after.recent.contains(sequence)
            &&& after.wf()
        }),
{
    if traffic.recent.contains(sequence) {
        assert(0 < sequence <= traffic.highest);
    }
    let after = traffic.observed(sequence);
    if sequence > traffic.highest {
        let kept = traffic.recent.insert(sequence);
        assert(after.recent =~= kept.intersect(
            Set::new(|other: u64| other >= tracking_floor(sequence)),
        ));
    }
}

} // verus!
