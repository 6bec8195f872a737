//! Collection of samples: the raw values of the metrics of each process,
//! their aggregations and how they changed since the previous sample.
//!
//! Values are formatted for display elsewhere: a sample keeps the numbers,
//! and which of them are shown follows from the metric's aggregations.

use vstd::prelude::*;
use crate::agg::Aggregation;
use crate::metrics::{metric_views, ordered_aggregations, FormattedMetric, MetricId};
use crate::format::Formatter;
use crate::strings::to_string;
use std::collections::BTreeMap;

verus! {

broadcast use {vstd::laws_cmp::group_laws_cmp, vstd::std_specs::btree::group_btree_axioms};

/// How a value changed since the previous sample.
#[derive(Clone, Copy, Debug, PartialEq, Eq, Structural)]
pub enum Trend {
    Less,
    Equal,
    Greater,
}

/// The trend from `old` to `new`.
pub open spec fn trend_of(new: u64, old: u64) -> Trend {
    if new < old {
        Trend::Less
    } else if new == old {
        Trend::Equal
    } else {
        Trend::Greater
    }
}

/// Compare a new value with an old one.
pub fn compare(new: u64, old: u64) -> (t: Trend)
    ensures
        t == trend_of(new, old),
{
    if new < old {
        Trend::Less
    } else if new == old {
        Trend::Equal
    } else {
        Trend::Greater
    }
}

/// Whether it makes sense to track the changes of a metric: times almost
/// always change.
pub open spec fn spec_track_change(id: MetricId) -> bool {
    !(id == MetricId::TimeElapsed || id == MetricId::TimeCpu || id == MetricId::TimeSystem
        || id == MetricId::TimeUser)
}

/// Tell if it makes sense to track metric changes.
pub fn track_change(id: MetricId) -> (b: bool)
    ensures
        b == spec_track_change(id),
{
    !matches!(id, MetricId::TimeElapsed | MetricId::TimeCpu | MetricId::TimeSystem | MetricId::TimeUser)
}

/// Metrics whose ratio is a share of the system's time between the last
/// two samples.
pub open spec fn is_time_ratio(id: MetricId) -> bool {
    id == MetricId::TimeCpu || id == MetricId::TimeSystem || id == MetricId::TimeUser
}

/// Number of leading values that are not shown: the raw value when the raw
/// aggregation is not asked for.
pub open spec fn hidden_count(aggs: Set<Aggregation>) -> nat {
    if aggs.contains(Aggregation::Raw) { 0 } else { 1 }
}

/// The raw sample value and the derived aggregations.
///
/// The first value is the raw value from the system. The following ones
/// are the aggregations, if any. There is one trend per shown value: when
/// the raw aggregation is not asked for, the first value is not shown and
/// has no trend.
pub struct Sample {
    pub values: Vec<u64>,
    pub trends: Vec<Trend>,
}

/// Values and trends of a sample.
pub open spec fn sample_view(s: Sample) -> (Seq<u64>, Seq<Trend>) {
    (s.values@, s.trends@)
}

/// A sample fits its metric: one value per aggregation after the hidden
/// raw value, if any, and a trend per shown value.
pub open spec fn sample_fits(s: (Seq<u64>, Seq<Trend>), aggs: Set<Aggregation>) -> bool {
    let n = ordered_aggregations(aggs).len();
    &&& s.0.len() == n + hidden_count(aggs)
    &&& s.1.len() == n
}

/// A metric can be sampled again: it has an aggregation to show, or its
/// changes are not tracked.
pub open spec fn metric_ok(m: (MetricId, Set<Aggregation>, Formatter)) -> bool {
    ordered_aggregations(m.1).len() > 0 || !spec_track_change(m.0)
}

/// The first sample of a metric: the raw value, then the value for each
/// aggregation (0 for ratios, which need a previous sample), all unchanged.
pub open spec fn first_sample(aggs: Set<Aggregation>, value: u64) -> (Seq<u64>, Seq<Trend>) {
    let ags = ordered_aggregations(aggs);
    let hidden: Seq<u64> = if aggs.contains(Aggregation::Raw) { Seq::empty() } else { seq![value] };
    (
        hidden + ags.map_values(|a: Aggregation| if a == Aggregation::Ratio { 0u64 } else { value }),
        ags.map_values(|a: Aggregation| Trend::Equal),
    )
}

/// The next sample of a metric, given the value of each aggregation: each
/// aggregation takes its new value, the hidden raw value takes the new raw
/// value, and trends compare with the previous values when changes are
/// tracked.
pub open spec fn next_sample(
    old: (Seq<u64>, Seq<Trend>),
    aggs: Set<Aggregation>,
    new_value: u64,
    ag_values: Seq<u64>,
    track: bool,
) -> (Seq<u64>, Seq<Trend>) {
    let h = hidden_count(aggs) as int;
    (
        Seq::new(old.0.len(), |i: int| if i < h { new_value } else { ag_values[i - h] }),
        if track {
            Seq::new(old.1.len(), |k: int| trend_of(ag_values[k], old.0[k + h]))
        } else {
            old.1
        },
    )
}

/// Percentage, multiplied by ten, of a value on the system total.
///
/// For times, it is the share of the time spent by the process between the
/// last two samples in the time spent by the system; otherwise the share
/// of the value in the system's value for the same metric.
pub open spec fn spec_ratio(
    total_time: Seq<u64>,
    system_values: Seq<u64>,
    id: MetricId,
    metric_index: int,
    old_value: u64,
    new_value: u64,
) -> u64 {
    if is_time_ratio(id) {
        if total_time.len() >= 2 {
            let system_delta = total_time[total_time.len() - 1] - total_time[total_time.len() - 2];
            if new_value >= old_value {
                if system_delta == 0 {
                    0
                } else {
                    ((new_value - old_value) * 1000 / system_delta) as u64
                }
            } else {
                0
            }
        } else {
            0
        }
    } else {
        if 0 <= metric_index < system_values.len() && system_values[metric_index] > 0 {
            (new_value * 1000 / (system_values[metric_index] as int)) as u64
        } else {
            0
        }
    }
}

/// Keeps the history of system values to compute ratios like CPU usage.
pub struct Updater {
    pub system_values: Vec<u64>,
    pub total_time: Vec<u64>,
}

impl Updater {
    /// No history yet.
    pub fn new() -> (u: Updater)
        ensures
            u.system_values@.len() == 0,
            u.total_time@.len() == 0,
    {
        Updater { system_values: Vec::new(), total_time: Vec::new() }
    }

    /// The last two system times do not go backward.
    pub open spec fn time_goes_forward(&self) -> bool {
        self.total_time@.len() >= 2 ==> self.total_time@[self.total_time@.len() - 1]
            >= self.total_time@[self.total_time@.len() - 2]
    }

    /// The value of an aggregation of a metric, from the previous raw value,
    /// the new one and the previous value of the aggregation: the smallest or
    /// largest value seen for min and max.
    pub open spec fn aggregation_value(&self, id: MetricId, metric_index: int, a: Aggregation, old_value: u64, new_value: u64, previous: u64) -> u64 {
        match a {
            Aggregation::Ratio => spec_ratio(self.total_time@, self.system_values@, id, metric_index, old_value, new_value),
            Aggregation::Min => if new_value < previous { new_value } else { previous },
            Aggregation::Max => if new_value > previous { new_value } else { previous },
            Aggregation::Raw => new_value,
        }
    }

    /// Keep only the latest system time and the new one.
    pub fn push_system_time(&mut self, milliseconds: u64)
        ensures
            final(self).system_values == old(self).system_values,
            final(self).total_time@ == (if old(self).total_time@.len() == 0 {
                seq![milliseconds]
            } else {
                seq![old(self).total_time@.last(), milliseconds]
            }),
    {
        while self.total_time.len() > 1
            invariant
                self.total_time@.len() >= 1 ==> self.total_time@.last() == old(self).total_time@.last(),
                self.total_time@.len() == 0 <==> old(self).total_time@.len() == 0,
                self.system_values == old(self).system_values,
            decreases self.total_time.len(),
        {
            let _ = self.total_time.remove(0);
        }
        self.total_time.push(milliseconds);
        assert(self.total_time@ =~= (if old(self).total_time@.len() == 0 {
            seq![milliseconds]
        } else {
            seq![old(self).total_time@.last(), milliseconds]
        }));
    }

    /// Historical system time: 1 for the latest, 2 for the one before.
    fn get_total_time(&self, age: usize) -> (t: u64)
        requires
            1 <= age <= self.total_time@.len(),
        ensures
            t == self.total_time@[self.total_time@.len() - age],
    {
        self.total_time[self.total_time.len() - age]
    }

    /// Percentage, multiplied by ten, of the value on the system total.
    pub fn compute_ratio(&self, id: MetricId, metric_index: usize, old_value: u64, new_value: u64) -> (r: u64)
        requires
            self.time_goes_forward(),
            new_value <= u64::MAX / 1000,
        ensures
            r == spec_ratio(self.total_time@, self.system_values@, id, metric_index as int, old_value, new_value),
    {
        let hlen = self.total_time.len();
        match id {
            MetricId::TimeCpu | MetricId::TimeSystem | MetricId::TimeUser => {
                if hlen >= 2 {
                    let system_delta = self.get_total_time(1) - self.get_total_time(2);
                    if new_value >= old_value {
                        let delta = new_value - old_value;
                        if system_delta == 0 {
                            0
                        } else {
                            delta * 1000 / system_delta
                        }
                    } else {
                        0
                    }
                } else {
                    0
                }
            },
            _ => {
                if metric_index < self.system_values.len() && self.system_values[metric_index] > 0 {
                    new_value * 1000 / self.system_values[metric_index]
                } else {
                    0
                }
            },
        }
    }

    /// Keep the raw values of the system's samples.
    pub fn push_samples(&mut self, samples: &[Sample])
        requires
            forall|i: int| 0 <= i < samples@.len() ==> (#[trigger] samples@[i]).values@.len() > 0,
        ensures
            final(self).total_time == old(self).total_time,
            final(self).system_values@ == samples@.map_values(|s: Sample| s.values@[0]),
    {
        let mut values: Vec<u64> = Vec::new();
        let mut i: usize = 0;
        while i < samples.len()
            invariant
                0 <= i <= samples.len(),
                forall|j: int| 0 <= j < samples@.len() ==> (#[trigger] samples@[j]).values@.len() > 0,
                values@ == samples@.take(i as int).map_values(|s: Sample| s.values@[0]),
            decreases samples.len() - i,
        {
            values.push(samples[i].values[0]);
            assert(samples@.take(i + 1).map_values(|s: Sample| s.values@[0])
                =~= samples@.take(i as int).map_values(|s: Sample| s.values@[0]).push(samples@[i as int].values@[0]));
            i = i + 1;
        }
        assert(samples@.take(samples.len() as int) =~= samples@);
        self.system_values = values;
    }
}

impl Sample {
    /// The numeric values.
    pub fn values(&self) -> (v: &[u64])
        ensures
            v@ == self.values@,
    {
        self.values.as_slice()
    }

    /// The trend of each shown value.
    pub fn trends(&self) -> (t: &[Trend])
        ensures
            t@ == self.trends@,
    {
        self.trends.as_slice()
    }

    /// The first sample of a metric.
    pub fn first(metric: &FormattedMetric, value: u64) -> (s: Sample)
        ensures
            sample_view(s) == first_sample(metric.aggregations@, value),
    {
        let mut values: Vec<u64> = Vec::new();
        let mut trends: Vec<Trend> = Vec::new();
        if !metric.aggregations.has(Aggregation::Raw) {
            values.push(value);
        }
        let ghost hidden = values@;
        let all = Aggregation::iter();
        let ghost aggs = metric.aggregations@;
        let mut k: usize = 0;
        while k < all.len()
            invariant
                0 <= k <= all.len(),
                all@ == crate::agg::all_aggregations(),
                aggs == metric.aggregations@,
                hidden == (if aggs.contains(Aggregation::Raw) { Seq::<u64>::empty() } else { seq![value] }),
                values@ == hidden + all@.take(k as int).filter(|a: Aggregation| aggs.contains(a))
                    .map_values(|a: Aggregation| if a == Aggregation::Ratio { 0u64 } else { value }),
                trends@ == all@.take(k as int).filter(|a: Aggregation| aggs.contains(a))
                    .map_values(|a: Aggregation| Trend::Equal),
            decreases all.len() - k,
        {
            let ag = all[k];
            proof {
                reveal(Seq::filter);
                assert(all@.take(k + 1).drop_last() =~= all@.take(k as int));
            }
            if metric.aggregations.has(ag) {
                match ag {
                    Aggregation::Ratio => values.push(0),
                    _ => values.push(value),
                }
                trends.push(Trend::Equal);
            }
            assert(values@ =~= hidden + all@.take(k + 1).filter(|a: Aggregation| aggs.contains(a))
                .map_values(|a: Aggregation| if a == Aggregation::Ratio { 0u64 } else { value }));
            assert(trends@ =~= all@.take(k + 1).filter(|a: Aggregation| aggs.contains(a))
                .map_values(|a: Aggregation| Trend::Equal));
            k = k + 1;
        }
        proof {
            reveal_with_fuel(Seq::filter, 5);
            assert(all@.take(4) =~= all@);
            assert(all@.filter(|a: Aggregation| aggs.contains(a)) =~= ordered_aggregations(aggs));
        }
        Sample { values, trends }
    }
}

/// The aggregations of a set, in the order in which they are listed.
pub fn aggregations_of(metric: &FormattedMetric) -> (v: Vec<Aggregation>)
    ensures
        v@ == ordered_aggregations(metric.aggregations@),
{
    let mut v: Vec<Aggregation> = Vec::new();
    if metric.aggregations.has(Aggregation::Raw) {
        v.push(Aggregation::Raw);
    }
    if metric.aggregations.has(Aggregation::Min) {
        v.push(Aggregation::Min);
    }
    if metric.aggregations.has(Aggregation::Max) {
        v.push(Aggregation::Max);
    }
    if metric.aggregations.has(Aggregation::Ratio) {
        v.push(Aggregation::Ratio);
    }
    assert(v@ =~= ordered_aggregations(metric.aggregations@));
    v
}

/// The value of each aggregation of a metric at the next sample.
pub open spec fn aggregation_values(u: Updater, metric: (MetricId, Set<Aggregation>, Formatter), metric_index: int, old_values: Seq<u64>, new_value: u64) -> Seq<u64> {
    let ags = ordered_aggregations(metric.1);
    let h = hidden_count(metric.1) as int;
    Seq::new(ags.len(), |t: int| u.aggregation_value(metric.0, metric_index, ags[t], old_values[0], new_value, old_values[h + t]))
}

/// Whether the ratio of a metric can be computed without overflow.
pub open spec fn ratio_fits(aggs: Set<Aggregation>, value: u64) -> bool {
    aggs.contains(Aggregation::Ratio) ==> value <= u64::MAX / 1000
}

impl Sample {
    /// Update the raw value, which is not shown.
    fn update_raw(&mut self, value: u64, track_change: bool)
        requires
            old(self).values@.len() > 0,
            track_change ==> old(self).trends@.len() > 0,
        ensures
            final(self).values@ == old(self).values@.update(0, value),
            final(self).trends@ == (if track_change {
                old(self).trends@.update(0, trend_of(value, old(self).values@[0]))
            } else {
                old(self).trends@
            }),
    {
        let trend = compare(value, self.values[0]);
        if trend != Trend::Equal {
            self.values.set(0, value);
        }
        if track_change {
            self.trends.set(0, trend);
        }
        assert(self.values@ =~= old(self).values@.update(0, value));
    }

    /// Update the value at `index` and the trend of its shown value.
    fn update(&mut self, index: usize, value: u64, track_change: bool)
        requires
            old(self).values@.len() >= old(self).trends@.len(),
            old(self).values@.len() - old(self).trends@.len() <= index < old(self).values@.len(),
        ensures
            final(self).values@ == old(self).values@.update(index as int, value),
            final(self).trends@ == (if track_change {
                old(self).trends@.update(
                    index - (old(self).values@.len() - old(self).trends@.len()),
                    trend_of(value, old(self).values@[index as int]),
                )
            } else {
                old(self).trends@
            }),
    {
        if index < self.values.len() {
            let last_value = self.values[index];
            let trend = compare(value, last_value);
            self.values.set(index, value);
            let offset = self.values.len() - self.trends.len();
            let index = index - offset;
            if track_change {
                self.trends.set(index, trend);
            }
        }
    }
}

impl Updater {
    /// Update the sample of a metric with a new raw value.
    pub fn update_sample(&self, metric: &FormattedMetric, metric_index: usize, sample: &mut Sample, new_value: u64)
        requires
            sample_fits(sample_view(*old(sample)), metric.aggregations@),
            metric_ok(metric@),
            ratio_fits(metric.aggregations@, new_value),
            self.time_goes_forward(),
        ensures
            sample_view(*final(sample)) == next_sample(
                sample_view(*old(sample)),
                metric.aggregations@,
                new_value,
                aggregation_values(*self, metric@, metric_index as int, old(sample).values@, new_value),
                spec_track_change(metric.id),
            ),
    {
        let ghost old_values = sample.values@;
        let ghost old_trends = sample.trends@;
        let ghost aggs = metric.aggregations@;
        let ghost h = hidden_count(aggs) as int;
        let ghost agv = aggregation_values(*self, metric@, metric_index as int, old_values, new_value);
        let old_value = sample.values[0];
        let track = track_change(metric.id);
        let mut ag_index: usize = 0;
        if !metric.aggregations.has(Aggregation::Raw) {
            proof {
                if track && old_trends.len() == 0 {
                    assert(ordered_aggregations(aggs).len() == 0);
                }
            }
            sample.update_raw(new_value, track);
            ag_index = ag_index + 1;
        }
        let ags = aggregations_of(metric);
        let mut j: usize = 0;
        while j < ags.len()
            invariant
                0 <= j <= ags.len(),
                ags@ == ordered_aggregations(aggs),
                aggs == metric.aggregations@,
                sample_fits((old_values, old_trends), aggs),
                ratio_fits(aggs, new_value),
                self.time_goes_forward(),
                h == hidden_count(aggs) as int,
                ag_index == h + j,
                old_value == old_values[0],
                track == spec_track_change(metric.id),
                agv == aggregation_values(*self, metric@, metric_index as int, old_values, new_value),
                sample.values@.len() == old_values.len(),
                sample.trends@.len() == old_trends.len(),
                forall|i: int| 0 <= i < h ==> sample.values@[i] == new_value,
                forall|i: int| h <= i < h + j ==> sample.values@[i] == agv[i - h],
                forall|i: int| h + j <= i < old_values.len() ==> sample.values@[i] == old_values[i],
                track ==> forall|t: int| 0 <= t < j ==> sample.trends@[t] == trend_of(agv[t], old_values[t + h]),
                !track ==> forall|t: int| 0 <= t < j ==> sample.trends@[t] == old_trends[t],
                forall|t: int| j <= t < ags@.len() ==> sample.trends@[t] == (if track && h == 1 && t == 0 {
                    trend_of(new_value, old_values[0])
                } else {
                    old_trends[t]
                }),
            decreases ags.len() - j,
        {
            let ag = ags[j];
            let previous = sample.values[ag_index];
            let value = match ag {
                Aggregation::Ratio => self.compute_ratio(metric.id, metric_index, old_value, new_value),
                Aggregation::Min => if new_value < previous { new_value } else { previous },
                Aggregation::Max => if new_value > previous { new_value } else { previous },
                Aggregation::Raw => new_value,
            };
            assert(ags@.contains(Aggregation::Ratio) ==> aggs.contains(Aggregation::Ratio));
            assert(ag == Aggregation::Ratio ==> ags@.contains(Aggregation::Ratio));
            assert(value == agv[j as int]);
            sample.update(ag_index, value, track);
            ag_index = ag_index + 1;
            j = j + 1;
        }
        assert(sample.values@ =~= next_sample((old_values, old_trends), aggs, new_value, agv, track).0);
        assert(sample.trends@ =~= next_sample((old_values, old_trends), aggs, new_value, agv, track).1);
    }
}

/// What the collector reads of a process: its identifier, its parent's
/// and its state.
#[derive(Clone, Copy, Debug, PartialEq, Eq, Structural)]
pub struct ProcessInfo {
    pub pid: i32,
    pub parent_pid: i32,
    pub state: char,
}

/// The computed samples of a process.
pub struct ProcessSamples {
    pub name: String,
    pub pid: i32,
    pub parent_pid: Option<i32>,
    pub state: char,
    pub samples: Vec<Sample>,
}

/// Values and trends of a list of samples.
pub open spec fn samples_view(v: Seq<Sample>) -> Seq<(Seq<u64>, Seq<Trend>)> {
    v.map_values(|s: Sample| sample_view(s))
}

/// What a process's samples are made of.
pub open spec fn process_samples_view(p: ProcessSamples) -> (Seq<char>, i32, Option<i32>, char, Seq<(Seq<u64>, Seq<Trend>)>) {
    (p.name@, p.pid, p.parent_pid, p.state, samples_view(p.samples@))
}

/// Pid of an optional process; 0 stands for the system.
pub open spec fn info_pid(pinfo: Option<ProcessInfo>) -> i32 {
    match pinfo {
        Some(p) => p.pid,
        None => 0,
    }
}

/// Parent pid of an optional process.
pub open spec fn info_parent_pid(pinfo: Option<ProcessInfo>) -> Option<i32> {
    match pinfo {
        Some(p) => Some(p.parent_pid),
        None => None,
    }
}

/// State of an optional process.
pub open spec fn info_state(pinfo: Option<ProcessInfo>) -> char {
    match pinfo {
        Some(p) => p.state,
        None => ' ',
    }
}

/// The first samples of a process: one per metric that has a value.
pub open spec fn first_samples(metrics: Seq<(MetricId, Set<Aggregation>, Formatter)>, values: Seq<u64>) -> Seq<(Seq<u64>, Seq<Trend>)> {
    let n = if metrics.len() < values.len() { metrics.len() } else { values.len() };
    Seq::new(n, |i: int| first_sample(metrics[i].1, values[i]))
}

/// The samples of a process after a new set of values: each sample that
/// has a metric and a value is updated, the others are left alone.
pub open spec fn next_samples(u: Updater, metrics: Seq<(MetricId, Set<Aggregation>, Formatter)>, old: Seq<(Seq<u64>, Seq<Trend>)>, values: Seq<u64>) -> Seq<(Seq<u64>, Seq<Trend>)> {
    Seq::new(old.len(), |i: int|
        if i < metrics.len() && i < values.len() {
            next_sample(
                old[i],
                metrics[i].1,
                values[i],
                aggregation_values(u, metrics[i], i, old[i].0, values[i]),
                spec_track_change(metrics[i].0),
            )
        } else {
            old[i]
        })
}

/// Samples fit the metrics: no more samples than metrics, each one fitting
/// its metric.
pub open spec fn samples_fit(samples: Seq<(Seq<u64>, Seq<Trend>)>, metrics: Seq<(MetricId, Set<Aggregation>, Formatter)>) -> bool {
    &&& samples.len() <= metrics.len()
    &&& forall|i: int| 0 <= i < samples.len() ==> sample_fits(#[trigger] samples[i], metrics[i].1)
}

/// Values fit the metrics: ratios can be computed without overflow.
pub open spec fn values_fit(metrics: Seq<(MetricId, Set<Aggregation>, Formatter)>, values: Seq<u64>) -> bool {
    forall|i: int| 0 <= i < metrics.len() && 0 <= i < values.len() ==> ratio_fits(#[trigger] metrics[i].1, values[i])
}

proof fn lemma_first_sample_fits(aggs: Set<Aggregation>, value: u64)
    ensures
        sample_fits(first_sample(aggs, value), aggs),
        first_sample(aggs, value).0[0] == value,
{
    let f = first_sample(aggs, value);
    if aggs.contains(Aggregation::Raw) {
        assert(ordered_aggregations(aggs)[0] == Aggregation::Raw);
    }
}

proof fn lemma_next_sample_fits(old: (Seq<u64>, Seq<Trend>), aggs: Set<Aggregation>, new_value: u64, agv: Seq<u64>, track: bool)
    requires
        sample_fits(old, aggs),
    ensures
        sample_fits(next_sample(old, aggs, new_value, agv, track), aggs),
{
}

impl ProcessSamples {
    /// Name of the process.
    pub fn name(&self) -> (n: &str)
        ensures
            n@ == self.name@,
    {
        self.name.as_str()
    }

    /// Process identifier.
    pub fn pid(&self) -> (p: i32)
        ensures
            p == self.pid,
    {
        self.pid
    }

    /// Parent process identifier.
    pub fn parent_pid(&self) -> (p: Option<i32>)
        ensures
            p == self.parent_pid,
    {
        self.parent_pid
    }

    /// Process state.
    pub fn state(&self) -> (c: char)
        ensures
            c == self.state,
    {
        self.state
    }

    /// The samples, one per metric.
    pub fn samples(&self) -> (s: &[Sample])
        ensures
            s@ == self.samples@,
    {
        self.samples.as_slice()
    }

    /// The samples as a slice.
    pub fn samples_as_slice(&self) -> (s: &[Sample])
        ensures
            s@ == self.samples@,
    {
        self.samples.as_slice()
    }
}

impl Updater {
    /// Computed values for a new process; the system's ones are kept.
    pub fn new_computed_values(&mut self, target_name: &str, pinfo: Option<ProcessInfo>, metrics: &[FormattedMetric], values: &[u64]) -> (ps: ProcessSamples)
        ensures
            process_samples_view(ps) == (target_name@, info_pid(pinfo), info_parent_pid(pinfo), info_state(pinfo),
                first_samples(metric_views(metrics@), values@)),
            final(self).total_time == old(self).total_time,
            info_pid(pinfo) == 0 ==> final(self).system_values@ == first_samples(metric_views(metrics@), values@).map_values(
                |s: (Seq<u64>, Seq<Trend>)| s.0[0]),
            info_pid(pinfo) != 0 ==> final(self).system_values == old(self).system_values,
    {
        let pid = match pinfo {
            Some(pi) => pi.pid,
            None => 0,
        };
        let parent_pid = match pinfo {
            Some(pi) => Some(pi.parent_pid),
            None => None,
        };
        let state = match pinfo {
            Some(pi) => pi.state,
            None => ' ',
        };
        let ghost ms = metric_views(metrics@);
        let n = if metrics.len() < values.len() { metrics.len() } else { values.len() };
        let mut samples: Vec<Sample> = Vec::new();
        let mut i: usize = 0;
        while i < n
            invariant
                0 <= i <= n,
                n <= metrics.len(),
                n <= values.len(),
                ms == metric_views(metrics@),
                samples_view(samples@) == first_samples(ms, values@).take(i as int),
                forall|j: int| 0 <= j < samples@.len() ==> (#[trigger] samples@[j]).values@.len() > 0,
            decreases n - i,
        {
            let sample = Sample::first(&metrics[i], values[i]);
            proof {
                lemma_first_sample_fits(metrics@[i as int].aggregations@, values@[i as int]);
                assert(ms[i as int] == metrics@[i as int]@);
            }
            let ghost before = samples@;
            samples.push(sample);
            proof {
                assert(samples@ =~= before.push(sample));
                assert(samples_view(samples@) =~= samples_view(before).push(sample_view(sample)));
                assert(first_samples(ms, values@)[i as int] == first_sample(ms[i as int].1, values@[i as int]));
            }
            assert(samples_view(samples@) =~= first_samples(ms, values@).take(i + 1));
            i = i + 1;
        }
        assert(first_samples(ms, values@).take(n as int) =~= first_samples(ms, values@));
        if pid == 0 {
            self.push_samples(samples.as_slice());
            assert(self.system_values@ =~= first_samples(ms, values@).map_values(|s: (Seq<u64>, Seq<Trend>)| s.0[0]));
        }
        ProcessSamples { name: to_string(target_name), pid, parent_pid, state, samples }
    }

    /// Update the samples of an existing process; the system's new raw
    /// values are kept.
    pub fn update_computed_values(&mut self, metrics: &[FormattedMetric], pstat: &mut ProcessSamples, values: &[u64])
        requires
            samples_fit(samples_view(old(pstat).samples@), metric_views(metrics@)),
            forall|i: int| 0 <= i < metrics@.len() ==> metric_ok(#[trigger] metrics@[i]@),
            values_fit(metric_views(metrics@), values@),
            old(self).time_goes_forward(),
        ensures
            final(pstat).name == old(pstat).name,
            final(pstat).pid == old(pstat).pid,
            final(pstat).parent_pid == old(pstat).parent_pid,
            final(pstat).state == old(pstat).state,
            samples_view(final(pstat).samples@) == next_samples(*old(self), metric_views(metrics@), samples_view(old(pstat).samples@), values@),
            samples_fit(samples_view(final(pstat).samples@), metric_views(metrics@)),
            final(self).total_time == old(self).total_time,
            final(self).time_goes_forward(),
            old(pstat).pid == 0 ==> final(self).system_values@ == samples_view(final(pstat).samples@).map_values(
                |s: (Seq<u64>, Seq<Trend>)| s.0[0]),
            old(pstat).pid != 0 ==> final(self).system_values == old(self).system_values,
    {
        let ghost ms = metric_views(metrics@);
        let ghost old_samples = samples_view(pstat.samples@);
        let ghost target = next_samples(*self, ms, old_samples, values@);
        let len = pstat.samples.len();
        let mut i: usize = 0;
        while i < len
            invariant
                0 <= i <= len,
                len == pstat.samples@.len(),
                len == old_samples.len(),
                ms == metric_views(metrics@),
                samples_fit(old_samples, ms),
                forall|j: int| 0 <= j < metrics@.len() ==> metric_ok(#[trigger] metrics@[j]@),
                values_fit(ms, values@),
                self.time_goes_forward(),
                target == next_samples(*self, ms, old_samples, values@),
                forall|j: int| 0 <= j < i ==> samples_view(pstat.samples@)[j] == target[j],
                forall|j: int| i <= j < len ==> samples_view(pstat.samples@)[j] == old_samples[j],
                pstat.name == old(pstat).name,
                pstat.pid == old(pstat).pid,
                pstat.parent_pid == old(pstat).parent_pid,
                pstat.state == old(pstat).state,
            decreases len - i,
        {
            if i < metrics.len() && i < values.len() {
                let mut sample = pstat.samples.remove(i);
                proof {
                    assert(sample_view(sample) == old_samples[i as int]);
                    assert(ms[i as int] == metrics@[i as int]@);
                    assert(sample_fits(old_samples[i as int], ms[i as int].1));
                    assert(metric_ok(metrics@[i as int]@));
                    assert(ratio_fits(ms[i as int].1, values@[i as int]));
                }
                self.update_sample(&metrics[i], i, &mut sample, values[i]);
                pstat.samples.insert(i, sample);
            }
            assert(samples_view(pstat.samples@)[i as int] == target[i as int]);
            i = i + 1;
        }
        assert(samples_view(pstat.samples@) =~= target);
        proof {
            assert forall|j: int| 0 <= j < target.len() implies sample_fits(#[trigger] target[j], ms[j].1) by {
                if j < ms.len() && j < values@.len() {
                    lemma_next_sample_fits(old_samples[j], ms[j].1, values@[j],
                        aggregation_values(*old(self), ms[j], j, old_samples[j].0, values@[j]),
                        spec_track_change(ms[j].0));
                }
            }
        }
        if pstat.pid == 0 {
            proof {
                assert forall|j: int| 0 <= j < pstat.samples@.len() implies (#[trigger] pstat.samples@[j]).values@.len() > 0 by {
                    assert(samples_view(pstat.samples@)[j] == target[j]);
                    assert(sample_fits(target[j], ms[j].1));
                    if ordered_aggregations(ms[j].1).len() == 0 {
                        assert(hidden_count(ms[j].1) == 1);
                    }
                }
            }
            self.push_samples(pstat.samples.as_slice());
            assert(self.system_values@ =~= samples_view(pstat.samples@).map_values(|s: (Seq<u64>, Seq<Trend>)| s.0[0]));
        }
    }
}

/// Collect raw samples from targets and keep computed values.
pub struct Collector {
    /// Tracked metrics.
    pub metrics: Vec<FormattedMetric>,
    /// Samples for each process.
    pub samples: BTreeMap<i32, ProcessSamples>,
    /// Process ids in recording order.
    pub pids: Vec<i32>,
    /// Samples updater.
    pub updater: Updater,
}

/// Whether a recorded process comes after a new one among the children of
/// a parent: same parent, greater pid.
pub open spec fn comes_after(prev: ProcessSamples, pinfo: ProcessInfo) -> bool {
    match prev.parent_pid {
        Some(prev_parent_pid) => prev_parent_pid == pinfo.parent_pid && prev.pid > pinfo.pid,
        None => false,
    }
}

/// Where a new process goes among the first `n` recorded ones: before the
/// run of siblings at their end that have a greater pid, so that children
/// of the same parent are sorted by pid.
pub open spec fn insertion_index(pids: Seq<i32>, samples: Map<i32, ProcessSamples>, pinfo: ProcessInfo, n: nat) -> nat
    decreases n,
{
    if n > 0 && n <= pids.len() && comes_after(samples[pids[n - 1]], pinfo) {
        insertion_index(pids, samples, pinfo, (n - 1) as nat)
    } else {
        n
    }
}

/// The pids after a process is recorded: inserted before the siblings with
/// a greater pid that were recorded last, appended otherwise.
pub open spec fn recorded_pids(pids: Seq<i32>, samples: Map<i32, ProcessSamples>, pinfo: Option<ProcessInfo>) -> Seq<i32> {
    let pid = info_pid(pinfo);
    match pinfo {
        Some(p) => pids.insert(insertion_index(pids, samples, p, pids.len()) as int, pid),
        None => pids.push(pid),
    }
}

/// The min aggregation keeps the smallest value seen and the max
/// aggregation the largest.
pub proof fn law_min_max_keep_extremes(u: Updater, id: MetricId, metric_index: int, old_value: u64, new_value: u64, previous: u64)
    ensures
        u.aggregation_value(id, metric_index, Aggregation::Min, old_value, new_value, previous) <= previous,
        u.aggregation_value(id, metric_index, Aggregation::Min, old_value, new_value, previous) <= new_value,
        u.aggregation_value(id, metric_index, Aggregation::Max, old_value, new_value, previous) >= previous,
        u.aggregation_value(id, metric_index, Aggregation::Max, old_value, new_value, previous) >= new_value,
{
}

proof fn lemma_insertion_index_bound(pids: Seq<i32>, samples: Map<i32, ProcessSamples>, pinfo: ProcessInfo, n: nat)
    ensures
        insertion_index(pids, samples, pinfo, n) <= n,
    decreases n,
{
    if n > 0 && n <= pids.len() && comes_after(samples[pids[n - 1]], pinfo) {
        lemma_insertion_index_bound(pids, samples, pinfo, (n - 1) as nat);
    }
}

impl Collector {
    /// What a collector keeps: every recorded pid has samples, samples are
    /// filed under their pid and fit the metrics, and metrics can be sampled
    /// again.
    pub open spec fn wf(&self) -> bool {
        &&& forall|i: int| 0 <= i < self.pids@.len() ==> self.samples@.contains_key(#[trigger] self.pids@[i])
        &&& forall|k: i32| #[trigger] self.samples@.contains_key(k) ==> self.samples@[k].pid == k
            && samples_fit(samples_view(self.samples@[k].samples@), metric_views(self.metrics@))
        &&& forall|i: int| 0 <= i < self.metrics@.len() ==> metric_ok(#[trigger] self.metrics@[i]@)
    }

    /// A collector for the given metrics, with no sample yet.
    pub fn new(metrics: Vec<FormattedMetric>) -> (c: Collector)
        requires
            forall|i: int| 0 <= i < metrics@.len() ==> metric_ok(#[trigger] metrics@[i]@),
        ensures
            c.wf(),
            c.metrics@ == metrics@,
            c.samples@ == Map::<i32, ProcessSamples>::empty(),
            c.pids@.len() == 0,
            c.updater.system_values@.len() == 0,
            c.updater.total_time@.len() == 0,
    {
        Collector { metrics, samples: BTreeMap::new(), pids: Vec::new(), updater: Updater::new() }
    }

    /// Start collecting from the beginning.
    pub fn rewind(&mut self)
        requires
            old(self).wf(),
        ensures
            final(self).wf(),
            final(self).pids@.len() == 0,
            final(self).samples@ == old(self).samples@,
            final(self).metrics@ == old(self).metrics@,
            final(self).updater == old(self).updater,
    {
        self.pids.clear();
    }

    /// Record the system's total time.
    pub fn collect_system(&mut self, total_time: u64)
        requires
            old(self).wf(),
        ensures
            final(self).wf(),
            final(self).pids@ == old(self).pids@,
            final(self).samples@ == old(self).samples@,
            final(self).metrics@ == old(self).metrics@,
            final(self).updater.system_values == old(self).updater.system_values,
            final(self).updater.total_time@ == (if old(self).updater.total_time@.len() == 0 {
                seq![total_time]
            } else {
                seq![old(self).updater.total_time@.last(), total_time]
            }),
    {
        self.updater.push_system_time(total_time);
    }

    /// Where a new process goes among the recorded ones: children of the
    /// same parent are sorted by pid.
    fn insertion_point(&self, pinfo: ProcessInfo) -> (at: usize)
        requires
            self.wf(),
        ensures
            at == insertion_index(self.pids@, self.samples@, pinfo, self.pids@.len()),
    {
        let mut at = self.pids.len();
        while at > 0
            invariant
                self.wf(),
                at <= self.pids@.len(),
                insertion_index(self.pids@, self.samples@, pinfo, self.pids@.len())
                    == insertion_index(self.pids@, self.samples@, pinfo, at as nat),
            ensures
                insertion_index(self.pids@, self.samples@, pinfo, self.pids@.len()) == at,
            decreases at,
        {
            let prev_pid = self.pids[at - 1];
            assert(self.samples@.contains_key(self.pids@[at - 1]));
            let after = match self.samples.get(&prev_pid) {
                Some(prev) => match prev.parent_pid {
                    Some(prev_parent_pid) => prev_parent_pid == pinfo.parent_pid && prev.pid > pinfo.pid,
                    None => false,
                },
                None => false,
            };
            assert(after == comes_after(self.samples@[self.pids@[at - 1]], pinfo));
            if !after {
                break;
            }
            at = at - 1;
        }
        at
    }

    /// Record the values of the metrics for a process, or for the system
    /// when there is no process.
    pub fn record(&mut self, target_name: &str, pinfo: Option<ProcessInfo>, values: &[u64])
        requires
            old(self).wf(),
            values_fit(metric_views(old(self).metrics@), values@),
            old(self).updater.time_goes_forward(),
        ensures
            final(self).wf(),
            final(self).metrics@ == old(self).metrics@,
            final(self).pids@ == recorded_pids(old(self).pids@, old(self).samples@, pinfo),
            final(self).samples@.dom() == old(self).samples@.dom().insert(info_pid(pinfo)),
            forall|k: i32| #[trigger] old(self).samples@.contains_key(k) && k != info_pid(pinfo)
                ==> final(self).samples@[k] == old(self).samples@[k],
            old(self).samples@.contains_key(info_pid(pinfo)) ==> process_samples_view(final(self).samples@[info_pid(pinfo)]) == (
                old(self).samples@[info_pid(pinfo)].name@,
                info_pid(pinfo),
                info_parent_pid(pinfo),
                info_state(pinfo),
                next_samples(old(self).updater, metric_views(old(self).metrics@),
                    samples_view(old(self).samples@[info_pid(pinfo)].samples@), values@),
            ),
            !old(self).samples@.contains_key(info_pid(pinfo)) ==> process_samples_view(final(self).samples@[info_pid(pinfo)]) == (
                target_name@,
                info_pid(pinfo),
                info_parent_pid(pinfo),
                info_state(pinfo),
                first_samples(metric_views(old(self).metrics@), values@),
            ),
            final(self).updater.total_time == old(self).updater.total_time,
            final(self).updater.time_goes_forward(),
            info_pid(pinfo) != 0 ==> final(self).updater.system_values == old(self).updater.system_values,
            info_pid(pinfo) == 0 ==> final(self).updater.system_values@
                == samples_view(final(self).samples@[0].samples@).map_values(|s: (Seq<u64>, Seq<Trend>)| s.0[0]),
    {
        let pid = match pinfo {
            Some(pi) => pi.pid,
            None => 0,
        };
        let parent_pid = match pinfo {
            Some(pi) => Some(pi.parent_pid),
            None => None,
        };
        let at = match pinfo {
            Some(pi) => self.insertion_point(pi),
            None => self.pids.len(),
        };
        proof {
            match pinfo {
                Some(pi) => lemma_insertion_index_bound(self.pids@, self.samples@, pi, self.pids@.len()),
                None => {},
            }
        }
        self.pids.insert(at, pid);
        let ghost ms = metric_views(self.metrics@);
        match self.samples.remove(&pid) {
            Some(mut samples) => {
                samples.parent_pid = parent_pid;
                samples.state = match pinfo {
                    Some(pi) => pi.state,
                    None => ' ',
                };
                self.updater.update_computed_values(self.metrics.as_slice(), &mut samples, values);
                self.samples.insert(pid, samples);
            },
            None => {
                let samples = self.updater.new_computed_values(target_name, pinfo, self.metrics.as_slice(), values);
                proof {
                    assert forall|i: int| 0 <= i < samples_view(samples.samples@).len() implies
                        sample_fits(#[trigger] samples_view(samples.samples@)[i], ms[i].1) by {
                        lemma_first_sample_fits(ms[i].1, values@[i]);
                    }
                }
                self.samples.insert(pid, samples);
            },
        }
        proof {
            assert forall|i: int| 0 <= i < self.pids@.len() implies self.samples@.contains_key(#[trigger] self.pids@[i]) by {
                if self.pids@[i] != pid {
                    let p = recorded_pids(old(self).pids@, old(self).samples@, pinfo);
                    assert(p == self.pids@);
                    assert(exists|j: int| 0 <= j < old(self).pids@.len() && old(self).pids@[j] == self.pids@[i]) by {
                        if i < at {
                            assert(old(self).pids@[i] == self.pids@[i]);
                        } else {
                            assert(old(self).pids@[i - 1] == self.pids@[i]);
                        }
                    }
                }
            }
        }
    }

    /// Forget the processes that were not recorded since the last rewind.
    pub fn finish(&mut self)
        requires
            old(self).wf(),
        ensures
            final(self).wf(),
            final(self).pids@ == old(self).pids@,
            final(self).metrics@ == old(self).metrics@,
            final(self).samples@ == old(self).samples@.restrict(old(self).pids@.to_set()),
    {
        let ghost old_samples = self.samples@;
        let mut kept: BTreeMap<i32, ProcessSamples> = BTreeMap::new();
        let mut i: usize = 0;
        while i < self.pids.len()
            invariant
                0 <= i <= self.pids@.len(),
                self.pids@ == old(self).pids@,
                self.metrics@ == old(self).metrics@,
                forall|j: int| 0 <= j < self.pids@.len() ==> old_samples.contains_key(#[trigger] self.pids@[j]),
                kept@ == old_samples.restrict(self.pids@.take(i as int).to_set()),
                self.samples@ == old_samples.remove_keys(self.pids@.take(i as int).to_set()),
            decreases self.pids@.len() - i,
        {
            let pid = self.pids[i];
            proof {
                assert(self.pids@.take(i + 1) =~= self.pids@.take(i as int).push(pid));
                assert(self.pids@.take(i + 1).to_set() =~= self.pids@.take(i as int).to_set().insert(pid)) by {
                    self.pids@.take(i as int).lemma_push_to_set_commute(pid);
                }
            }
            match self.samples.remove(&pid) {
                Some(ps) => {
                    kept.insert(pid, ps);
                },
                None => {},
            }
            assert(kept@ =~= old_samples.restrict(self.pids@.take(i + 1).to_set()));
            assert(self.samples@ =~= old_samples.remove_keys(self.pids@.take(i + 1).to_set()));
            i = i + 1;
        }
        assert(self.pids@.take(self.pids@.len() as int) =~= self.pids@);
        self.samples = kept;
        proof {
            assert forall|j: int| 0 <= j < self.pids@.len() implies self.samples@.contains_key(#[trigger] self.pids@[j]) by {
                assert(self.pids@.to_set().contains(self.pids@[j]));
            }
        }
    }

    /// The tracked metrics.
    pub fn metrics(&self) -> (m: &[FormattedMetric])
        ensures
            m@ == self.metrics@,
    {
        self.metrics.as_slice()
    }

    /// The samples of each recorded process, in recording order.
    pub fn lines(&self) -> (r: Vec<&ProcessSamples>)
        requires
            self.wf(),
        ensures
            r@.len() == self.pids@.len(),
            forall|i: int| 0 <= i < r@.len() ==> *(#[trigger] r@[i]) == self.samples@[self.pids@[i]],
    {
        let mut r: Vec<&ProcessSamples> = Vec::new();
        let mut i: usize = 0;
        while i < self.pids.len()
            invariant
                0 <= i <= self.pids@.len(),
                self.wf(),
                r@.len() == i,
                forall|j: int| 0 <= j < i ==> *(#[trigger] r@[j]) == self.samples@[self.pids@[j]],
            decreases self.pids@.len() - i,
        {
            let pid = self.pids[i];
            assert(self.samples@.contains_key(self.pids@[i as int]));
            match self.samples.get(&pid) {
                Some(ps) => r.push(ps),
                None => {},
            }
            i = i + 1;
        }
        r
    }

    /// Number of recorded processes.
    pub fn line_count(&self) -> (n: usize)
        ensures
            n == self.pids@.len(),
    {
        self.pids.len()
    }

    /// Whether no process was recorded since the last rewind.
    pub fn is_empty(&self) -> (b: bool)
        ensures
            b == (self.pids@.len() == 0),
    {
        self.pids.len() == 0
    }
}

} // verus!
