use oprs::agg::{Aggregation, AggregationSet};
use oprs::format::Formatter;
use oprs::metrics::{FormattedMetric, MetricId};
use oprs::process::collector::{Collector, ProcessInfo, Trend};

fn metric(id: MetricId, aggs: &[Aggregation]) -> FormattedMetric {
    let mut aggregations = AggregationSet::new();
    for ag in aggs {
        aggregations.set(*ag);
    }
    FormattedMetric {
        id,
        aggregations,
        format: Formatter::Identity,
    }
}

fn info(pid: i32, parent_pid: i32) -> ProcessInfo {
    ProcessInfo {
        pid,
        parent_pid,
        state: 'S',
    }
}

#[test]
fn first_sample_holds_raw_and_aggregations() {
    let mut collector = Collector::new(vec![
        metric(MetricId::MemVm, &[Aggregation::Raw, Aggregation::Max]),
        metric(MetricId::MemRss, &[Aggregation::Min, Aggregation::Ratio]),
    ]);
    collector.record("proc", Some(info(10, 1)), &[100, 50]);
    let lines = collector.lines();
    assert_eq!(lines.len(), 1);
    let samples = lines[0].samples();
    assert_eq!(samples[0].values(), &[100, 100]);
    assert_eq!(samples[0].trends(), &[Trend::Equal, Trend::Equal]);
    // The raw value is kept first although it is not shown.
    assert_eq!(samples[1].values(), &[50, 50, 0]);
    assert_eq!(samples[1].trends(), &[Trend::Equal, Trend::Equal]);
    assert_eq!(lines[0].name(), "proc");
    assert_eq!(lines[0].parent_pid(), Some(1));
}

#[test]
fn update_tracks_trends_and_ratio_on_system() {
    let mut collector = Collector::new(vec![metric(
        MetricId::MemRss,
        &[Aggregation::Raw, Aggregation::Ratio],
    )]);
    collector.record("system", None, &[1000]);
    collector.record("proc", Some(info(10, 1)), &[100]);
    collector.rewind();
    collector.record("system", None, &[2000]);
    collector.record("proc", Some(info(10, 1)), &[250]);
    let lines = collector.lines();
    assert_eq!(lines[0].pid(), 0);
    let proc_sample = &lines[1].samples()[0];
    // 250 of the system's 2000 is 12.5%, counted in tenths of percent.
    assert_eq!(proc_sample.values(), &[250, 125]);
    assert_eq!(proc_sample.trends(), &[Trend::Greater, Trend::Greater]);
}

#[test]
fn time_ratio_uses_system_time_delta() {
    let mut collector = Collector::new(vec![metric(
        MetricId::TimeCpu,
        &[Aggregation::Raw, Aggregation::Ratio],
    )]);
    collector.collect_system(1000);
    collector.record("proc", Some(info(10, 1)), &[100]);
    collector.rewind();
    collector.collect_system(3000);
    collector.record("proc", Some(info(10, 1)), &[600]);
    let sample = &collector.lines()[0].samples()[0];
    // 500 ms of 2000 ms is 25%.
    assert_eq!(sample.values(), &[600, 250]);
    // Times are not tracked.
    assert_eq!(sample.trends(), &[Trend::Equal, Trend::Equal]);
}

#[test]
fn children_of_the_same_parent_are_sorted() {
    let mut collector = Collector::new(vec![metric(MetricId::MemVm, &[Aggregation::Raw])]);
    collector.record("a", Some(info(10, 1)), &[1]);
    collector.record("b", Some(info(5, 1)), &[2]);
    let pids: Vec<i32> = collector.lines().iter().map(|l| l.pid()).collect();
    assert_eq!(pids, vec![5, 10]);
    assert_eq!(collector.line_count(), 2);
}

#[test]
fn finish_forgets_processes_not_recorded() {
    let mut collector = Collector::new(vec![metric(MetricId::MemVm, &[Aggregation::Raw])]);
    collector.record("a", Some(info(10, 1)), &[1]);
    collector.record("b", Some(info(11, 1)), &[2]);
    collector.rewind();
    assert!(collector.is_empty());
    collector.record("b", Some(info(11, 1)), &[3]);
    collector.finish();
    assert_eq!(collector.samples.len(), 1);
    assert!(collector.samples.contains_key(&11));
    assert_eq!(collector.lines()[0].samples()[0].values(), &[3]);
    assert_eq!(collector.lines()[0].samples()[0].trends(), &[Trend::Greater]);
}

#[test]
fn siblings_recorded_in_decreasing_order_come_out_sorted() {
    let mut collector = Collector::new(vec![metric(MetricId::MemVm, &[Aggregation::Raw])]);
    collector.rewind();
    collector.record("p", Some(info(5, 1)), &[1]);
    collector.record("p", Some(info(4, 1)), &[1]);
    collector.record("p", Some(info(3, 1)), &[1]);
    let pids: Vec<i32> = collector.lines().iter().map(|l| l.pid()).collect();
    assert_eq!(pids, vec![3, 4, 5]);
}

#[test]
fn min_and_max_keep_the_extremes() {
    let mut collector = Collector::new(vec![metric(
        MetricId::MemVm,
        &[Aggregation::Raw, Aggregation::Min, Aggregation::Max],
    )]);
    for value in [100, 50, 80] {
        collector.rewind();
        collector.record("proc", Some(info(10, 1)), &[value]);
    }
    assert_eq!(collector.lines()[0].samples()[0].values(), &[80, 50, 100]);
}
