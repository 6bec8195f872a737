use oprs::agg::{Aggregation, AggregationSet};
use oprs::display::text::{divide, ProcessLine, TextDevice};
use oprs::format::Formatter;
use oprs::metrics::{FormattedMetric, MetricId};

#[test]
fn text_test_divide() {
    assert_eq!((2, 0), divide(8, 4));
    assert_eq!((3, 2), divide(11, 3));
}

fn device() -> TextDevice {
    let mut aggregations = AggregationSet::new();
    aggregations.set(Aggregation::Raw);
    aggregations.set(Aggregation::Max);
    let metrics = vec![FormattedMetric {
        id: MetricId::MemVm,
        aggregations,
        format: Formatter::Identity,
    }];
    let mut device = TextDevice::new(false);
    device.open(&metrics);
    device
}

fn process(values: &[&str]) -> ProcessLine {
    ProcessLine {
        name: "proc".to_string(),
        pid: 12,
        values: values.iter().map(|s| s.to_string()).collect(),
    }
}

#[test]
fn text_table_first_lines_have_a_header() {
    let mut device = device();
    let lines = device.render(&[process(&["100", "7"])], false);
    assert_eq!(
        lines,
        vec![
            "+-------------+",
            "|  proc [12]  |",
            "+-------------+",
            "|mem:vm| max  |",
            "| 100  |  7   |",
        ]
    );
    let lines = device.render(&[process(&["101", "8"])], false);
    assert_eq!(lines, vec!["| 101  |  8   |"]);
    assert_eq!(device.close(), vec!["+-------------+"]);
}

#[test]
fn text_table_header_repeats() {
    let mut device = device();
    for n in 0..20 {
        let lines = device.render(&[process(&["1", "2"])], false);
        assert_eq!(lines.len(), if n == 0 { 5 } else { 1 });
    }
    let lines = device.render(&[process(&["1", "2"])], false);
    assert_eq!(lines.len(), 6);
    assert_eq!(lines[0], "+-------------+");
}

#[test]
fn text_table_redraw_forces_header_and_grows() {
    let mut device = device();
    device.render(&[process(&["1", "2"])], false);
    let lines = device.render(&[process(&["123456789", "2"])], true);
    assert_eq!(lines[0], "+-------------+");
    assert_eq!(lines[lines.len() - 1], "|123456789|    2    |");
    assert!(device.render(&[], false).is_empty());
}
