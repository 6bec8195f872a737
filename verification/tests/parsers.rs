use oprs::agg::Aggregation;
use oprs::format::Formatter;
use oprs::metrics::MetricId;
use oprs::parsers::parse_metric_spec;

/// Formatting of a value with a unit, as the application prints it.
fn apply(fmt: Formatter, value: u64) -> String {
    let v = value as f64;
    match fmt {
        Formatter::Identity => format!("{}", value),
        Formatter::Kibi => format!("{:.1} Ki", v / 1024.0),
        Formatter::Mebi => format!("{:.1} Mi", v / (1024.0 * 1024.0)),
        Formatter::Gibi => format!("{:.1} Gi", v / (1024.0 * 1024.0 * 1024.0)),
        Formatter::Tebi => format!("{:.1} Ti", v / (1024.0 * 1024.0 * 1024.0 * 1024.0)),
        Formatter::Kilo => format!("{:.1} K", v / 1e3),
        Formatter::Mega => format!("{:.1} M", v / 1e6),
        Formatter::Giga => format!("{:.1} G", v / 1e9),
        Formatter::Tera => format!("{:.1} T", v / 1e12),
        Formatter::Size => {
            if value < 1000 {
                format!("{}", value)
            } else if v < 1e6 {
                format!("{:.1} K", v / 1e3)
            } else if v < 1e9 {
                format!("{:.1} M", v / 1e6)
            } else if v < 1e12 {
                format!("{:.1} G", v / 1e9)
            } else {
                format!("{:.1} T", v / 1e12)
            }
        }
        Formatter::Seconds => oprs::format::duration_seconds(value),
        Formatter::HumanMilliseconds => oprs::format::duration_human(value),
    }
}

#[test]
fn test_wo_raw_w_max() {
    let (metric_ids, aggs, fmt) = parse_metric_spec("mem:vm-raw+max/sz").unwrap();
    assert_eq!(&[MetricId::MemVm], metric_ids.as_slice());
    assert!(aggs.has(Aggregation::Max));
    assert!(!aggs.has(Aggregation::Raw));
    assert!(!aggs.has(Aggregation::Min));
    assert!(!aggs.has(Aggregation::Ratio));
    let fmt = fmt.unwrap();
    assert_eq!("1.0 K", apply(fmt, 1000));
}

#[test]
fn test_w_raw_min_ratio() {
    let (metric_ids, aggs, fmt) = parse_metric_spec("io:write:call+min+ratio").unwrap();
    assert_eq!(&[MetricId::IoWriteCall], metric_ids.as_slice());
    assert!(aggs.has(Aggregation::Raw));
    assert!(aggs.has(Aggregation::Min));
    assert!(!aggs.has(Aggregation::Max));
    assert!(aggs.has(Aggregation::Ratio));
    assert!(fmt.is_none());
}

#[test]
fn test_with_format() {
    let (metric_ids, aggs, fmt) = parse_metric_spec("mem:data/ki").unwrap();
    assert_eq!(&[MetricId::MemData], metric_ids.as_slice());
    assert!(aggs.has(Aggregation::Raw));
    assert!(!aggs.has(Aggregation::Min));
    assert!(!aggs.has(Aggregation::Max));
    assert!(!aggs.has(Aggregation::Ratio));
    let fmt = fmt.unwrap();
    assert_eq!("1.0 Ki", apply(fmt, 1000));
}

#[test]
fn test_name_only() {
    let (metric_ids, aggs, fmt) = parse_metric_spec("fault:minor").unwrap();
    assert_eq!(&[MetricId::FaultMinor], metric_ids.as_slice());
    assert!(aggs.has(Aggregation::Raw));
    assert!(!aggs.has(Aggregation::Min));
    assert!(!aggs.has(Aggregation::Max));
    assert!(!aggs.has(Aggregation::Ratio));
    assert!(fmt.is_none());
}

#[test]
fn test_syntax_error() {
    for name in &["fault:minor#raw", "fault:minor/km"] {
        if let Ok(_) = parse_metric_spec(name) {
            panic!("parsing must fail: {}", name);
        }
    }
}

#[test]
fn units_are_tried_in_order() {
    let (_, _, fmt) = parse_metric_spec("mem:vm/mi").unwrap();
    assert_eq!(Some(Formatter::Mebi), fmt);
    let (_, _, fmt) = parse_metric_spec("mem:vm/m").unwrap();
    assert_eq!(Some(Formatter::Mega), fmt);
    let (_, _, fmt) = parse_metric_spec("time:cpu/du").unwrap();
    assert_eq!(Some(Formatter::HumanMilliseconds), fmt);
    assert!(parse_metric_spec("mem:vm/x").is_err());
    assert!(parse_metric_spec("mem:vm+avg").is_err());
}

#[test]
fn patterns_expand_in_declaration_order() {
    let (ids, _, _) = parse_metric_spec("io:*:call").unwrap();
    assert_eq!(&[MetricId::IoReadCall, MetricId::IoWriteCall], ids.as_slice());
    let (ids, _, _) = parse_metric_spec("not:a:metric").unwrap();
    assert!(ids.is_empty());
    let (ids, _, _) = parse_metric_spec("time:*").unwrap();
    assert_eq!(4, ids.len());
}
