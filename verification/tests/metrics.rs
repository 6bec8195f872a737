use oprs::format::Formatter;
use oprs::metrics::{MetricDataType, MetricId, MetricNamesParser, SHORT_NAME_MAX_LEN};

fn vec_of_string(vstr: &[&str]) -> Vec<String> {
    vstr.iter().map(|s| s.to_string()).collect()
}

#[test]
fn metrics_test_metricid_to_str() {
    assert_eq!("mem:vm", MetricId::MemVm.as_str());
    let name: &'static str = MetricId::MemVm.into();
    assert_eq!("mem:vm", name);
}

#[test]
fn metrics_test_metricid_from_str() {
    assert_eq!(MetricId::MemVm, MetricId::from_str("mem:vm").unwrap());
}

#[test]
fn metrics_test_metricid_help() {
    assert_eq!("virtual memory", MetricId::MemVm.get_message().unwrap());
    for metric_id in MetricId::iter() {
        assert!(
            metric_id.get_message().is_some(),
            "{}: no message",
            metric_id.as_str()
        )
    }
}

#[test]
fn metrics_test_metricid_short_str() {
    for metric_id in MetricId::iter() {
        match metric_id.to_short_str() {
            Some(name) => assert!(
                name.len() <= SHORT_NAME_MAX_LEN,
                "{}: short name is too long",
                metric_id.as_str()
            ),
            None => panic!("{} has no short name", metric_id.as_str()),
        }
    }
}

#[test]
fn metrics_test_parse_metric_names() {
    let metric_names = vec_of_string(&[
        "fault:minor",
        "fault:major/k",
        "io:read:call",
        "io:read:total/sz",
        "io:read:storage",
        "io:write:call",
        "io:write:total",
        "io:write:storage",
        "mem:rss/mi",
        "mem:vm/ti",
        "mem:text/m",
        "mem:data/g",
        "time:elapsed/du",
        "time:system",
        "time:user",
        "thread:count",
    ]);
    // Check few metrics
    let mut parser1 = MetricNamesParser::new(false);
    let metrics1 = parser1.parse(&metric_names[0..2]).unwrap();
    assert_eq!(2, metrics1.len());

    // Check all metrics
    let mut parser2 = MetricNamesParser::new(false);
    let metric_count = metric_names.len();
    let metrics2 = parser2.parse(&metric_names).unwrap();
    assert_eq!(metric_count, metrics2.len());
}

#[test]
fn metrics_test_expand_metric_names() {
    // Check prefix
    let metric_names1 = vec_of_string(&["mem:*"]);
    let mut parser1 = MetricNamesParser::new(false);
    let metrics1 = parser1.parse(&metric_names1).unwrap();
    assert_eq!(4, metrics1.len());

    // Check suffix
    let metric_names2 = vec_of_string(&["*:storage"]);
    let mut parser2 = MetricNamesParser::new(false);
    let metrics2 = parser2.parse(&metric_names2).unwrap();
    assert_eq!(2, metrics2.len());

    // Check middle
    let metric_names3 = vec_of_string(&["io:*:total"]);
    let mut parser3 = MetricNamesParser::new(false);
    let metrics3 = parser3.parse(&metric_names3).unwrap();
    assert_eq!(2, metrics3.len());
}

#[test]
fn metrics_test_expand_metric_names_errors() {
    for pattern in &["mem:*:*", "me*", "not:*"] {
        let metric_names = vec_of_string(&[pattern]);
        let mut parser = MetricNamesParser::new(false);
        assert!(
            parser.parse(&metric_names).is_err(),
            "pattern \"{}\" works unexpectedly",
            pattern
        );
    }
}

#[test]
fn data_type() {
    assert!(matches!(MetricId::FaultMajor.data_type(), MetricDataType::Counter));
    assert!(matches!(MetricId::FdAll.data_type(), MetricDataType::Gauge));
    assert!(matches!(MetricId::IoReadTotal.data_type(), MetricDataType::Counter));
    assert!(matches!(MetricId::MapHeapSize.data_type(), MetricDataType::Gauge));
    assert!(matches!(MetricId::MemVm.data_type(), MetricDataType::Gauge));
    assert!(matches!(MetricId::TimeCpu.data_type(), MetricDataType::Counter));
    assert!(matches!(MetricId::ThreadCount.data_type(), MetricDataType::Gauge));
}

#[test]
fn duplicate_metric_is_reported() {
    let names = vec_of_string(&["mem:vm", "mem:*"]);
    let mut parser = MetricNamesParser::new(false);
    match parser.parse(&names) {
        Err(err) => assert_eq!("mem:vm: duplicate metric", err.to_string()),
        Ok(_) => panic!("duplicate not detected"),
    }
}

#[test]
fn invalid_and_unknown_metrics_are_reported() {
    let mut parser = MetricNamesParser::new(false);
    match parser.parse(&vec_of_string(&["fault:minor#raw"])) {
        Err(err) => assert_eq!("invalid syntax: fault:minor#raw: invalid metric", err.to_string()),
        Ok(_) => panic!("syntax error not detected"),
    }
    match parser.parse(&vec_of_string(&["not:a:metric"])) {
        Err(err) => assert_eq!("not:a:metric: unknown metric or pattern", err.to_string()),
        Ok(_) => panic!("unknown metric not detected"),
    }
}

#[test]
fn default_formatters_depend_on_human_mode() {
    let names = vec_of_string(&["time:cpu", "mem:rss", "fd:all"]);
    let raw = MetricNamesParser::new(false).parse(&names).unwrap();
    assert_eq!(Formatter::Seconds, raw[0].format);
    assert_eq!(Formatter::Identity, raw[1].format);
    let human = MetricNamesParser::new(true).parse(&names).unwrap();
    assert_eq!(Formatter::HumanMilliseconds, human[0].format);
    assert_eq!(Formatter::Size, human[1].format);
    assert_eq!(Formatter::Identity, human[2].format);
    assert!(human[1].has_limit());
    assert!(human[0].has_limit());
    let faults = MetricNamesParser::new(true).parse(&vec_of_string(&["fault:minor"])).unwrap();
    assert!(!faults[0].has_limit());
}
