use std::time::Duration;

use oprs::agg::Aggregation;
use oprs::cfg::{ExportSettings, ExportType};
use oprs::export::rrd::{
    color_hex, db_name, ds_definition, graph_def, Error, RrdCommand, RrdExporter,
};
use oprs::metrics::MetricId;
use oprs::process::collector::{ProcessSamples, Sample};

fn settings(kind: ExportType, count: Option<usize>) -> ExportSettings {
    let mut s = ExportSettings::new();
    s.kind = kind;
    s.count = count;
    s
}

fn line(pid: i32, name: &str, values: &[u64]) -> ProcessSamples {
    ProcessSamples {
        name: name.to_string(),
        pid,
        parent_pid: Some(1),
        state: 'S',
        samples: values
            .iter()
            .map(|v| Sample { values: vec![*v, 0], trends: vec![] })
            .collect(),
    }
}

fn text(c: &RrdCommand) -> (&'static str, &str) {
    match c {
        RrdCommand::Create(s) => ("create", s.as_str()),
        RrdCommand::Update(s) => ("update", s.as_str()),
        RrdCommand::Graph(s) => ("graph", s.as_str()),
    }
}

#[test]
fn data_source_definitions() {
    assert_eq!("DS:mem_vm:GAUGE:10:0:U", ds_definition(MetricId::MemVm, 10));
    assert_eq!("DS:io_read_call:COUNTER:2:0:U", ds_definition(MetricId::IoReadCall, 2));
}

#[test]
fn database_and_graph_names() {
    assert_eq!("bash_42.rrd", db_name(42, "bash"));
    assert_eq!("00ff00", color_hex(0xff00));
    assert_eq!("fa8072", color_hex(0xfa8072));
    assert_eq!(
        "DEF:v1=bash_42.rrd:mem_vm:AVERAGE LINE1:v1#0000ff:\"bash\"",
        graph_def(1, "bash_42.rrd", "mem_vm", 0xff, "bash")
    );
}

#[test]
fn new_exporter_checks_settings() {
    let one = Duration::from_secs(1);
    assert!(matches!(RrdExporter::new(&settings(ExportType::Rrd, None), one), Err(Error::MissingCount)));
    assert!(matches!(
        RrdExporter::new(&settings(ExportType::Rrd, Some(10)), Duration::from_millis(1500)),
        Err(Error::IntervalNotWholeSeconds)
    ));
    assert!(matches!(
        RrdExporter::new(&settings(ExportType::Rrd, Some(10)), Duration::from_secs(u64::MAX)),
        Err(Error::PeriodTooLarge)
    ));
    let ex = RrdExporter::new(&settings(ExportType::RrdGraph, Some(10)), Duration::from_secs(5)).unwrap();
    assert_eq!(Duration::from_secs(50), ex.period);
    assert!(ex.graph);
    assert_eq!(12, ex.color_bucket.len());
}

#[test]
fn export_creates_then_updates_then_forgets() {
    let mut ex = RrdExporter::new(&settings(ExportType::Rrd, Some(10)), Duration::from_secs(5)).unwrap();
    ex.open(&[(MetricId::MemVm, Aggregation::Raw), (MetricId::MemVm, Aggregation::Max), (MetricId::MemRss, Aggregation::Raw)]);
    assert_eq!(vec![false, true, false], ex.skip);
    assert_eq!(vec!["DS:mem_vm:GAUGE:10:0:U", "DS:mem_rss:GAUGE:10:0:U"], ex.ds);

    let lines = vec![line(0, "system", &[1, 2, 3]), line(42, "bash", &[100, 200, 300])];
    let (cmds, res) = ex.export(&lines, Duration::from_secs(1000));
    assert!(res.is_ok());
    let cmds: Vec<(&str, &str)> = cmds.iter().map(text).collect();
    assert_eq!(
        vec![
            ("create", "create bash_42.rrd --start=995 --step=5 DS:mem_vm:GAUGE:10:0:U DS:mem_rss:GAUGE:10:0:U RRA:AVERAGE:0.5:1:10\n"),
            ("update", "update bash_42.rrd 1000:100:300\n"),
        ],
        cmds
    );

    let (cmds, res) = ex.export(&lines, Duration::from_secs(1005));
    assert!(res.is_ok());
    assert_eq!(vec![("update", "update bash_42.rrd 1005:100:300\n")], cmds.iter().map(text).collect::<Vec<_>>());
    assert_eq!(1, ex.infos.len());

    let (cmds, res) = ex.export(&lines[..1], Duration::from_secs(1010));
    assert!(res.is_ok());
    assert!(cmds.is_empty());
    assert!(ex.infos.is_empty());
}

#[test]
fn export_with_graphs_uses_colors() {
    let mut ex = RrdExporter::new(&settings(ExportType::RrdGraph, Some(2)), Duration::from_secs(5)).unwrap();
    ex.open(&[(MetricId::MemVm, Aggregation::Raw)]);
    let lines = vec![line(42, "bash", &[100])];
    let (cmds, res) = ex.export(&lines, Duration::from_secs(1000));
    assert!(res.is_ok());
    let cmds: Vec<(&str, &str)> = cmds.iter().map(text).collect();
    assert_eq!(3, cmds.len());
    assert_eq!(
        ("graph", "graph mem_vm.png --start=990 --end=1000 --title=\"mem vm\" DEF:v0=bash_42.rrd:mem_vm:AVERAGE LINE1:v0#1f78b4:\"bash\"\n"),
        cmds[2]
    );
    assert_eq!(11, ex.color_bucket.len());
    // The process is gone: its color is available again.
    let (_, res) = ex.export(&[], Duration::from_secs(1005));
    assert!(res.is_ok());
    assert_eq!(12, ex.color_bucket.len());
    assert_eq!(0x1f78b4, ex.color_bucket[11]);
}

#[test]
fn export_too_early_fails() {
    let mut ex = RrdExporter::new(&settings(ExportType::Rrd, Some(2)), Duration::from_secs(5)).unwrap();
    ex.open(&[(MetricId::MemVm, Aggregation::Raw)]);
    let (cmds, res) = ex.export(&[line(42, "bash", &[1])], Duration::from_secs(3));
    assert!(cmds.is_empty());
    assert!(matches!(res, Err(Error::IntervalTooLarge)));
}
