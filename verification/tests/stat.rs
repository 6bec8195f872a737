use oprs::agg::{Aggregation, AggregationSet};
use oprs::format::Formatter;
use oprs::metrics::{FormattedMetric, MetricId};
use oprs::process::stat::{
    CpuTime, FdInfo, FdStats, FdTarget, Io, MapInfo, MapKind, MapsStats, Meminfo, ProcessStat, Stat,
    StatM, SystemConf, SystemStat,
};

fn metrics(ids: &[MetricId]) -> Vec<FormattedMetric> {
    ids.iter()
        .map(|id| {
            let mut aggregations = AggregationSet::new();
            aggregations.set(Aggregation::Raw);
            FormattedMetric {
                id: *id,
                aggregations,
                format: Formatter::Identity,
            }
        })
        .collect()
}

const CONF: SystemConf = SystemConf {
    ticks_per_second: 100,
    boot_time_seconds: 1_000,
    page_size: 4096,
};

fn stat() -> Stat {
    Stat {
        minflt: 11,
        majflt: 2,
        vsize: 123_456,
        rss: 10,
        starttime: 500,
        utime: 250,
        stime: 50,
        num_threads: 4,
    }
}

#[test]
fn process_metrics_from_stat() {
    let mut pstat = ProcessStat::with_stat(stat());
    pstat.statm = Some(StatM { text: 3, data: 5 });
    let values = pstat.extract_metrics(
        &metrics(&[
            MetricId::FaultMinor,
            MetricId::MemRss,
            MetricId::MemText,
            MetricId::TimeCpu,
            MetricId::TimeElapsed,
            MetricId::ThreadCount,
            MetricId::IoReadCall,
        ]),
        &CONF,
        1_100,
    );
    // Started 5 s after boot, 95 s ago; 300 ticks are 3 s.
    assert_eq!(values, vec![11, 40_960, 12_288, 3_000, 95_000, 4, 0]);
}

#[test]
fn file_descriptors_by_kind() {
    let fds = [
        FdInfo { fd: 0, target: FdTarget::Path },
        FdInfo { fd: 7, target: FdTarget::Socket },
        FdInfo { fd: 3, target: FdTarget::Path },
        FdInfo { fd: 4, target: FdTarget::Pipe },
    ];
    let stats = FdStats::new(&fds);
    assert_eq!(stats.total, 4);
    assert_eq!(stats.highest, 7);
    let mut pstat = ProcessStat::with_stat(stat());
    pstat.fd_stats = Some(stats);
    let values = pstat.extract_metrics(
        &metrics(&[MetricId::FdAll, MetricId::FdHigh, MetricId::FdFile, MetricId::FdSocket, MetricId::FdNet]),
        &CONF,
        1_100,
    );
    assert_eq!(values, vec![4, 7, 2, 1, 0]);
}

#[test]
fn memory_maps_by_kind() {
    let maps = [
        MapInfo { kind: MapKind::Heap, start: 0x1000, end: 0x3000 },
        MapInfo { kind: MapKind::Path, start: 0x4000, end: 0x5000 },
        MapInfo { kind: MapKind::Rollup, start: 0x0, end: 0x10 },
        MapInfo { kind: MapKind::Heap, start: 0x8000, end: 0x9000 },
    ];
    let mut pstat = ProcessStat::with_stat(stat());
    pstat.maps_stats = Some(MapsStats::new(&maps));
    let values = pstat.extract_metrics(
        &metrics(&[
            MetricId::MapHeapCount,
            MetricId::MapHeapSize,
            MetricId::MapFileSize,
            MetricId::MapOtherCount,
        ]),
        &CONF,
        1_100,
    );
    assert_eq!(values, vec![2, 0x3000, 0x1000, 1]);
}

#[test]
fn system_metrics() {
    let mut system = SystemStat::new();
    system.cputime = Some(CpuTime {
        user: 1_000,
        nice: 200,
        system: 300,
        idle: 5_000,
        iowait: Some(100),
        irq: None,
        softirq: Some(50),
        steal: None,
        guest: Some(100),
        guest_nice: Some(0),
    });
    system.meminfo = Some(Meminfo {
        mem_total: 8_000,
        mem_free: 3_000,
        swap_total: 1_000,
        swap_free: 400,
    });
    // Busy: 900 + 200 + 300 + 100 + 50 = 1550 ticks; with idle 6550 ticks.
    assert_eq!(system.total_time(&CONF), 65_500);
    let values = system.extract_metrics(
        &metrics(&[
            MetricId::MemVm,
            MetricId::MemRss,
            MetricId::TimeCpu,
            MetricId::TimeUser,
            MetricId::TimeElapsed,
            MetricId::FdAll,
        ]),
        &CONF,
        1_060,
    );
    assert_eq!(values, vec![5_600, 5_000, 15_500, 10_000, 60_000, 0]);
}

#[test]
fn io_calls_count_system_calls_and_totals_count_bytes() {
    let mut pstat = ProcessStat::with_stat(stat());
    pstat.io = Some(Io { rchar: 1000, wchar: 2000, syscr: 10, syscw: 20, read_bytes: 4096, write_bytes: 8192 });
    let values = pstat.extract_metrics(
        &metrics(&[MetricId::IoReadCall, MetricId::IoReadTotal, MetricId::IoWriteCall, MetricId::IoWriteTotal]),
        &CONF,
        1_100,
    );
    assert_eq!(values, vec![10, 1000, 20, 2000]);
}
