//! Metrics that can be collected for a process and parsing of metric lists.

use vstd::prelude::*;
use crate::agg::{Aggregation, AggregationSet};
use crate::format::Formatter;
use crate::strings::{push_str, str_eq, to_string};
use crate::parsers::{parse_metric_spec, spec_metric_ids, spec_parts};

verus! {

/// Maximum length of a short metric name.
pub const SHORT_NAME_MAX_LEN: usize = 10;

/// Metric data type
///
/// There are two types:
/// - Counter is always increasing such as the number of read calls
/// - Gauge is a positive number that may decrease like the memory consumption
#[derive(Clone, Copy, Debug, PartialEq, Eq, Structural)]
pub enum MetricDataType {
    Counter,
    Gauge,
}

/// Metrics that can be collected for a process
#[derive(Copy, Clone, Debug, Hash, PartialEq, Eq, PartialOrd, Ord, Structural)]
pub enum MetricId {
    FaultMinor,
    FaultMajor,
    FdAll,
    FdHigh,
    FdFile,
    FdSocket,
    FdNet,
    FdPipe,
    FdAnon,
    FdMemFile,
    FdOther,
    IoReadCall,
    IoReadTotal,
    IoReadStorage,
    IoWriteCall,
    IoWriteTotal,
    IoWriteStorage,
    MapAnonCount,
    MapAnonSize,
    MapHeapCount,
    MapHeapSize,
    MapFileCount,
    MapFileSize,
    MapStackCount,
    MapStackSize,
    MapThreadStackCount,
    MapThreadStackSize,
    MapVdsoCount,
    MapVdsoSize,
    MapVsysCount,
    MapVsysSize,
    MapVsyscallCount,
    MapVsyscallSize,
    MapVvarCount,
    MapVvarSize,
    MapOtherCount,
    MapOtherSize,
    MemRss,
    MemVm,
    MemText,
    MemData,
    TimeElapsed,
    TimeCpu,
    TimeSystem,
    TimeUser,
    ThreadCount,
}

/// Name of a metric, as written on the command line.
pub open spec fn metric_name(id: MetricId) -> Seq<char> {
    match id {
        MetricId::FaultMinor => "fault:minor"@,
        MetricId::FaultMajor => "fault:major"@,
        MetricId::FdAll => "fd:all"@,
        MetricId::FdHigh => "fd:high"@,
        MetricId::FdFile => "fd:file"@,
        MetricId::FdSocket => "fd:socket"@,
        MetricId::FdNet => "fd:net"@,
        MetricId::FdPipe => "fd:pipe"@,
        MetricId::FdAnon => "fd:anon"@,
        MetricId::FdMemFile => "fd:mfd"@,
        MetricId::FdOther => "fd:other"@,
        MetricId::IoReadCall => "io:read:call"@,
        MetricId::IoReadTotal => "io:read:total"@,
        MetricId::IoReadStorage => "io:read:storage"@,
        MetricId::IoWriteCall => "io:write:call"@,
        MetricId::IoWriteTotal => "io:write:total"@,
        MetricId::IoWriteStorage => "io:write:storage"@,
        MetricId::MapAnonCount => "map:anon:count"@,
        MetricId::MapAnonSize => "map:anon:size"@,
        MetricId::MapHeapCount => "map:heap:count"@,
        MetricId::MapHeapSize => "map:heap:size"@,
        MetricId::MapFileCount => "map:file:count"@,
        MetricId::MapFileSize => "map:file:size"@,
        MetricId::MapStackCount => "map:stack:count"@,
        MetricId::MapStackSize => "map:stack:size"@,
        MetricId::MapThreadStackCount => "map:tstack:count"@,
        MetricId::MapThreadStackSize => "map:tstack:size"@,
        MetricId::MapVdsoCount => "map:vdso:count"@,
        MetricId::MapVdsoSize => "map:vdso:size"@,
        MetricId::MapVsysCount => "map:vsys:count"@,
        MetricId::MapVsysSize => "map:vsys:size"@,
        MetricId::MapVsyscallCount => "map:vsyscall:count"@,
        MetricId::MapVsyscallSize => "map:vsyscall:size"@,
        MetricId::MapVvarCount => "map:vvar:count"@,
        MetricId::MapVvarSize => "map:vvar:size"@,
        MetricId::MapOtherCount => "map:other:count"@,
        MetricId::MapOtherSize => "map:other:size"@,
        MetricId::MemRss => "mem:rss"@,
        MetricId::MemVm => "mem:vm"@,
        MetricId::MemText => "mem:text"@,
        MetricId::MemData => "mem:data"@,
        MetricId::TimeElapsed => "time:elapsed"@,
        MetricId::TimeCpu => "time:cpu"@,
        MetricId::TimeSystem => "time:system"@,
        MetricId::TimeUser => "time:user"@,
        MetricId::ThreadCount => "thread:count"@,
    }
}

/// Metric names are distinct: a name designates one metric, so reading the
/// name of a metric gives the metric back.
#[verifier::rlimit(50)]
pub proof fn law_metric_names_distinct(a: MetricId, b: MetricId)
    ensures
        metric_name(a) == metric_name(b) ==> a == b,
{
    reveal_strlit("fault:minor");
    reveal_strlit("fault:major");
    reveal_strlit("fd:all");
    reveal_strlit("fd:high");
    reveal_strlit("fd:file");
    reveal_strlit("fd:socket");
    reveal_strlit("fd:net");
    reveal_strlit("fd:pipe");
    reveal_strlit("fd:anon");
    reveal_strlit("fd:mfd");
    reveal_strlit("fd:other");
    reveal_strlit("io:read:call");
    reveal_strlit("io:read:total");
    reveal_strlit("io:read:storage");
    reveal_strlit("io:write:call");
    reveal_strlit("io:write:total");
    reveal_strlit("io:write:storage");
    reveal_strlit("map:anon:count");
    reveal_strlit("map:anon:size");
    reveal_strlit("map:heap:count");
    reveal_strlit("map:heap:size");
    reveal_strlit("map:file:count");
    reveal_strlit("map:file:size");
    reveal_strlit("map:stack:count");
    reveal_strlit("map:stack:size");
    reveal_strlit("map:tstack:count");
    reveal_strlit("map:tstack:size");
    reveal_strlit("map:vdso:count");
    reveal_strlit("map:vdso:size");
    reveal_strlit("map:vsys:count");
    reveal_strlit("map:vsys:size");
    reveal_strlit("map:vsyscall:count");
    reveal_strlit("map:vsyscall:size");
    reveal_strlit("map:vvar:count");
    reveal_strlit("map:vvar:size");
    reveal_strlit("map:other:count");
    reveal_strlit("map:other:size");
    reveal_strlit("mem:rss");
    reveal_strlit("mem:vm");
    reveal_strlit("mem:text");
    reveal_strlit("mem:data");
    reveal_strlit("time:elapsed");
    reveal_strlit("time:cpu");
    reveal_strlit("time:system");
    reveal_strlit("time:user");
    reveal_strlit("thread:count");
    if metric_name(a) == metric_name(b) {
        assert(metric_name(a).len() == metric_name(b).len());
        match a {
            MetricId::FaultMinor => match b {
                MetricId::FaultMajor => assert(metric_name(a)[7] != metric_name(b)[7]),
                MetricId::TimeSystem => assert(metric_name(a)[0] != metric_name(b)[0]),
                _ => {},
            },
            MetricId::FaultMajor => match b {
                MetricId::FaultMinor => assert(metric_name(a)[7] != metric_name(b)[7]),
                MetricId::TimeSystem => assert(metric_name(a)[0] != metric_name(b)[0]),
                _ => {},
            },
            MetricId::FdAll => match b {
                MetricId::FdNet => assert(metric_name(a)[3] != metric_name(b)[3]),
                MetricId::FdMemFile => assert(metric_name(a)[3] != metric_name(b)[3]),
                MetricId::MemVm => assert(metric_name(a)[0] != metric_name(b)[0]),
                _ => {},
            },
            MetricId::FdHigh => match b {
                MetricId::FdFile => assert(metric_name(a)[3] != metric_name(b)[3]),
                MetricId::FdPipe => assert(metric_name(a)[3] != metric_name(b)[3]),
                MetricId::FdAnon => assert(metric_name(a)[3] != metric_name(b)[3]),
                MetricId::MemRss => assert(metric_name(a)[0] != metric_name(b)[0]),
                _ => {},
            },
            MetricId::FdFile => match b {
                MetricId::FdHigh => assert(metric_name(a)[3] != metric_name(b)[3]),
                MetricId::FdPipe => assert(metric_name(a)[3] != metric_name(b)[3]),
                MetricId::FdAnon => assert(metric_name(a)[3] != metric_name(b)[3]),
                MetricId::MemRss => assert(metric_name(a)[0] != metric_name(b)[0]),
                _ => {},
            },
            MetricId::FdSocket => match b {
                MetricId::TimeUser => assert(metric_name(a)[0] != metric_name(b)[0]),
                _ => {},
            },
            MetricId::FdNet => match b {
                MetricId::FdAll => assert(metric_name(a)[3] != metric_name(b)[3]),
                MetricId::FdMemFile => assert(metric_name(a)[3] != metric_name(b)[3]),
                MetricId::MemVm => assert(metric_name(a)[0] != metric_name(b)[0]),
                _ => {},
            },
            MetricId::FdPipe => match b {
                MetricId::FdHigh => assert(metric_name(a)[3] != metric_name(b)[3]),
                MetricId::FdFile => assert(metric_name(a)[3] != metric_name(b)[3]),
                MetricId::FdAnon => assert(metric_name(a)[3] != metric_name(b)[3]),
                MetricId::MemRss => assert(metric_name(a)[0] != metric_name(b)[0]),
                _ => {},
            },
            MetricId::FdAnon => match b {
                MetricId::FdHigh => assert(metric_name(a)[3] != metric_name(b)[3]),
                MetricId::FdFile => assert(metric_name(a)[3] != metric_name(b)[3]),
                MetricId::FdPipe => assert(metric_name(a)[3] != metric_name(b)[3]),
                MetricId::MemRss => assert(metric_name(a)[0] != metric_name(b)[0]),
                _ => {},
            },
            MetricId::FdMemFile => match b {
                MetricId::FdAll => assert(metric_name(a)[3] != metric_name(b)[3]),
                MetricId::FdNet => assert(metric_name(a)[3] != metric_name(b)[3]),
                MetricId::MemVm => assert(metric_name(a)[0] != metric_name(b)[0]),
                _ => {},
            },
            MetricId::FdOther => match b {
                MetricId::MemText => assert(metric_name(a)[0] != metric_name(b)[0]),
                MetricId::MemData => assert(metric_name(a)[0] != metric_name(b)[0]),
                MetricId::TimeCpu => assert(metric_name(a)[0] != metric_name(b)[0]),
                _ => {},
            },
            MetricId::IoReadCall => match b {
                MetricId::TimeElapsed => assert(metric_name(a)[0] != metric_name(b)[0]),
                MetricId::ThreadCount => assert(metric_name(a)[0] != metric_name(b)[0]),
                _ => {},
            },
            MetricId::IoReadTotal => match b {
                MetricId::IoWriteCall => assert(metric_name(a)[3] != metric_name(b)[3]),
                MetricId::MapAnonSize => assert(metric_name(a)[0] != metric_name(b)[0]),
                MetricId::MapHeapSize => assert(metric_name(a)[0] != metric_name(b)[0]),
                MetricId::MapFileSize => assert(metric_name(a)[0] != metric_name(b)[0]),
                MetricId::MapVdsoSize => assert(metric_name(a)[0] != metric_name(b)[0]),
                MetricId::MapVsysSize => assert(metric_name(a)[0] != metric_name(b)[0]),
                MetricId::MapVvarSize => assert(metric_name(a)[0] != metric_name(b)[0]),
                _ => {},
            },
            MetricId::IoReadStorage => match b {
                MetricId::MapStackCount => assert(metric_name(a)[0] != metric_name(b)[0]),
                MetricId::MapThreadStackSize => assert(metric_name(a)[0] != metric_name(b)[0]),
                MetricId::MapOtherCount => assert(metric_name(a)[0] != metric_name(b)[0]),
                _ => {},
            },
            MetricId::IoWriteCall => match b {
                MetricId::IoReadTotal => assert(metric_name(a)[3] != metric_name(b)[3]),
                MetricId::MapAnonSize => assert(metric_name(a)[0] != metric_name(b)[0]),
                MetricId::MapHeapSize => assert(metric_name(a)[0] != metric_name(b)[0]),
                MetricId::MapFileSize => assert(metric_name(a)[0] != metric_name(b)[0]),
                MetricId::MapVdsoSize => assert(metric_name(a)[0] != metric_name(b)[0]),
                MetricId::MapVsysSize => assert(metric_name(a)[0] != metric_name(b)[0]),
                MetricId::MapVvarSize => assert(metric_name(a)[0] != metric_name(b)[0]),
                _ => {},
            },
            MetricId::IoWriteTotal => match b {
                MetricId::MapAnonCount => assert(metric_name(a)[0] != metric_name(b)[0]),
                MetricId::MapHeapCount => assert(metric_name(a)[0] != metric_name(b)[0]),
                MetricId::MapFileCount => assert(metric_name(a)[0] != metric_name(b)[0]),
                MetricId::MapStackSize => assert(metric_name(a)[0] != metric_name(b)[0]),
                MetricId::MapVdsoCount => assert(metric_name(a)[0] != metric_name(b)[0]),
                MetricId::MapVsysCount => assert(metric_name(a)[0] != metric_name(b)[0]),
                MetricId::MapVvarCount => assert(metric_name(a)[0] != metric_name(b)[0]),
                MetricId::MapOtherSize => assert(metric_name(a)[0] != metric_name(b)[0]),
                _ => {},
            },
            MetricId::IoWriteStorage => match b {
                MetricId::MapThreadStackCount => assert(metric_name(a)[0] != metric_name(b)[0]),
                _ => {},
            },
            MetricId::MapAnonCount => match b {
                MetricId::IoWriteTotal => assert(metric_name(a)[0] != metric_name(b)[0]),
                MetricId::MapHeapCount => assert(metric_name(a)[4] != metric_name(b)[4]),
                MetricId::MapFileCount => assert(metric_name(a)[4] != metric_name(b)[4]),
                MetricId::MapStackSize => assert(metric_name(a)[4] != metric_name(b)[4]),
                MetricId::MapVdsoCount => assert(metric_name(a)[4] != metric_name(b)[4]),
                MetricId::MapVsysCount => assert(metric_name(a)[4] != metric_name(b)[4]),
                MetricId::MapVvarCount => assert(metric_name(a)[4] != metric_name(b)[4]),
                MetricId::MapOtherSize => assert(metric_name(a)[4] != metric_name(b)[4]),
                _ => {},
            },
            MetricId::MapAnonSize => match b {
                MetricId::IoReadTotal => assert(metric_name(a)[0] != metric_name(b)[0]),
                MetricId::IoWriteCall => assert(metric_name(a)[0] != metric_name(b)[0]),
                MetricId::MapHeapSize => assert(metric_name(a)[4] != metric_name(b)[4]),
                MetricId::MapFileSize => assert(metric_name(a)[4] != metric_name(b)[4]),
                MetricId::MapVdsoSize => assert(metric_name(a)[4] != metric_name(b)[4]),
                MetricId::MapVsysSize => assert(metric_name(a)[4] != metric_name(b)[4]),
                MetricId::MapVvarSize => assert(metric_name(a)[4] != metric_name(b)[4]),
                _ => {},
            },
            MetricId::MapHeapCount => match b {
                MetricId::IoWriteTotal => assert(metric_name(a)[0] != metric_name(b)[0]),
                MetricId::MapAnonCount => assert(metric_name(a)[4] != metric_name(b)[4]),
                MetricId::MapFileCount => assert(metric_name(a)[4] != metric_name(b)[4]),
                MetricId::MapStackSize => assert(metric_name(a)[4] != metric_name(b)[4]),
                MetricId::MapVdsoCount => assert(metric_name(a)[4] != metric_name(b)[4]),
                MetricId::MapVsysCount => assert(metric_name(a)[4] != metric_name(b)[4]),
                MetricId::MapVvarCount => assert(metric_name(a)[4] != metric_name(b)[4]),
                MetricId::MapOtherSize => assert(metric_name(a)[4] != metric_name(b)[4]),
                _ => {},
            },
            MetricId::MapHeapSize => match b {
                MetricId::IoReadTotal => assert(metric_name(a)[0] != metric_name(b)[0]),
                MetricId::IoWriteCall => assert(metric_name(a)[0] != metric_name(b)[0]),
                MetricId::MapAnonSize => assert(metric_name(a)[4] != metric_name(b)[4]),
                MetricId::MapFileSize => assert(metric_name(a)[4] != metric_name(b)[4]),
                MetricId::MapVdsoSize => assert(metric_name(a)[4] != metric_name(b)[4]),
                MetricId::MapVsysSize => assert(metric_name(a)[4] != metric_name(b)[4]),
                MetricId::MapVvarSize => assert(metric_name(a)[4] != metric_name(b)[4]),
                _ => {},
            },
            MetricId::MapFileCount => match b {
                MetricId::IoWriteTotal => assert(metric_name(a)[0] != metric_name(b)[0]),
                MetricId::MapAnonCount => assert(metric_name(a)[4] != metric_name(b)[4]),
                MetricId::MapHeapCount => assert(metric_name(a)[4] != metric_name(b)[4]),
                MetricId::MapStackSize => assert(metric_name(a)[4] != metric_name(b)[4]),
                MetricId::MapVdsoCount => assert(metric_name(a)[4] != metric_name(b)[4]),
                MetricId::MapVsysCount => assert(metric_name(a)[4] != metric_name(b)[4]),
                MetricId::MapVvarCount => assert(metric_name(a)[4] != metric_name(b)[4]),
                MetricId::MapOtherSize => assert(metric_name(a)[4] != metric_name(b)[4]),
                _ => {},
            },
            MetricId::MapFileSize => match b {
                MetricId::IoReadTotal => assert(metric_name(a)[0] != metric_name(b)[0]),
                MetricId::IoWriteCall => assert(metric_name(a)[0] != metric_name(b)[0]),
                MetricId::MapAnonSize => assert(metric_name(a)[4] != metric_name(b)[4]),
                MetricId::MapHeapSize => assert(metric_name(a)[4] != metric_name(b)[4]),
                MetricId::MapVdsoSize => assert(metric_name(a)[4] != metric_name(b)[4]),
                MetricId::MapVsysSize => assert(metric_name(a)[4] != metric_name(b)[4]),
                MetricId::MapVvarSize => assert(metric_name(a)[4] != metric_name(b)[4]),
                _ => {},
            },
            MetricId::MapStackCount => match b {
                MetricId::IoReadStorage => assert(metric_name(a)[0] != metric_name(b)[0]),
                MetricId::MapThreadStackSize => assert(metric_name(a)[4] != metric_name(b)[4]),
                MetricId::MapOtherCount => assert(metric_name(a)[4] != metric_name(b)[4]),
                _ => {},
            },
            MetricId::MapStackSize => match b {
                MetricId::IoWriteTotal => assert(metric_name(a)[0] != metric_name(b)[0]),
                MetricId::MapAnonCount => assert(metric_name(a)[4] != metric_name(b)[4]),
                MetricId::MapHeapCount => assert(metric_name(a)[4] != metric_name(b)[4]),
                MetricId::MapFileCount => assert(metric_name(a)[4] != metric_name(b)[4]),
                MetricId::MapVdsoCount => assert(metric_name(a)[4] != metric_name(b)[4]),
                MetricId::MapVsysCount => assert(metric_name(a)[4] != metric_name(b)[4]),
                MetricId::MapVvarCount => assert(metric_name(a)[4] != metric_name(b)[4]),
                MetricId::MapOtherSize => assert(metric_name(a)[4] != metric_name(b)[4]),
                _ => {},
            },
            MetricId::MapThreadStackCount => match b {
                MetricId::IoWriteStorage => assert(metric_name(a)[0] != metric_name(b)[0]),
                _ => {},
            },
            MetricId::MapThreadStackSize => match b {
                MetricId::IoReadStorage => assert(metric_name(a)[0] != metric_name(b)[0]),
                MetricId::MapStackCount => assert(metric_name(a)[4] != metric_name(b)[4]),
                MetricId::MapOtherCount => assert(metric_name(a)[4] != metric_name(b)[4]),
                _ => {},
            },
            MetricId::MapVdsoCount => match b {
                MetricId::IoWriteTotal => assert(metric_name(a)[0] != metric_name(b)[0]),
                MetricId::MapAnonCount => assert(metric_name(a)[4] != metric_name(b)[4]),
                MetricId::MapHeapCount => assert(metric_name(a)[4] != metric_name(b)[4]),
                MetricId::MapFileCount => assert(metric_name(a)[4] != metric_name(b)[4]),
                MetricId::MapStackSize => assert(metric_name(a)[4] != metric_name(b)[4]),
                MetricId::MapVsysCount => assert(metric_name(a)[5] != metric_name(b)[5]),
                MetricId::MapVvarCount => assert(metric_name(a)[5] != metric_name(b)[5]),
                MetricId::MapOtherSize => assert(metric_name(a)[4] != metric_name(b)[4]),
                _ => {},
            },
            MetricId::MapVdsoSize => match b {
                MetricId::IoReadTotal => assert(metric_name(a)[0] != metric_name(b)[0]),
                MetricId::IoWriteCall => assert(metric_name(a)[0] != metric_name(b)[0]),
                MetricId::MapAnonSize => assert(metric_name(a)[4] != metric_name(b)[4]),
                MetricId::MapHeapSize => assert(metric_name(a)[4] != metric_name(b)[4]),
                MetricId::MapFileSize => assert(metric_name(a)[4] != metric_name(b)[4]),
                MetricId::MapVsysSize => assert(metric_name(a)[5] != metric_name(b)[5]),
                MetricId::MapVvarSize => assert(metric_name(a)[5] != metric_name(b)[5]),
                _ => {},
            },
            MetricId::MapVsysCount => match b {
                MetricId::IoWriteTotal => assert(metric_name(a)[0] != metric_name(b)[0]),
                MetricId::MapAnonCount => assert(metric_name(a)[4] != metric_name(b)[4]),
                MetricId::MapHeapCount => assert(metric_name(a)[4] != metric_name(b)[4]),
                MetricId::MapFileCount => assert(metric_name(a)[4] != metric_name(b)[4]),
                MetricId::MapStackSize => assert(metric_name(a)[4] != metric_name(b)[4]),
                MetricId::MapVdsoCount => assert(metric_name(a)[5] != metric_name(b)[5]),
                MetricId::MapVvarCount => assert(metric_name(a)[5] != metric_name(b)[5]),
                MetricId::MapOtherSize => assert(metric_name(a)[4] != metric_name(b)[4]),
                _ => {},
            },
            MetricId::MapVsysSize => match b {
                MetricId::IoReadTotal => assert(metric_name(a)[0] != metric_name(b)[0]),
                MetricId::IoWriteCall => assert(metric_name(a)[0] != metric_name(b)[0]),
                MetricId::MapAnonSize => assert(metric_name(a)[4] != metric_name(b)[4]),
                MetricId::MapHeapSize => assert(metric_name(a)[4] != metric_name(b)[4]),
                MetricId::MapFileSize => assert(metric_name(a)[4] != metric_name(b)[4]),
                MetricId::MapVdsoSize => assert(metric_name(a)[5] != metric_name(b)[5]),
                MetricId::MapVvarSize => assert(metric_name(a)[5] != metric_name(b)[5]),
                _ => {},
            },
            MetricId::MapVvarCount => match b {
                MetricId::IoWriteTotal => assert(metric_name(a)[0] != metric_name(b)[0]),
                MetricId::MapAnonCount => assert(metric_name(a)[4] != metric_name(b)[4]),
                MetricId::MapHeapCount => assert(metric_name(a)[4] != metric_name(b)[4]),
                MetricId::MapFileCount => assert(metric_name(a)[4] != metric_name(b)[4]),
                MetricId::MapStackSize => assert(metric_name(a)[4] != metric_name(b)[4]),
                MetricId::MapVdsoCount => assert(metric_name(a)[5] != metric_name(b)[5]),
                MetricId::MapVsysCount => assert(metric_name(a)[5] != metric_name(b)[5]),
                MetricId::MapOtherSize => assert(metric_name(a)[4] != metric_name(b)[4]),
                _ => {},
            },
            MetricId::MapVvarSize => match b {
                MetricId::IoReadTotal => assert(metric_name(a)[0] != metric_name(b)[0]),
                MetricId::IoWriteCall => assert(metric_name(a)[0] != metric_name(b)[0]),
                MetricId::MapAnonSize => assert(metric_name(a)[4] != metric_name(b)[4]),
                MetricId::MapHeapSize => assert(metric_name(a)[4] != metric_name(b)[4]),
                MetricId::MapFileSize => assert(metric_name(a)[4] != metric_name(b)[4]),
                MetricId::MapVdsoSize => assert(metric_name(a)[5] != metric_name(b)[5]),
                MetricId::MapVsysSize => assert(metric_name(a)[5] != metric_name(b)[5]),
                _ => {},
            },
            MetricId::MapOtherCount => match b {
                MetricId::IoReadStorage => assert(metric_name(a)[0] != metric_name(b)[0]),
                MetricId::MapStackCount => assert(metric_name(a)[4] != metric_name(b)[4]),
                MetricId::MapThreadStackSize => assert(metric_name(a)[4] != metric_name(b)[4]),
                _ => {},
            },
            MetricId::MapOtherSize => match b {
                MetricId::IoWriteTotal => assert(metric_name(a)[0] != metric_name(b)[0]),
                MetricId::MapAnonCount => assert(metric_name(a)[4] != metric_name(b)[4]),
                MetricId::MapHeapCount => assert(metric_name(a)[4] != metric_name(b)[4]),
                MetricId::MapFileCount => assert(metric_name(a)[4] != metric_name(b)[4]),
                MetricId::MapStackSize => assert(metric_name(a)[4] != metric_name(b)[4]),
                MetricId::MapVdsoCount => assert(metric_name(a)[4] != metric_name(b)[4]),
                MetricId::MapVsysCount => assert(metric_name(a)[4] != metric_name(b)[4]),
                MetricId::MapVvarCount => assert(metric_name(a)[4] != metric_name(b)[4]),
                _ => {},
            },
            MetricId::MemRss => match b {
                MetricId::FdHigh => assert(metric_name(a)[0] != metric_name(b)[0]),
                MetricId::FdFile => assert(metric_name(a)[0] != metric_name(b)[0]),
                MetricId::FdPipe => assert(metric_name(a)[0] != metric_name(b)[0]),
                MetricId::FdAnon => assert(metric_name(a)[0] != metric_name(b)[0]),
                _ => {},
            },
            MetricId::MemVm => match b {
                MetricId::FdAll => assert(metric_name(a)[0] != metric_name(b)[0]),
                MetricId::FdNet => assert(metric_name(a)[0] != metric_name(b)[0]),
                MetricId::FdMemFile => assert(metric_name(a)[0] != metric_name(b)[0]),
                _ => {},
            },
            MetricId::MemText => match b {
                MetricId::FdOther => assert(metric_name(a)[0] != metric_name(b)[0]),
                MetricId::MemData => assert(metric_name(a)[4] != metric_name(b)[4]),
                MetricId::TimeCpu => assert(metric_name(a)[0] != metric_name(b)[0]),
                _ => {},
            },
            MetricId::MemData => match b {
                MetricId::FdOther => assert(metric_name(a)[0] != metric_name(b)[0]),
                MetricId::MemText => assert(metric_name(a)[4] != metric_name(b)[4]),
                MetricId::TimeCpu => assert(metric_name(a)[0] != metric_name(b)[0]),
                _ => {},
            },
            MetricId::TimeElapsed => match b {
                MetricId::IoReadCall => assert(metric_name(a)[0] != metric_name(b)[0]),
                MetricId::ThreadCount => assert(metric_name(a)[1] != metric_name(b)[1]),
                _ => {},
            },
            MetricId::TimeCpu => match b {
                MetricId::FdOther => assert(metric_name(a)[0] != metric_name(b)[0]),
                MetricId::MemText => assert(metric_name(a)[0] != metric_name(b)[0]),
                MetricId::MemData => assert(metric_name(a)[0] != metric_name(b)[0]),
                _ => {},
            },
            MetricId::TimeSystem => match b {
                MetricId::FaultMinor => assert(metric_name(a)[0] != metric_name(b)[0]),
                MetricId::FaultMajor => assert(metric_name(a)[0] != metric_name(b)[0]),
                _ => {},
            },
            MetricId::TimeUser => match b {
                MetricId::FdSocket => assert(metric_name(a)[0] != metric_name(b)[0]),
                _ => {},
            },
            MetricId::ThreadCount => match b {
                MetricId::IoReadCall => assert(metric_name(a)[0] != metric_name(b)[0]),
                MetricId::TimeElapsed => assert(metric_name(a)[1] != metric_name(b)[1]),
                _ => {},
            },
            _ => {},
        }
    }
}

/// Help message of a metric.
pub open spec fn metric_message(id: MetricId) -> Seq<char> {
    match id {
        MetricId::FaultMinor => "page faults without disk access"@,
        MetricId::FaultMajor => "page faults with disk access"@,
        MetricId::FdAll => "number of file descriptors"@,
        MetricId::FdHigh => "highest value of file descriptors"@,
        MetricId::FdFile => "number of files"@,
        MetricId::FdSocket => "number of sockets"@,
        MetricId::FdNet => "number of net file descriptors"@,
        MetricId::FdPipe => "number of pipes"@,
        MetricId::FdAnon => "number of file decriptors without inode "@,
        MetricId::FdMemFile => "number of in-memory file"@,
        MetricId::FdOther => "number of file descriptors in no other category"@,
        MetricId::IoReadCall => "number of read operations with system calls such as read(2) and pread(2)"@,
        MetricId::IoReadTotal => "number of bytes read from storage or page cache"@,
        MetricId::IoReadStorage => "number of bytes really fetched from storage"@,
        MetricId::IoWriteCall => "number of write operations with system calls such as write(2) and pwrite(2)"@,
        MetricId::IoWriteTotal => "number of bytes written to storage or page cache"@,
        MetricId::IoWriteStorage => "number of bytes really sent to storage"@,
        MetricId::MapAnonCount => "number of anonymous mapped memory region"@,
        MetricId::MapAnonSize => "total size of mapped heap region"@,
        MetricId::MapHeapCount => "number of mapped heap region"@,
        MetricId::MapHeapSize => "total size of memory mapped files"@,
        MetricId::MapFileCount => "number of memory mapped files"@,
        MetricId::MapFileSize => "total size of mapped main stack"@,
        MetricId::MapStackCount => "number of mapped main stack (always 1)"@,
        MetricId::MapStackSize => "total size of mapped thread stacks"@,
        MetricId::MapThreadStackCount => "number of mapped thread stacks"@,
        MetricId::MapThreadStackSize => "total size of mapped vdso region, see: vdso(7)"@,
        MetricId::MapVdsoCount => "number of mapped vdso region, see: vdso(7)"@,
        MetricId::MapVdsoSize => "total size of mapped vdso region, see: vdso(7)"@,
        MetricId::MapVsysCount => "number of shared memory segment"@,
        MetricId::MapVsysSize => "total size of shared memory segments"@,
        MetricId::MapVsyscallCount => "number of mapped vsyscall region, see: vdso(7)"@,
        MetricId::MapVsyscallSize => "total size of mapped vsyscall region, see: vdso(7)"@,
        MetricId::MapVvarCount => "number of mapped kernel variable, see: vdso(7)"@,
        MetricId::MapVvarSize => "total size of mapped kernel variable, see: vdso(7)"@,
        MetricId::MapOtherCount => "number of other mapped memory region"@,
        MetricId::MapOtherSize => "total size of other mapped memory region"@,
        MetricId::MemRss => "resident set size"@,
        MetricId::MemVm => "virtual memory"@,
        MetricId::MemText => "text size (code)"@,
        MetricId::MemData => "data + stack size"@,
        MetricId::TimeElapsed => "elapsed time since process started"@,
        MetricId::TimeCpu => "elapsed time in kernel or user mode"@,
        MetricId::TimeSystem => "elapsed time in kernel mode"@,
        MetricId::TimeUser => "elapsed time in user mode"@,
        MetricId::ThreadCount => "number of threads"@,
    }
}

/// Short name of a metric, at most ten characters long.
pub open spec fn metric_short_name(id: MetricId) -> Seq<char> {
    match id {
        MetricId::FaultMinor => "flt:min"@,
        MetricId::FaultMajor => "flt:maj"@,
        MetricId::FdAll => "fd:all"@,
        MetricId::FdHigh => "fd:high"@,
        MetricId::FdFile => "fd:file"@,
        MetricId::FdSocket => "fd:socket"@,
        MetricId::FdNet => "fd:net"@,
        MetricId::FdPipe => "fd:pipe"@,
        MetricId::FdAnon => "fd:anon"@,
        MetricId::FdMemFile => "fd:mfd"@,
        MetricId::FdOther => "fd:other"@,
        MetricId::IoReadCall => "rd:call"@,
        MetricId::IoReadTotal => "rd:total"@,
        MetricId::IoReadStorage => "rd:store"@,
        MetricId::IoWriteCall => "wr:call"@,
        MetricId::IoWriteTotal => "wr:total"@,
        MetricId::IoWriteStorage => "wr:store"@,
        MetricId::MapAnonCount => "m:anon:cnt"@,
        MetricId::MapAnonSize => "m:anon:sz"@,
        MetricId::MapHeapCount => "m:heap:cnt"@,
        MetricId::MapHeapSize => "m:heap:sz"@,
        MetricId::MapFileCount => "m:file:cnt"@,
        MetricId::MapFileSize => "m:file:sz"@,
        MetricId::MapStackCount => "m:stk:cnt"@,
        MetricId::MapStackSize => "m:stk:sz"@,
        MetricId::MapThreadStackCount => "m:tsck:cnt"@,
        MetricId::MapThreadStackSize => "m:tstk:sz"@,
        MetricId::MapVdsoCount => "m:vdso:cnt"@,
        MetricId::MapVdsoSize => "m:vdso:sz"@,
        MetricId::MapVsysCount => "m:vsys:cnt"@,
        MetricId::MapVsysSize => "m:vsys:sz"@,
        MetricId::MapVsyscallCount => "m:vsc:cnt"@,
        MetricId::MapVsyscallSize => "m:vsc:sz"@,
        MetricId::MapVvarCount => "m:vv:cnt"@,
        MetricId::MapVvarSize => "m:vv:sz"@,
        MetricId::MapOtherCount => "m:oth:cnt"@,
        MetricId::MapOtherSize => "m:oth:sz"@,
        MetricId::MemRss => "mem:rss"@,
        MetricId::MemVm => "mem:vm"@,
        MetricId::MemText => "mem:text"@,
        MetricId::MemData => "mem:data"@,
        MetricId::TimeElapsed => "tm:elapsed"@,
        MetricId::TimeCpu => "tm:cpu"@,
        MetricId::TimeSystem => "tm:sys"@,
        MetricId::TimeUser => "tm:user"@,
        MetricId::ThreadCount => "thread:cnt"@,
    }
}

/// Data type of a metric.
pub open spec fn metric_data_type(id: MetricId) -> MetricDataType {
    match id {
        MetricId::FaultMinor => MetricDataType::Counter,
        MetricId::FaultMajor => MetricDataType::Counter,
        MetricId::FdAll => MetricDataType::Gauge,
        MetricId::FdHigh => MetricDataType::Gauge,
        MetricId::FdFile => MetricDataType::Gauge,
        MetricId::FdSocket => MetricDataType::Gauge,
        MetricId::FdNet => MetricDataType::Gauge,
        MetricId::FdPipe => MetricDataType::Gauge,
        MetricId::FdAnon => MetricDataType::Gauge,
        MetricId::FdMemFile => MetricDataType::Gauge,
        MetricId::FdOther => MetricDataType::Gauge,
        MetricId::IoReadCall => MetricDataType::Counter,
        MetricId::IoReadTotal => MetricDataType::Counter,
        MetricId::IoReadStorage => MetricDataType::Counter,
        MetricId::IoWriteCall => MetricDataType::Counter,
        MetricId::IoWriteTotal => MetricDataType::Counter,
        MetricId::IoWriteStorage => MetricDataType::Counter,
        MetricId::MapAnonCount => MetricDataType::Gauge,
        MetricId::MapAnonSize => MetricDataType::Gauge,
        MetricId::MapHeapCount => MetricDataType::Gauge,
        MetricId::MapHeapSize => MetricDataType::Gauge,
        MetricId::MapFileCount => MetricDataType::Gauge,
        MetricId::MapFileSize => MetricDataType::Gauge,
        MetricId::MapStackCount => MetricDataType::Gauge,
        MetricId::MapStackSize => MetricDataType::Gauge,
        MetricId::MapThreadStackCount => MetricDataType::Gauge,
        MetricId::MapThreadStackSize => MetricDataType::Gauge,
        MetricId::MapVdsoCount => MetricDataType::Gauge,
        MetricId::MapVdsoSize => MetricDataType::Gauge,
        MetricId::MapVsysCount => MetricDataType::Gauge,
        MetricId::MapVsysSize => MetricDataType::Gauge,
        MetricId::MapVsyscallCount => MetricDataType::Gauge,
        MetricId::MapVsyscallSize => MetricDataType::Gauge,
        MetricId::MapVvarCount => MetricDataType::Gauge,
        MetricId::MapVvarSize => MetricDataType::Gauge,
        MetricId::MapOtherCount => MetricDataType::Gauge,
        MetricId::MapOtherSize => MetricDataType::Gauge,
        MetricId::MemRss => MetricDataType::Gauge,
        MetricId::MemVm => MetricDataType::Gauge,
        MetricId::MemText => MetricDataType::Gauge,
        MetricId::MemData => MetricDataType::Gauge,
        MetricId::TimeElapsed => MetricDataType::Counter,
        MetricId::TimeCpu => MetricDataType::Counter,
        MetricId::TimeSystem => MetricDataType::Counter,
        MetricId::TimeUser => MetricDataType::Counter,
        MetricId::ThreadCount => MetricDataType::Gauge,
    }
}

/// All metrics in declaration order.
pub open spec fn all_metric_ids() -> Seq<MetricId> {
    seq![
        MetricId::FaultMinor,
        MetricId::FaultMajor,
        MetricId::FdAll,
        MetricId::FdHigh,
        MetricId::FdFile,
        MetricId::FdSocket,
        MetricId::FdNet,
        MetricId::FdPipe,
        MetricId::FdAnon,
        MetricId::FdMemFile,
        MetricId::FdOther,
        MetricId::IoReadCall,
        MetricId::IoReadTotal,
        MetricId::IoReadStorage,
        MetricId::IoWriteCall,
        MetricId::IoWriteTotal,
        MetricId::IoWriteStorage,
        MetricId::MapAnonCount,
        MetricId::MapAnonSize,
        MetricId::MapHeapCount,
        MetricId::MapHeapSize,
        MetricId::MapFileCount,
        MetricId::MapFileSize,
        MetricId::MapStackCount,
        MetricId::MapStackSize,
        MetricId::MapThreadStackCount,
        MetricId::MapThreadStackSize,
        MetricId::MapVdsoCount,
        MetricId::MapVdsoSize,
        MetricId::MapVsysCount,
        MetricId::MapVsysSize,
        MetricId::MapVsyscallCount,
        MetricId::MapVsyscallSize,
        MetricId::MapVvarCount,
        MetricId::MapVvarSize,
        MetricId::MapOtherCount,
        MetricId::MapOtherSize,
        MetricId::MemRss,
        MetricId::MemVm,
        MetricId::MemText,
        MetricId::MemData,
        MetricId::TimeElapsed,
        MetricId::TimeCpu,
        MetricId::TimeSystem,
        MetricId::TimeUser,
        MetricId::ThreadCount,
    ]
}

/// Every metric occurs in the list of all metrics.
pub proof fn lemma_all_metric_ids_complete(id: MetricId)
    ensures
        all_metric_ids().contains(id),
{
    match id {
        MetricId::FaultMinor => assert(all_metric_ids()[0] == id),
        MetricId::FaultMajor => assert(all_metric_ids()[1] == id),
        MetricId::FdAll => assert(all_metric_ids()[2] == id),
        MetricId::FdHigh => assert(all_metric_ids()[3] == id),
        MetricId::FdFile => assert(all_metric_ids()[4] == id),
        MetricId::FdSocket => assert(all_metric_ids()[5] == id),
        MetricId::FdNet => assert(all_metric_ids()[6] == id),
        MetricId::FdPipe => assert(all_metric_ids()[7] == id),
        MetricId::FdAnon => assert(all_metric_ids()[8] == id),
        MetricId::FdMemFile => assert(all_metric_ids()[9] == id),
        MetricId::FdOther => assert(all_metric_ids()[10] == id),
        MetricId::IoReadCall => assert(all_metric_ids()[11] == id),
        MetricId::IoReadTotal => assert(all_metric_ids()[12] == id),
        MetricId::IoReadStorage => assert(all_metric_ids()[13] == id),
        MetricId::IoWriteCall => assert(all_metric_ids()[14] == id),
        MetricId::IoWriteTotal => assert(all_metric_ids()[15] == id),
        MetricId::IoWriteStorage => assert(all_metric_ids()[16] == id),
        MetricId::MapAnonCount => assert(all_metric_ids()[17] == id),
        MetricId::MapAnonSize => assert(all_metric_ids()[18] == id),
        MetricId::MapHeapCount => assert(all_metric_ids()[19] == id),
        MetricId::MapHeapSize => assert(all_metric_ids()[20] == id),
        MetricId::MapFileCount => assert(all_metric_ids()[21] == id),
        MetricId::MapFileSize => assert(all_metric_ids()[22] == id),
        MetricId::MapStackCount => assert(all_metric_ids()[23] == id),
        MetricId::MapStackSize => assert(all_metric_ids()[24] == id),
        MetricId::MapThreadStackCount => assert(all_metric_ids()[25] == id),
        MetricId::MapThreadStackSize => assert(all_metric_ids()[26] == id),
        MetricId::MapVdsoCount => assert(all_metric_ids()[27] == id),
        MetricId::MapVdsoSize => assert(all_metric_ids()[28] == id),
        MetricId::MapVsysCount => assert(all_metric_ids()[29] == id),
        MetricId::MapVsysSize => assert(all_metric_ids()[30] == id),
        MetricId::MapVsyscallCount => assert(all_metric_ids()[31] == id),
        MetricId::MapVsyscallSize => assert(all_metric_ids()[32] == id),
        MetricId::MapVvarCount => assert(all_metric_ids()[33] == id),
        MetricId::MapVvarSize => assert(all_metric_ids()[34] == id),
        MetricId::MapOtherCount => assert(all_metric_ids()[35] == id),
        MetricId::MapOtherSize => assert(all_metric_ids()[36] == id),
        MetricId::MemRss => assert(all_metric_ids()[37] == id),
        MetricId::MemVm => assert(all_metric_ids()[38] == id),
        MetricId::MemText => assert(all_metric_ids()[39] == id),
        MetricId::MemData => assert(all_metric_ids()[40] == id),
        MetricId::TimeElapsed => assert(all_metric_ids()[41] == id),
        MetricId::TimeCpu => assert(all_metric_ids()[42] == id),
        MetricId::TimeSystem => assert(all_metric_ids()[43] == id),
        MetricId::TimeUser => assert(all_metric_ids()[44] == id),
        MetricId::ThreadCount => assert(all_metric_ids()[45] == id),
    }
}

impl MetricId {
    /// Name of the metric.
    pub fn as_str(self) -> (s: &'static str)
        ensures
            s@ == metric_name(self),
    {
        match self {
            MetricId::FaultMinor => "fault:minor",
            MetricId::FaultMajor => "fault:major",
            MetricId::FdAll => "fd:all",
            MetricId::FdHigh => "fd:high",
            MetricId::FdFile => "fd:file",
            MetricId::FdSocket => "fd:socket",
            MetricId::FdNet => "fd:net",
            MetricId::FdPipe => "fd:pipe",
            MetricId::FdAnon => "fd:anon",
            MetricId::FdMemFile => "fd:mfd",
            MetricId::FdOther => "fd:other",
            MetricId::IoReadCall => "io:read:call",
            MetricId::IoReadTotal => "io:read:total",
            MetricId::IoReadStorage => "io:read:storage",
            MetricId::IoWriteCall => "io:write:call",
            MetricId::IoWriteTotal => "io:write:total",
            MetricId::IoWriteStorage => "io:write:storage",
            MetricId::MapAnonCount => "map:anon:count",
            MetricId::MapAnonSize => "map:anon:size",
            MetricId::MapHeapCount => "map:heap:count",
            MetricId::MapHeapSize => "map:heap:size",
            MetricId::MapFileCount => "map:file:count",
            MetricId::MapFileSize => "map:file:size",
            MetricId::MapStackCount => "map:stack:count",
            MetricId::MapStackSize => "map:stack:size",
            MetricId::MapThreadStackCount => "map:tstack:count",
            MetricId::MapThreadStackSize => "map:tstack:size",
            MetricId::MapVdsoCount => "map:vdso:count",
            MetricId::MapVdsoSize => "map:vdso:size",
            MetricId::MapVsysCount => "map:vsys:count",
            MetricId::MapVsysSize => "map:vsys:size",
            MetricId::MapVsyscallCount => "map:vsyscall:count",
            MetricId::MapVsyscallSize => "map:vsyscall:size",
            MetricId::MapVvarCount => "map:vvar:count",
            MetricId::MapVvarSize => "map:vvar:size",
            MetricId::MapOtherCount => "map:other:count",
            MetricId::MapOtherSize => "map:other:size",
            MetricId::MemRss => "mem:rss",
            MetricId::MemVm => "mem:vm",
            MetricId::MemText => "mem:text",
            MetricId::MemData => "mem:data",
            MetricId::TimeElapsed => "time:elapsed",
            MetricId::TimeCpu => "time:cpu",
            MetricId::TimeSystem => "time:system",
            MetricId::TimeUser => "time:user",
            MetricId::ThreadCount => "thread:count",
        }
    }

    /// Return a string of less than SHORT_NAME_MAX_LEN characters.
    pub fn to_short_str(self) -> (r: Option<&'static str>)
        ensures
            r matches Some(s) && s@ == metric_short_name(self),
    {
        match self {
            MetricId::FaultMinor => Some("flt:min"),
            MetricId::FaultMajor => Some("flt:maj"),
            MetricId::FdAll => Some("fd:all"),
            MetricId::FdHigh => Some("fd:high"),
            MetricId::FdFile => Some("fd:file"),
            MetricId::FdSocket => Some("fd:socket"),
            MetricId::FdNet => Some("fd:net"),
            MetricId::FdPipe => Some("fd:pipe"),
            MetricId::FdAnon => Some("fd:anon"),
            MetricId::FdMemFile => Some("fd:mfd"),
            MetricId::FdOther => Some("fd:other"),
            MetricId::IoReadCall => Some("rd:call"),
            MetricId::IoReadTotal => Some("rd:total"),
            MetricId::IoReadStorage => Some("rd:store"),
            MetricId::IoWriteCall => Some("wr:call"),
            MetricId::IoWriteTotal => Some("wr:total"),
            MetricId::IoWriteStorage => Some("wr:store"),
            MetricId::MapAnonCount => Some("m:anon:cnt"),
            MetricId::MapAnonSize => Some("m:anon:sz"),
            MetricId::MapHeapCount => Some("m:heap:cnt"),
            MetricId::MapHeapSize => Some("m:heap:sz"),
            MetricId::MapFileCount => Some("m:file:cnt"),
            MetricId::MapFileSize => Some("m:file:sz"),
            MetricId::MapStackCount => Some("m:stk:cnt"),
            MetricId::MapStackSize => Some("m:stk:sz"),
            MetricId::MapThreadStackCount => Some("m:tsck:cnt"),
            MetricId::MapThreadStackSize => Some("m:tstk:sz"),
            MetricId::MapVdsoCount => Some("m:vdso:cnt"),
            MetricId::MapVdsoSize => Some("m:vdso:sz"),
            MetricId::MapVsysCount => Some("m:vsys:cnt"),
            MetricId::MapVsysSize => Some("m:vsys:sz"),
            MetricId::MapVsyscallCount => Some("m:vsc:cnt"),
            MetricId::MapVsyscallSize => Some("m:vsc:sz"),
            MetricId::MapVvarCount => Some("m:vv:cnt"),
            MetricId::MapVvarSize => Some("m:vv:sz"),
            MetricId::MapOtherCount => Some("m:oth:cnt"),
            MetricId::MapOtherSize => Some("m:oth:sz"),
            MetricId::MemRss => Some("mem:rss"),
            MetricId::MemVm => Some("mem:vm"),
            MetricId::MemText => Some("mem:text"),
            MetricId::MemData => Some("mem:data"),
            MetricId::TimeElapsed => Some("tm:elapsed"),
            MetricId::TimeCpu => Some("tm:cpu"),
            MetricId::TimeSystem => Some("tm:sys"),
            MetricId::TimeUser => Some("tm:user"),
            MetricId::ThreadCount => Some("thread:cnt"),
        }
    }

    /// The data type either counter (always increasing) or gauge (varying but positive).
    pub fn data_type(self) -> (t: MetricDataType)
        ensures
            t == metric_data_type(self),
    {
        match self {
            MetricId::FaultMinor => MetricDataType::Counter,
            MetricId::FaultMajor => MetricDataType::Counter,
            MetricId::FdAll => MetricDataType::Gauge,
            MetricId::FdHigh => MetricDataType::Gauge,
            MetricId::FdFile => MetricDataType::Gauge,
            MetricId::FdSocket => MetricDataType::Gauge,
            MetricId::FdNet => MetricDataType::Gauge,
            MetricId::FdPipe => MetricDataType::Gauge,
            MetricId::FdAnon => MetricDataType::Gauge,
            MetricId::FdMemFile => MetricDataType::Gauge,
            MetricId::FdOther => MetricDataType::Gauge,
            MetricId::IoReadCall => MetricDataType::Counter,
            MetricId::IoReadTotal => MetricDataType::Counter,
            MetricId::IoReadStorage => MetricDataType::Counter,
            MetricId::IoWriteCall => MetricDataType::Counter,
            MetricId::IoWriteTotal => MetricDataType::Counter,
            MetricId::IoWriteStorage => MetricDataType::Counter,
            MetricId::MapAnonCount => MetricDataType::Gauge,
            MetricId::MapAnonSize => MetricDataType::Gauge,
            MetricId::MapHeapCount => MetricDataType::Gauge,
            MetricId::MapHeapSize => MetricDataType::Gauge,
            MetricId::MapFileCount => MetricDataType::Gauge,
            MetricId::MapFileSize => MetricDataType::Gauge,
            MetricId::MapStackCount => MetricDataType::Gauge,
            MetricId::MapStackSize => MetricDataType::Gauge,
            MetricId::MapThreadStackCount => MetricDataType::Gauge,
            MetricId::MapThreadStackSize => MetricDataType::Gauge,
            MetricId::MapVdsoCount => MetricDataType::Gauge,
            MetricId::MapVdsoSize => MetricDataType::Gauge,
            MetricId::MapVsysCount => MetricDataType::Gauge,
            MetricId::MapVsysSize => MetricDataType::Gauge,
            MetricId::MapVsyscallCount => MetricDataType::Gauge,
            MetricId::MapVsyscallSize => MetricDataType::Gauge,
            MetricId::MapVvarCount => MetricDataType::Gauge,
            MetricId::MapVvarSize => MetricDataType::Gauge,
            MetricId::MapOtherCount => MetricDataType::Gauge,
            MetricId::MapOtherSize => MetricDataType::Gauge,
            MetricId::MemRss => MetricDataType::Gauge,
            MetricId::MemVm => MetricDataType::Gauge,
            MetricId::MemText => MetricDataType::Gauge,
            MetricId::MemData => MetricDataType::Gauge,
            MetricId::TimeElapsed => MetricDataType::Counter,
            MetricId::TimeCpu => MetricDataType::Counter,
            MetricId::TimeSystem => MetricDataType::Counter,
            MetricId::TimeUser => MetricDataType::Counter,
            MetricId::ThreadCount => MetricDataType::Gauge,
        }
    }

    /// Help message of the metric.
    pub fn get_message(self) -> (r: Option<&'static str>)
        ensures
            r matches Some(s) && s@ == metric_message(self),
    {
        match self {
            MetricId::FaultMinor => Some("page faults without disk access"),
            MetricId::FaultMajor => Some("page faults with disk access"),
            MetricId::FdAll => Some("number of file descriptors"),
            MetricId::FdHigh => Some("highest value of file descriptors"),
            MetricId::FdFile => Some("number of files"),
            MetricId::FdSocket => Some("number of sockets"),
            MetricId::FdNet => Some("number of net file descriptors"),
            MetricId::FdPipe => Some("number of pipes"),
            MetricId::FdAnon => Some("number of file decriptors without inode "),
            MetricId::FdMemFile => Some("number of in-memory file"),
            MetricId::FdOther => Some("number of file descriptors in no other category"),
            MetricId::IoReadCall => Some("number of read operations with system calls such as read(2) and pread(2)"),
            MetricId::IoReadTotal => Some("number of bytes read from storage or page cache"),
            MetricId::IoReadStorage => Some("number of bytes really fetched from storage"),
            MetricId::IoWriteCall => Some("number of write operations with system calls such as write(2) and pwrite(2)"),
            MetricId::IoWriteTotal => Some("number of bytes written to storage or page cache"),
            MetricId::IoWriteStorage => Some("number of bytes really sent to storage"),
            MetricId::MapAnonCount => Some("number of anonymous mapped memory region"),
            MetricId::MapAnonSize => Some("total size of mapped heap region"),
            MetricId::MapHeapCount => Some("number of mapped heap region"),
            MetricId::MapHeapSize => Some("total size of memory mapped files"),
            MetricId::MapFileCount => Some("number of memory mapped files"),
            MetricId::MapFileSize => Some("total size of mapped main stack"),
            MetricId::MapStackCount => Some("number of mapped main stack (always 1)"),
            MetricId::MapStackSize => Some("total size of mapped thread stacks"),
            MetricId::MapThreadStackCount => Some("number of mapped thread stacks"),
            MetricId::MapThreadStackSize => Some("total size of mapped vdso region, see: vdso(7)"),
            MetricId::MapVdsoCount => Some("number of mapped vdso region, see: vdso(7)"),
            MetricId::MapVdsoSize => Some("total size of mapped vdso region, see: vdso(7)"),
            MetricId::MapVsysCount => Some("number of shared memory segment"),
            MetricId::MapVsysSize => Some("total size of shared memory segments"),
            MetricId::MapVsyscallCount => Some("number of mapped vsyscall region, see: vdso(7)"),
            MetricId::MapVsyscallSize => Some("total size of mapped vsyscall region, see: vdso(7)"),
            MetricId::MapVvarCount => Some("number of mapped kernel variable, see: vdso(7)"),
            MetricId::MapVvarSize => Some("total size of mapped kernel variable, see: vdso(7)"),
            MetricId::MapOtherCount => Some("number of other mapped memory region"),
            MetricId::MapOtherSize => Some("total size of other mapped memory region"),
            MetricId::MemRss => Some("resident set size"),
            MetricId::MemVm => Some("virtual memory"),
            MetricId::MemText => Some("text size (code)"),
            MetricId::MemData => Some("data + stack size"),
            MetricId::TimeElapsed => Some("elapsed time since process started"),
            MetricId::TimeCpu => Some("elapsed time in kernel or user mode"),
            MetricId::TimeSystem => Some("elapsed time in kernel mode"),
            MetricId::TimeUser => Some("elapsed time in user mode"),
            MetricId::ThreadCount => Some("number of threads"),
        }
    }

    /// All metrics, in declaration order.
    pub fn iter() -> (v: Vec<MetricId>)
        ensures
            v@ == all_metric_ids(),
    {
        let v = vec![
            MetricId::FaultMinor,
            MetricId::FaultMajor,
            MetricId::FdAll,
            MetricId::FdHigh,
            MetricId::FdFile,
            MetricId::FdSocket,
            MetricId::FdNet,
            MetricId::FdPipe,
            MetricId::FdAnon,
            MetricId::FdMemFile,
            MetricId::FdOther,
            MetricId::IoReadCall,
            MetricId::IoReadTotal,
            MetricId::IoReadStorage,
            MetricId::IoWriteCall,
            MetricId::IoWriteTotal,
            MetricId::IoWriteStorage,
            MetricId::MapAnonCount,
            MetricId::MapAnonSize,
            MetricId::MapHeapCount,
            MetricId::MapHeapSize,
            MetricId::MapFileCount,
            MetricId::MapFileSize,
            MetricId::MapStackCount,
            MetricId::MapStackSize,
            MetricId::MapThreadStackCount,
            MetricId::MapThreadStackSize,
            MetricId::MapVdsoCount,
            MetricId::MapVdsoSize,
            MetricId::MapVsysCount,
            MetricId::MapVsysSize,
            MetricId::MapVsyscallCount,
            MetricId::MapVsyscallSize,
            MetricId::MapVvarCount,
            MetricId::MapVvarSize,
            MetricId::MapOtherCount,
            MetricId::MapOtherSize,
            MetricId::MemRss,
            MetricId::MemVm,
            MetricId::MemText,
            MetricId::MemData,
            MetricId::TimeElapsed,
            MetricId::TimeCpu,
            MetricId::TimeSystem,
            MetricId::TimeUser,
            MetricId::ThreadCount,
        ];
        assert(v@ =~= all_metric_ids());
        v
    }
}
impl vstd::std_specs::convert::FromSpecImpl<MetricId> for &'static str {
    open spec fn obeys_from_spec() -> bool {
        true
    }

    open spec fn from_spec(id: MetricId) -> &'static str {
        match id {
            MetricId::FaultMinor => "fault:minor",
            MetricId::FaultMajor => "fault:major",
            MetricId::FdAll => "fd:all",
            MetricId::FdHigh => "fd:high",
            MetricId::FdFile => "fd:file",
            MetricId::FdSocket => "fd:socket",
            MetricId::FdNet => "fd:net",
            MetricId::FdPipe => "fd:pipe",
            MetricId::FdAnon => "fd:anon",
            MetricId::FdMemFile => "fd:mfd",
            MetricId::FdOther => "fd:other",
            MetricId::IoReadCall => "io:read:call",
            MetricId::IoReadTotal => "io:read:total",
            MetricId::IoReadStorage => "io:read:storage",
            MetricId::IoWriteCall => "io:write:call",
            MetricId::IoWriteTotal => "io:write:total",
            MetricId::IoWriteStorage => "io:write:storage",
            MetricId::MapAnonCount => "map:anon:count",
            MetricId::MapAnonSize => "map:anon:size",
            MetricId::MapHeapCount => "map:heap:count",
            MetricId::MapHeapSize => "map:heap:size",
            MetricId::MapFileCount => "map:file:count",
            MetricId::MapFileSize => "map:file:size",
            MetricId::MapStackCount => "map:stack:count",
            MetricId::MapStackSize => "map:stack:size",
            MetricId::MapThreadStackCount => "map:tstack:count",
            MetricId::MapThreadStackSize => "map:tstack:size",
            MetricId::MapVdsoCount => "map:vdso:count",
            MetricId::MapVdsoSize => "map:vdso:size",
            MetricId::MapVsysCount => "map:vsys:count",
            MetricId::MapVsysSize => "map:vsys:size",
            MetricId::MapVsyscallCount => "map:vsyscall:count",
            MetricId::MapVsyscallSize => "map:vsyscall:size",
            MetricId::MapVvarCount => "map:vvar:count",
            MetricId::MapVvarSize => "map:vvar:size",
            MetricId::MapOtherCount => "map:other:count",
            MetricId::MapOtherSize => "map:other:size",
            MetricId::MemRss => "mem:rss",
            MetricId::MemVm => "mem:vm",
            MetricId::MemText => "mem:text",
            MetricId::MemData => "mem:data",
            MetricId::TimeElapsed => "time:elapsed",
            MetricId::TimeCpu => "time:cpu",
            MetricId::TimeSystem => "time:system",
            MetricId::TimeUser => "time:user",
            MetricId::ThreadCount => "thread:count",
        }
    }
}

impl From<MetricId> for &'static str {
    fn from(id: MetricId) -> (s: &'static str) {
        match id {
            MetricId::FaultMinor => "fault:minor",
            MetricId::FaultMajor => "fault:major",
            MetricId::FdAll => "fd:all",
            MetricId::FdHigh => "fd:high",
            MetricId::FdFile => "fd:file",
            MetricId::FdSocket => "fd:socket",
            MetricId::FdNet => "fd:net",
            MetricId::FdPipe => "fd:pipe",
            MetricId::FdAnon => "fd:anon",
            MetricId::FdMemFile => "fd:mfd",
            MetricId::FdOther => "fd:other",
            MetricId::IoReadCall => "io:read:call",
            MetricId::IoReadTotal => "io:read:total",
            MetricId::IoReadStorage => "io:read:storage",
            MetricId::IoWriteCall => "io:write:call",
            MetricId::IoWriteTotal => "io:write:total",
            MetricId::IoWriteStorage => "io:write:storage",
            MetricId::MapAnonCount => "map:anon:count",
            MetricId::MapAnonSize => "map:anon:size",
            MetricId::MapHeapCount => "map:heap:count",
            MetricId::MapHeapSize => "map:heap:size",
            MetricId::MapFileCount => "map:file:count",
            MetricId::MapFileSize => "map:file:size",
            MetricId::MapStackCount => "map:stack:count",
            MetricId::MapStackSize => "map:stack:size",
            MetricId::MapThreadStackCount => "map:tstack:count",
            MetricId::MapThreadStackSize => "map:tstack:size",
            MetricId::MapVdsoCount => "map:vdso:count",
            MetricId::MapVdsoSize => "map:vdso:size",
            MetricId::MapVsysCount => "map:vsys:count",
            MetricId::MapVsysSize => "map:vsys:size",
            MetricId::MapVsyscallCount => "map:vsyscall:count",
            MetricId::MapVsyscallSize => "map:vsyscall:size",
            MetricId::MapVvarCount => "map:vvar:count",
            MetricId::MapVvarSize => "map:vvar:size",
            MetricId::MapOtherCount => "map:other:count",
            MetricId::MapOtherSize => "map:other:size",
            MetricId::MemRss => "mem:rss",
            MetricId::MemVm => "mem:vm",
            MetricId::MemText => "mem:text",
            MetricId::MemData => "mem:data",
            MetricId::TimeElapsed => "time:elapsed",
            MetricId::TimeCpu => "time:cpu",
            MetricId::TimeSystem => "time:system",
            MetricId::TimeUser => "time:user",
            MetricId::ThreadCount => "thread:count",
        }
    }
}

impl MetricId {
    /// Metric from its name.
    pub fn from_str(s: &str) -> (r: Result<MetricId, ()>)
        ensures
            r matches Ok(id) ==> metric_name(id) == s@,
            r is Err <==> (forall|id: MetricId| metric_name(id) != s@),
            forall|id: MetricId| metric_name(id) == s@ ==> r == Ok::<MetricId, ()>(id),
    {

        let ids = MetricId::iter();
        let mut i: usize = 0;
        while i < ids.len()
            invariant
                0 <= i <= ids.len(),
                ids@ == all_metric_ids(),
                forall|j: int| 0 <= j < i ==> metric_name(#[trigger] ids@[j]) != s@,
            decreases ids.len() - i,
        {
            if str_eq(ids[i].as_str(), s) {
                proof {
                    assert forall|id: MetricId| metric_name(id) == s@ implies id == ids@[i as int] by {
                        law_metric_names_distinct(id, ids@[i as int]);
                    }
                }
                return Ok(ids[i]);
            }
            i = i + 1;
        }
        proof {
            assert forall|id: MetricId| metric_name(id) != s@ by {
                lemma_all_metric_ids_complete(id);
                let j = choose|j: int| 0 <= j < all_metric_ids().len() && all_metric_ids()[j] == id;
                assert(metric_name(ids@[j]) != s@);
            }
        }
        Err(())
    }
}

/// Kind of error when parsing a list of metrics.
#[derive(Clone, Copy, Debug, PartialEq, Eq, Structural)]
pub enum ErrorKind {
    DuplicateMetric,
    InvalidSyntax,
    UnknownMetric,
}

/// Errors when parsing a list of metrics.
#[derive(Debug)]
pub enum Error {
    /// The metric is selected twice.
    DuplicateMetric(String),
    /// The specification cannot be parsed.
    InvalidSyntax(String),
    /// The name is neither a metric nor a pattern matching some metrics.
    UnknownMetric(String),
}

impl View for Error {
    type V = (ErrorKind, Seq<char>);

    open spec fn view(&self) -> (ErrorKind, Seq<char>) {
        match self {
            Error::DuplicateMetric(s) => (ErrorKind::DuplicateMetric, s@),
            Error::InvalidSyntax(s) => (ErrorKind::InvalidSyntax, s@),
            Error::UnknownMetric(s) => (ErrorKind::UnknownMetric, s@),
        }
    }
}

impl Error {
    /// Message describing the error.
    pub fn to_string(&self) -> (s: String)
        ensures
            s@ == match self@.0 {
                ErrorKind::DuplicateMetric => self@.1 + ": duplicate metric"@,
                ErrorKind::InvalidSyntax => "invalid syntax: "@ + self@.1,
                ErrorKind::UnknownMetric => self@.1 + ": unknown metric or pattern"@,
            },
    {
        match self {
            Error::DuplicateMetric(name) => {
                let mut s = name.clone();
                push_str(&mut s, ": duplicate metric");
                s
            },
            Error::InvalidSyntax(name) => {
                let mut s = to_string("invalid syntax: ");
                push_str(&mut s, name.as_str());
                s
            },
            Error::UnknownMetric(name) => {
                let mut s = name.clone();
                push_str(&mut s, ": unknown metric or pattern");
                s
            },
        }
    }
}

/// Metric with associated aggregations and a formatter function
#[derive(Debug)]
pub struct FormattedMetric {
    pub id: MetricId,
    pub aggregations: AggregationSet,
    pub format: Formatter,
}

impl View for FormattedMetric {
    type V = (MetricId, Set<Aggregation>, Formatter);

    open spec fn view(&self) -> (MetricId, Set<Aggregation>, Formatter) {
        (self.id, self.aggregations@, self.format)
    }
}

/// Metrics for which a limit is defined.
pub open spec fn has_limit_id(id: MetricId) -> bool {
    id == MetricId::FdAll || id == MetricId::MapStackSize || id == MetricId::MemRss
        || id == MetricId::MemVm || id == MetricId::ThreadCount || id == MetricId::TimeCpu
}

impl FormattedMetric {
    fn new(id: MetricId, aggregations: AggregationSet, format: Formatter) -> (m: FormattedMetric)
        ensures
            m.id == id,
            m.aggregations == aggregations,
            m.format == format,
    {
        FormattedMetric { id, aggregations, format }
    }

    /// Return true if it exists a limit associated to the metric for a given process
    ///
    /// A limit makes sense only for the raw value, not aggregations.
    pub fn has_limit(&self) -> (b: bool)
        ensures
            b == (has_limit_id(self.id) && self.aggregations@.contains(Aggregation::Raw)),
    {
        let limited = match self.id {
            MetricId::FdAll | MetricId::MapStackSize | MetricId::MemRss | MetricId::MemVm
            | MetricId::ThreadCount | MetricId::TimeCpu => true,
            _ => false,
        };
        limited && self.aggregations.has(Aggregation::Raw)
    }
}

/// Whether a metric is a duration.
pub open spec fn is_time_metric(id: MetricId) -> bool {
    id == MetricId::TimeElapsed || id == MetricId::TimeCpu || id == MetricId::TimeSystem
        || id == MetricId::TimeUser
}

/// The more readable format for a human.
pub open spec fn human_formatter(id: MetricId) -> Formatter {
    match id {
        MetricId::IoReadCall | MetricId::IoReadTotal | MetricId::IoReadStorage
        | MetricId::IoWriteCall | MetricId::IoWriteTotal | MetricId::IoWriteStorage => Formatter::Size,
        MetricId::MapAnonSize | MetricId::MapHeapSize | MetricId::MapFileSize
        | MetricId::MapStackSize | MetricId::MapThreadStackSize | MetricId::MapVdsoSize
        | MetricId::MapVsyscallSize | MetricId::MapVvarSize | MetricId::MapOtherSize => Formatter::Size,
        MetricId::MemRss | MetricId::MemVm | MetricId::MemText | MetricId::MemData => Formatter::Size,
        MetricId::TimeElapsed | MetricId::TimeCpu | MetricId::TimeSystem
        | MetricId::TimeUser => Formatter::HumanMilliseconds,
        _ => Formatter::Identity,
    }
}

/// Formatter used when the specification has no unit.
pub open spec fn default_formatter(id: MetricId, human: bool) -> Formatter {
    if human {
        human_formatter(id)
    } else if is_time_metric(id) {
        Formatter::Seconds
    } else {
        Formatter::Identity
    }
}

/// A duration metric given without a unit (elapsed, processor, system and
/// user time, counted in milliseconds) is shown in seconds with
/// milliseconds, or in human readable units in human mode; any other metric
/// given without a unit is shown as its raw number unless in human mode.
pub proof fn law_durations_shown_as_durations(id: MetricId)
    ensures
        (id == MetricId::TimeElapsed || id == MetricId::TimeCpu || id == MetricId::TimeSystem || id == MetricId::TimeUser)
            ==> default_formatter(id, false) == Formatter::Seconds
                && default_formatter(id, true) == Formatter::HumanMilliseconds,
        !(id == MetricId::TimeElapsed || id == MetricId::TimeCpu || id == MetricId::TimeSystem || id == MetricId::TimeUser)
            ==> default_formatter(id, false) == Formatter::Identity
                && default_formatter(id, true) != Formatter::Seconds
                && default_formatter(id, true) != Formatter::HumanMilliseconds,
{
}

/// Appends the metrics of one specification, failing on the first metric
/// already selected.
pub open spec fn spec_add_metrics(
    acc: Seq<(MetricId, Set<Aggregation>, Formatter)>,
    ids: Seq<MetricId>,
    aggs: Set<Aggregation>,
    fmt: Option<Formatter>,
    human: bool,
) -> Result<Seq<(MetricId, Set<Aggregation>, Formatter)>, (ErrorKind, Seq<char>)>
    decreases ids.len(),
{
    if ids.len() == 0 {
        Ok(acc)
    } else if exists|k: int| 0 <= k < acc.len() && acc[k].0 == ids[0] {
        Err((ErrorKind::DuplicateMetric, metric_name(ids[0])))
    } else {
        let f = match fmt {
            Some(f) => f,
            None => default_formatter(ids[0], human),
        };
        spec_add_metrics(acc.push((ids[0], aggs, f)), ids.drop_first(), aggs, fmt, human)
    }
}

/// Result of parsing a list of metric specifications after `acc`.
pub open spec fn spec_parse_names(
    acc: Seq<(MetricId, Set<Aggregation>, Formatter)>,
    names: Seq<Seq<char>>,
    human: bool,
) -> Result<Seq<(MetricId, Set<Aggregation>, Formatter)>, (ErrorKind, Seq<char>)>
    decreases names.len(),
{
    if names.len() == 0 {
        Ok(acc)
    } else {
        match spec_parts(names[0]) {
            None => Err((ErrorKind::InvalidSyntax, names[0] + ": invalid metric"@)),
            Some((pattern, aggs, fmt)) => {
                let ids = spec_metric_ids(pattern);
                if ids.len() == 0 {
                    Err((ErrorKind::UnknownMetric, names[0]))
                } else {
                    match spec_add_metrics(acc, ids, aggs, fmt, human) {
                        Err(e) => Err(e),
                        Ok(a) => spec_parse_names(a, names.drop_first(), human),
                    }
                }
            },
        }
    }
}

/// Views of a list of strings.
pub open spec fn string_views(v: Seq<String>) -> Seq<Seq<char>> {
    v.map_values(|s: String| s@)
}

/// Views of a list of formatted metrics.
pub open spec fn metric_views(v: Seq<FormattedMetric>) -> Seq<(MetricId, Set<Aggregation>, Formatter)> {
    v.map_values(|m: FormattedMetric| m@)
}

/// Whether a metric is already in a list.
fn contains_metric(metrics: &Vec<FormattedMetric>, id: MetricId) -> (b: bool)
    ensures
        b == exists|k: int| 0 <= k < metrics@.len() && metric_views(metrics@)[k].0 == id,
{
    let mut j: usize = 0;
    while j < metrics.len()
        invariant
            0 <= j <= metrics.len(),
            forall|q: int| 0 <= q < j ==> metrics@[q].id != id,
        decreases metrics.len() - j,
    {
        if metrics[j].id == id {
            assert(metric_views(metrics@)[j as int].0 == id);
            return true;
        }
        j = j + 1;
    }
    assert forall|k: int| 0 <= k < metrics@.len() implies metric_views(metrics@)[k].0 != id by {
        assert(metrics@[k].id != id);
    }
    false
}

/// Metric names parser
pub struct MetricNamesParser {
    pub human_format: bool,
}

impl MetricNamesParser {
    pub fn new(human_format: bool) -> (p: MetricNamesParser)
        ensures
            p.human_format == human_format,
    {
        MetricNamesParser { human_format }
    }

    fn get_default_formatter(&self, id: MetricId) -> (f: Formatter)
        ensures
            f == default_formatter(id, self.human_format),
    {
        if self.human_format {
            match id {
                MetricId::IoReadCall | MetricId::IoReadTotal | MetricId::IoReadStorage
                | MetricId::IoWriteCall | MetricId::IoWriteTotal | MetricId::IoWriteStorage => Formatter::Size,
                MetricId::MapAnonSize | MetricId::MapHeapSize | MetricId::MapFileSize
                | MetricId::MapStackSize | MetricId::MapThreadStackSize | MetricId::MapVdsoSize
                | MetricId::MapVsyscallSize | MetricId::MapVvarSize | MetricId::MapOtherSize => Formatter::Size,
                MetricId::MemRss | MetricId::MemVm | MetricId::MemText | MetricId::MemData => Formatter::Size,
                MetricId::TimeElapsed | MetricId::TimeCpu | MetricId::TimeSystem
                | MetricId::TimeUser => Formatter::HumanMilliseconds,
                _ => Formatter::Identity,
            }
        } else {
            match id {
                MetricId::TimeElapsed | MetricId::TimeCpu | MetricId::TimeSystem
                | MetricId::TimeUser => Formatter::Seconds,
                _ => Formatter::Identity,
            }
        }
    }

    /// Return a list of metrics with aggregations and format
    pub fn parse(&mut self, names: &[String]) -> (r: Result<Vec<FormattedMetric>, Error>)
        ensures
            final(self).human_format == old(self).human_format,
            match spec_parse_names(Seq::empty(), string_views(names@), old(self).human_format) {
                Ok(v) => r matches Ok(m) && metric_views(m@) == v,
                Err(e) => r matches Err(err) && err@ == e,
            },
    {
        let ghost all = string_views(names@);
        let mut metrics: Vec<FormattedMetric> = Vec::new();
        let mut i: usize = 0;
        assert(all.skip(0) =~= all);
        assert(metric_views(metrics@) =~= Seq::empty());
        while i < names.len()
            invariant
                0 <= i <= names.len(),
                all == string_views(names@),
                spec_parse_names(Seq::empty(), all, self.human_format)
                    == spec_parse_names(metric_views(metrics@), all.skip(i as int), self.human_format),
            decreases names.len() - i,
        {
            let name = &names[i];
            assert(all.skip(i as int)[0] == name@);
            assert(all.skip(i as int).drop_first() =~= all.skip(i + 1));
            match parse_metric_spec(name.as_str()) {
                Err(()) => {
                    let mut msg = name.clone();
                    push_str(&mut msg, ": invalid metric");
                    return Err(Error::InvalidSyntax(msg));
                },
                Ok((ids, aggs, fmt)) => {
                    if ids.len() == 0 {
                        return Err(Error::UnknownMetric(name.clone()));
                    }
                    let mut k: usize = 0;
                    let ghost base = metric_views(metrics@);
                    let ghost h = self.human_format;
                    assert(ids@.skip(0) =~= ids@);
                    assert(spec_parse_names(Seq::empty(), all, h) == match spec_add_metrics(base, ids@, aggs@, fmt, h) {
                        Err(e) => Err(e),
                        Ok(a) => spec_parse_names(a, all.skip(i + 1), h),
                    });
                    while k < ids.len()
                        invariant
                            0 <= k <= ids.len(),
                            spec_add_metrics(
                                base,
                                ids@,
                                aggs@,
                                fmt,
                                self.human_format,
                            ) == spec_add_metrics(metric_views(metrics@), ids@.skip(k as int), aggs@, fmt, self.human_format),
                            h == self.human_format,
                            i < names.len(),
                            all == string_views(names@),
                            spec_parse_names(Seq::empty(), all, h) == match spec_add_metrics(base, ids@, aggs@, fmt, h) {
                                Err(e) => Err(e),
                                Ok(a) => spec_parse_names(a, all.skip(i + 1), h),
                            },
                        decreases ids.len() - k,
                    {
                        let id = ids[k];
                        assert(ids@.skip(k as int)[0] == id);
                        assert(ids@.skip(k as int).drop_first() =~= ids@.skip(k + 1));
                        if contains_metric(&metrics, id) {
                            return Err(Error::DuplicateMetric(to_string(id.as_str())));
                        }
                        let f = match fmt {
                            Some(f) => f,
                            None => self.get_default_formatter(id),
                        };
                        let ghost before = metric_views(metrics@);
                        metrics.push(FormattedMetric::new(id, aggs, f));
                        assert(metric_views(metrics@) =~= before.push((id, aggs@, f)));
                        k = k + 1;
                    }
                    assert(ids@.skip(ids.len() as int) =~= Seq::<MetricId>::empty());
                },
            }
            i = i + 1;
        }
        Ok(metrics)
    }
}

/// Aggregations of a set, in the order in which they are listed.
pub open spec fn ordered_aggregations(s: Set<Aggregation>) -> Seq<Aggregation> {
    (if s.contains(Aggregation::Raw) { seq![Aggregation::Raw] } else { Seq::empty() })
        + (if s.contains(Aggregation::Min) { seq![Aggregation::Min] } else { Seq::empty() })
        + (if s.contains(Aggregation::Max) { seq![Aggregation::Max] } else { Seq::empty() })
        + (if s.contains(Aggregation::Ratio) { seq![Aggregation::Ratio] } else { Seq::empty() })
}

/// The values computed for a list of metrics: for each metric in order, its
/// aggregations in the order in which they are listed.
pub open spec fn spec_computed_metrics(ms: Seq<(MetricId, Set<Aggregation>, Formatter)>) -> Seq<(MetricId, Aggregation)>
    decreases ms.len(),
{
    if ms.len() == 0 {
        Seq::empty()
    } else {
        let m = ms.last();
        spec_computed_metrics(ms.drop_last()) + ordered_aggregations(m.1).map_values(|a: Aggregation| (m.0, a))
    }
}

/// The (metric, aggregation) pairs computed for a list of metrics.
pub fn computed_metrics(metrics: &[FormattedMetric]) -> (r: Vec<(MetricId, Aggregation)>)
    ensures
        r@ == spec_computed_metrics(metric_views(metrics@)),
{
    let ghost ms = metric_views(metrics@);
    let mut r: Vec<(MetricId, Aggregation)> = Vec::new();
    let mut i: usize = 0;
    assert(ms.take(0) =~= Seq::<(MetricId, Set<Aggregation>, Formatter)>::empty());
    while i < metrics.len()
        invariant
            0 <= i <= metrics.len(),
            ms == metric_views(metrics@),
            r@ == spec_computed_metrics(ms.take(i as int)),
        decreases metrics.len() - i,
    {
        let metric = &metrics[i];
        let all = Aggregation::iter();
        let ghost before = r@;
        let ghost aggs = metric.aggregations@;
        let mut k: usize = 0;
        while k < all.len()
            invariant
                0 <= k <= all.len(),
                all@ == crate::agg::all_aggregations(),
                aggs == metric.aggregations@,
                r@ == before + all@.take(k as int).filter(|a: Aggregation| aggs.contains(a)).map_values(|a: Aggregation| (metric.id, a)),
            decreases all.len() - k,
        {
            let ag = all[k];
            proof {
                reveal(Seq::filter);
                assert(all@.take(k + 1).drop_last() =~= all@.take(k as int));
            }
            if metric.aggregations.has(ag) {
                r.push((metric.id, ag));
            }
            assert(r@ =~= before + all@.take(k + 1).filter(|a: Aggregation| aggs.contains(a)).map_values(|a: Aggregation| (metric.id, a)));
            k = k + 1;
        }
        proof {
            reveal_with_fuel(Seq::filter, 5);
            assert(all@.take(4) =~= all@);
            assert(all@.filter(|a: Aggregation| aggs.contains(a)) =~= ordered_aggregations(aggs));
            assert(ms.take(i + 1).drop_last() =~= ms.take(i as int));
            assert(ms[i as int] == metric@);
        }
        i = i + 1;
    }
    assert(ms.take(metrics.len() as int) =~= ms);
    r
}

} // verus!
