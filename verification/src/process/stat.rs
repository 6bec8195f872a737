//! Metrics extracted from the statistics the kernel gives about the system
//! and about each process.
//!
//! The statistics are read elsewhere; here they are plain numbers, and the
//! value of each metric is computed from them.

use vstd::prelude::*;
use crate::metrics::{metric_views, FormattedMetric, MetricId};
use crate::strings::to_string;

verus! {

/// Errors while reading the kernel statistics.
pub enum StatError {
    KernelStats(String),
}

/// Elapsed whole seconds since a start time, 0 if it is in the future.
pub open spec fn spec_elapsed_seconds_since(now_seconds: u64, start_time: u64) -> u64 {
    if now_seconds >= start_time { (now_seconds - start_time) as u64 } else { 0 }
}

/// Elapsed time since a start time, both in seconds since the Epoch.
pub fn elapsed_seconds_since(now_seconds: u64, start_time: u64) -> (s: u64)
    ensures
        s == spec_elapsed_seconds_since(now_seconds, start_time),
{
    now_seconds.saturating_sub(start_time)
}

/// System configuration.
#[derive(Clone, Copy, Debug, PartialEq, Eq, Structural)]
pub struct SystemConf {
    pub ticks_per_second: u64,
    pub boot_time_seconds: u64,
    pub page_size: u64,
}

impl SystemConf {
    /// Milliseconds of a number of clock ticks.
    pub open spec fn spec_ticks_to_millis(self, ticks: u64) -> u64 {
        (ticks * 1000 / self.ticks_per_second as int) as u64
    }

    /// Whether a number of ticks can be converted.
    pub open spec fn can_convert(self, ticks: u64) -> bool {
        self.ticks_per_second > 0 && ticks * 1000 <= u64::MAX
    }

    /// Convert a number of ticks in milliseconds.
    pub fn ticks_to_millis(&self, ticks: u64) -> (m: u64)
        requires
            self.can_convert(ticks),
        ensures
            m == self.spec_ticks_to_millis(ticks),
    {
        ticks * 1000 / self.ticks_per_second
    }
}

/// Time spent by the processors, in ticks, as `/proc/stat` gives it.
#[derive(Clone, Copy, Debug, PartialEq, Eq, Structural)]
pub struct CpuTime {
    pub user: u64,
    pub nice: u64,
    pub system: u64,
    pub idle: u64,
    pub iowait: Option<u64>,
    pub irq: Option<u64>,
    pub softirq: Option<u64>,
    pub steal: Option<u64>,
    pub guest: Option<u64>,
    pub guest_nice: Option<u64>,
}

/// An optional count, 0 when absent.
pub open spec fn or_zero(v: Option<u64>) -> int {
    match v {
        Some(x) => x as int,
        None => 0,
    }
}

/// Ticks spent doing something: user time without guests, nice time
/// without guests, system, I/O wait, interrupts and stolen time.
pub open spec fn spec_non_idle(ct: CpuTime) -> int {
    (ct.user - or_zero(ct.guest)) + (ct.nice - or_zero(ct.guest_nice)) + ct.system + or_zero(ct.iowait)
        + or_zero(ct.irq) + or_zero(ct.softirq) + or_zero(ct.steal)
}

/// Whether the ticks can be added up: guests do not exceed the time they
/// are part of, and the sums fit.
pub open spec fn cpu_time_ok(ct: CpuTime) -> bool {
    &&& or_zero(ct.guest) <= ct.user
    &&& or_zero(ct.guest_nice) <= ct.nice
    &&& spec_non_idle(ct) + ct.idle <= u64::MAX
}

/// Memory of the system, in bytes.
#[derive(Clone, Copy, Debug, PartialEq, Eq, Structural)]
pub struct Meminfo {
    pub mem_total: u64,
    pub mem_free: u64,
    pub swap_total: u64,
    pub swap_free: u64,
}

/// Whether the used memory can be computed.
pub open spec fn meminfo_ok(mi: Meminfo) -> bool {
    &&& mi.mem_free <= mi.mem_total
    &&& mi.swap_free <= mi.swap_total
    &&& mi.mem_total - mi.mem_free + mi.swap_total <= u64::MAX
}

/// Statistics of the system.
pub struct SystemStat {
    pub cputime: Option<CpuTime>,
    pub meminfo: Option<Meminfo>,
}

/// Value of a metric for the system.
pub open spec fn spec_system_metric(id: MetricId, ct: CpuTime, mi: Meminfo, conf: SystemConf, now_seconds: u64) -> u64 {
    match id {
        MetricId::MemVm => (mi.mem_total - mi.mem_free + mi.swap_total - mi.swap_free) as u64,
        MetricId::MemRss => (mi.mem_total - mi.mem_free) as u64,
        MetricId::TimeElapsed => (spec_elapsed_seconds_since(now_seconds, conf.boot_time_seconds) * 1000) as u64,
        MetricId::TimeCpu => conf.spec_ticks_to_millis(spec_non_idle(ct) as u64),
        MetricId::TimeSystem => conf.spec_ticks_to_millis(ct.system),
        MetricId::TimeUser => conf.spec_ticks_to_millis(ct.user),
        _ => 0,
    }
}

impl SystemStat {
    /// No statistics read yet.
    pub fn new() -> (s: SystemStat)
        ensures
            s.cputime is None,
            s.meminfo is None,
    {
        SystemStat { cputime: None, meminfo: None }
    }

    /// Whether the statistics are read and usable.
    pub open spec fn ready(&self, conf: SystemConf, now_seconds: u64) -> bool {
        &&& self.cputime matches Some(ct) && cpu_time_ok(ct)
            && conf.can_convert((spec_non_idle(ct) + ct.idle) as u64)
            && conf.can_convert(spec_non_idle(ct) as u64)
            && conf.can_convert(ct.system) && conf.can_convert(ct.user)
        &&& self.meminfo matches Some(mi) && meminfo_ok(mi)
        &&& spec_elapsed_seconds_since(now_seconds, conf.boot_time_seconds) * 1000 <= u64::MAX
    }

    fn non_idle_ticks(ct: &CpuTime) -> (t: u64)
        requires
            cpu_time_ok(*ct),
        ensures
            t == spec_non_idle(*ct),
    {
        let guest = match ct.guest {
            Some(g) => g,
            None => 0,
        };
        let guest_nice = match ct.guest_nice {
            Some(g) => g,
            None => 0,
        };
        let iowait = match ct.iowait {
            Some(v) => v,
            None => 0,
        };
        let irq = match ct.irq {
            Some(v) => v,
            None => 0,
        };
        let softirq = match ct.softirq {
            Some(v) => v,
            None => 0,
        };
        let steal = match ct.steal {
            Some(v) => v,
            None => 0,
        };
        (ct.user - guest) + (ct.nice - guest_nice) + ct.system + iowait + irq + softirq + steal
    }

    /// Total time of the processors, idle or not, in milliseconds.
    pub fn total_time(&self, conf: &SystemConf) -> (t: u64)
        requires
            self.cputime matches Some(ct) && cpu_time_ok(ct) && conf.can_convert((spec_non_idle(ct) + ct.idle) as u64),
        ensures
            self.cputime matches Some(ct) && t == conf.spec_ticks_to_millis((spec_non_idle(ct) + ct.idle) as u64),
    {
        match &self.cputime {
            Some(ct) => conf.ticks_to_millis(ct.idle + SystemStat::non_idle_ticks(ct)),
            None => 0,
        }
    }

    /// Values of the metrics for the system; metrics that make no sense for
    /// the system are 0.
    pub fn extract_metrics(&self, metrics: &[FormattedMetric], conf: &SystemConf, now_seconds: u64) -> (v: Vec<u64>)
        requires
            self.ready(*conf, now_seconds),
        ensures
            v@.len() == metrics@.len(),
            forall|i: int| 0 <= i < metrics@.len() ==> v@[i] == spec_system_metric(
                #[trigger] metrics@[i].id, self.cputime->0, self.meminfo->0, *conf, now_seconds),
    {
        let ct = match &self.cputime {
            Some(ct) => *ct,
            None => CpuTime {
                user: 0, nice: 0, system: 0, idle: 0, iowait: None, irq: None, softirq: None,
                steal: None, guest: None, guest_nice: None,
            },
        };
        let mi = match &self.meminfo {
            Some(mi) => *mi,
            None => Meminfo { mem_total: 0, mem_free: 0, swap_total: 0, swap_free: 0 },
        };
        let mut v: Vec<u64> = Vec::new();
        let mut i: usize = 0;
        while i < metrics.len()
            invariant
                0 <= i <= metrics.len(),
                self.ready(*conf, now_seconds),
                self.cputime == Some(ct),
                self.meminfo == Some(mi),
                v@.len() == i,
                forall|j: int| 0 <= j < i ==> v@[j] == spec_system_metric(
                    #[trigger] metrics@[j].id, ct, mi, *conf, now_seconds),
            decreases metrics.len() - i,
        {
            let value = match metrics[i].id {
                MetricId::MemVm => mi.mem_total - mi.mem_free + mi.swap_total - mi.swap_free,
                MetricId::MemRss => mi.mem_total - mi.mem_free,
                MetricId::TimeElapsed => elapsed_seconds_since(now_seconds, conf.boot_time_seconds) * 1000,
                MetricId::TimeCpu => conf.ticks_to_millis(SystemStat::non_idle_ticks(&ct)),
                MetricId::TimeSystem => conf.ticks_to_millis(ct.system),
                MetricId::TimeUser => conf.ticks_to_millis(ct.user),
                _ => 0,
            };
            v.push(value);
            i = i + 1;
        }
        v
    }
}

/// What a file descriptor points to.
#[derive(Clone, Copy, Debug, PartialEq, Eq, Structural)]
pub enum FdTarget {
    AnonInode,
    MemFD,
    Net,
    Other,
    Path,
    Pipe,
    Socket,
}

/// The metric that counts file descriptors of a kind.
pub open spec fn spec_fd_metric(t: FdTarget) -> MetricId {
    match t {
        FdTarget::AnonInode => MetricId::FdAnon,
        FdTarget::MemFD => MetricId::FdMemFile,
        FdTarget::Net => MetricId::FdNet,
        FdTarget::Other => MetricId::FdOther,
        FdTarget::Path => MetricId::FdFile,
        FdTarget::Pipe => MetricId::FdPipe,
        FdTarget::Socket => MetricId::FdSocket,
    }
}

/// A file descriptor of a process.
#[derive(Clone, Copy, Debug, PartialEq, Eq, Structural)]
pub struct FdInfo {
    pub fd: i32,
    pub target: FdTarget,
}

/// Number of file descriptors of a list that count for a metric.
pub open spec fn fd_count(fds: Seq<FdInfo>, id: MetricId) -> nat
    decreases fds.len(),
{
    if fds.len() == 0 {
        0
    } else {
        fd_count(fds.drop_last(), id) + if spec_fd_metric(fds.last().target) == id { 1nat } else { 0nat }
    }
}

/// Highest file descriptor of a list, at least 0.
pub open spec fn fd_highest(fds: Seq<FdInfo>) -> i32
    decreases fds.len(),
{
    if fds.len() == 0 {
        0
    } else {
        let h = fd_highest(fds.drop_last());
        if fds.last().fd > h { fds.last().fd } else { h }
    }
}

/// Statistics about file descriptors.
pub struct FdStats {
    /// Highest file descriptor value.
    pub highest: u32,
    /// Total number of file descriptors.
    pub total: usize,
    /// Number of file descriptors of each kind, in the order of the kinds.
    pub kinds: Vec<usize>,
}

/// Position of a kind of file descriptor in the counts.
pub open spec fn fd_index(id: MetricId) -> int {
    match id {
        MetricId::FdAnon => 0,
        MetricId::FdMemFile => 1,
        MetricId::FdNet => 2,
        MetricId::FdOther => 3,
        MetricId::FdFile => 4,
        MetricId::FdPipe => 5,
        MetricId::FdSocket => 6,
        _ => -1,
    }
}

fn fd_slot(t: FdTarget) -> (i: usize)
    ensures
        i == fd_index(spec_fd_metric(t)),
{
    match t {
        FdTarget::AnonInode => 0,
        FdTarget::MemFD => 1,
        FdTarget::Net => 2,
        FdTarget::Other => 3,
        FdTarget::Path => 4,
        FdTarget::Pipe => 5,
        FdTarget::Socket => 6,
    }
}

/// The metric counted at a position.
pub open spec fn fd_metric_at(i: int) -> MetricId {
    if i == 0 { MetricId::FdAnon }
    else if i == 1 { MetricId::FdMemFile }
    else if i == 2 { MetricId::FdNet }
    else if i == 3 { MetricId::FdOther }
    else if i == 4 { MetricId::FdFile }
    else if i == 5 { MetricId::FdPipe }
    else { MetricId::FdSocket }
}

impl FdStats {
    /// Statistics of a list of file descriptors.
    pub fn new(fds: &[FdInfo]) -> (s: FdStats)
        ensures
            s.total == fds@.len(),
            s.highest == fd_highest(fds@) as u32,
            s.kinds@.len() == 7,
            forall|i: int| 0 <= i < 7 ==> s.kinds@[i] == fd_count(fds@, fd_metric_at(i)),
    {
        let mut kinds: Vec<usize> = vec![0, 0, 0, 0, 0, 0, 0];
        let mut highest: i32 = 0;
        let mut ninfos: usize = 0;
        let mut k: usize = 0;
        assert(fds@.take(0) =~= Seq::<FdInfo>::empty());
        while k < fds.len()
            invariant
                0 <= k <= fds.len(),
                ninfos == k,
                highest == fd_highest(fds@.take(k as int)),
                kinds@.len() == 7,
                forall|i: int| 0 <= i < 7 ==> kinds@[i] == fd_count(fds@.take(k as int), fd_metric_at(i)),
                forall|i: int| 0 <= i < 7 ==> kinds@[i] <= k,
            decreases fds.len() - k,
        {
            let info = fds[k];
            ninfos = ninfos + 1;
            if info.fd > highest {
                highest = info.fd;
            }
            let slot = fd_slot(info.target);
            kinds.set(slot, kinds[slot] + 1);
            proof {
                assert(fds@.take(k + 1).drop_last() =~= fds@.take(k as int));
                assert forall|i: int| 0 <= i < 7 implies kinds@[i] == fd_count(fds@.take(k + 1), fd_metric_at(i)) by {
                    assert(fd_metric_at(i) == spec_fd_metric(info.target) <==> i == slot);
                }
            }
            k = k + 1;
        }
        assert(fds@.take(fds.len() as int) =~= fds@);
        FdStats { highest: highest as u32, total: ninfos, kinds }
    }
}

/// What a memory mapping holds.
#[derive(Clone, Copy, Debug, PartialEq, Eq, Structural)]
pub enum MapKind {
    Path,
    Heap,
    Stack,
    TStack,
    Vdso,
    Vsys,
    Vvar,
    Vsyscall,
    Anonymous,
    Rollup,
    Other,
}

/// A memory mapping: what it holds and its address range.
#[derive(Clone, Copy, Debug, PartialEq, Eq, Structural)]
pub struct MapInfo {
    pub kind: MapKind,
    pub start: u64,
    pub end: u64,
}

/// Position of a kind of mapping in the counts and sizes; rollups count
/// as other mappings.
pub open spec fn map_index(k: MapKind) -> int {
    match k {
        MapKind::Anonymous => 0,
        MapKind::Heap => 1,
        MapKind::Path => 2,
        MapKind::Stack => 3,
        MapKind::TStack => 4,
        MapKind::Vdso => 5,
        MapKind::Vsys => 6,
        MapKind::Vsyscall => 7,
        MapKind::Vvar => 8,
        MapKind::Rollup | MapKind::Other => 9,
    }
}

fn map_slot(k: MapKind) -> (i: usize)
    ensures
        i == map_index(k),
{
    match k {
        MapKind::Anonymous => 0,
        MapKind::Heap => 1,
        MapKind::Path => 2,
        MapKind::Stack => 3,
        MapKind::TStack => 4,
        MapKind::Vdso => 5,
        MapKind::Vsys => 6,
        MapKind::Vsyscall => 7,
        MapKind::Vvar => 8,
        MapKind::Rollup | MapKind::Other => 9,
    }
}

/// Number of mappings of a list at a position.
pub open spec fn map_count(maps: Seq<MapInfo>, i: int) -> nat
    decreases maps.len(),
{
    if maps.len() == 0 {
        0
    } else {
        map_count(maps.drop_last(), i) + if map_index(maps.last().kind) == i { 1nat } else { 0nat }
    }
}

/// Total size of the mappings of a list at a position.
pub open spec fn map_size(maps: Seq<MapInfo>, i: int) -> int
    decreases maps.len(),
{
    if maps.len() == 0 {
        0
    } else {
        map_size(maps.drop_last(), i) + if map_index(maps.last().kind) == i {
            maps.last().end - maps.last().start
        } else {
            0
        }
    }
}

/// Whether the sizes of the mappings can be added up: each range is in
/// order and the total fits.
pub open spec fn maps_ok(maps: Seq<MapInfo>) -> bool {
    &&& forall|j: int| 0 <= j < maps.len() ==> (#[trigger] maps[j]).start <= maps[j].end
    &&& forall|j: int, i: int| 0 <= j <= maps.len() && 0 <= i < 10 ==> #[trigger] map_size(maps.take(j), i) <= u64::MAX
}

/// Statistics about memory mappings, by kind.
pub struct MapsStats {
    pub counts: Vec<usize>,
    pub sizes: Vec<u64>,
}

impl MapsStats {
    /// Statistics of a list of mappings.
    pub fn new(maps: &[MapInfo]) -> (s: MapsStats)
        requires
            maps_ok(maps@),
        ensures
            s.counts@.len() == 10,
            s.sizes@.len() == 10,
            forall|i: int| 0 <= i < 10 ==> s.counts@[i] == map_count(maps@, i),
            forall|i: int| 0 <= i < 10 ==> s.sizes@[i] == map_size(maps@, i),
    {
        let mut counts: Vec<usize> = vec![0, 0, 0, 0, 0, 0, 0, 0, 0, 0];
        let mut sizes: Vec<u64> = vec![0, 0, 0, 0, 0, 0, 0, 0, 0, 0];
        let mut k: usize = 0;
        assert(maps@.take(0) =~= Seq::<MapInfo>::empty());
        while k < maps.len()
            invariant
                0 <= k <= maps.len(),
                maps_ok(maps@),
                counts@.len() == 10,
                sizes@.len() == 10,
                forall|i: int| 0 <= i < 10 ==> counts@[i] == map_count(maps@.take(k as int), i),
                forall|i: int| 0 <= i < 10 ==> counts@[i] <= k,
                forall|i: int| 0 <= i < 10 ==> sizes@[i] == map_size(maps@.take(k as int), i),
            decreases maps.len() - k,
        {
            let info = maps[k];
            let slot = map_slot(info.kind);
            proof {
                assert(maps@.take(k + 1).drop_last() =~= maps@.take(k as int));
                assert(maps@[k as int].start <= maps@[k as int].end);
                assert(map_size(maps@.take(k + 1), slot as int) <= u64::MAX);
            }
            counts.set(slot, counts[slot] + 1);
            sizes.set(slot, sizes[slot] + (info.end - info.start));
            k = k + 1;
        }
        assert(maps@.take(maps.len() as int) =~= maps@);
        MapsStats { counts, sizes }
    }
}

/// What `/proc/[pid]/stat` says of a process that the metrics read.
#[derive(Clone, Copy, Debug, PartialEq, Eq, Structural)]
pub struct Stat {
    pub minflt: u64,
    pub majflt: u64,
    pub vsize: u64,
    pub rss: u64,
    pub starttime: u64,
    pub utime: u64,
    pub stime: u64,
    pub num_threads: i64,
}

/// What `/proc/[pid]/io` says of a process.
#[derive(Clone, Copy, Debug, PartialEq, Eq, Structural)]
pub struct Io {
    pub rchar: u64,
    pub wchar: u64,
    pub syscr: u64,
    pub syscw: u64,
    pub read_bytes: u64,
    pub write_bytes: u64,
}

/// What `/proc/[pid]/statm` says of a process, in pages.
#[derive(Clone, Copy, Debug, PartialEq, Eq, Structural)]
pub struct StatM {
    pub text: u64,
    pub data: u64,
}

/// The statistics of a process that could be read.
pub struct ProcessStat {
    pub fd_stats: Option<FdStats>,
    pub maps_stats: Option<MapsStats>,
    pub io: Option<Io>,
    pub stat: Option<Stat>,
    pub statm: Option<StatM>,
}

/// Start of a process in seconds since the Epoch.
pub open spec fn process_start(stat: Stat, conf: SystemConf) -> int {
    conf.boot_time_seconds + stat.starttime / conf.ticks_per_second
}

/// Whether the metrics of a process can be computed: the clock runs, and
/// products and sums fit.
pub open spec fn process_stat_ok(p: ProcessStat, conf: SystemConf, now_seconds: u64) -> bool {
    &&& conf.ticks_per_second > 0
    &&& p.stat matches Some(st) ==> {
        &&& st.rss * conf.page_size <= u64::MAX
        &&& process_start(st, conf) <= u64::MAX
        &&& spec_elapsed_seconds_since(now_seconds, process_start(st, conf) as u64) * 1000 <= u64::MAX
        &&& st.stime + st.utime <= u64::MAX
        &&& conf.can_convert((st.stime + st.utime) as u64)
        &&& conf.can_convert(st.stime)
        &&& conf.can_convert(st.utime)
    }
    &&& p.statm matches Some(sm) ==> sm.text * conf.page_size <= u64::MAX && sm.data * conf.page_size <= u64::MAX
    &&& p.fd_stats matches Some(f) ==> f.kinds@.len() == 7
    &&& p.maps_stats matches Some(m) ==> m.counts@.len() == 10 && m.sizes@.len() == 10
}

/// A value from the stat file, 0 if it could not be read.
pub open spec fn on_stat(p: ProcessStat, f: spec_fn(Stat) -> u64) -> u64 {
    match p.stat {
        Some(st) => f(st),
        None => 0,
    }
}

/// A value from the io file, 0 if it could not be read.
pub open spec fn on_io(p: ProcessStat, f: spec_fn(Io) -> u64) -> u64 {
    match p.io {
        Some(io) => f(io),
        None => 0,
    }
}

/// Position of a mapping metric in the counts or sizes.
pub open spec fn map_metric_index(id: MetricId) -> int {
    match id {
        MetricId::MapAnonCount | MetricId::MapAnonSize => 0,
        MetricId::MapHeapCount | MetricId::MapHeapSize => 1,
        MetricId::MapFileCount | MetricId::MapFileSize => 2,
        MetricId::MapStackCount | MetricId::MapStackSize => 3,
        MetricId::MapThreadStackCount | MetricId::MapThreadStackSize => 4,
        MetricId::MapVdsoCount | MetricId::MapVdsoSize => 5,
        MetricId::MapVsysCount | MetricId::MapVsysSize => 6,
        MetricId::MapVsyscallCount | MetricId::MapVsyscallSize => 7,
        MetricId::MapVvarCount | MetricId::MapVvarSize => 8,
        _ => 9,
    }
}

/// Whether a metric counts mappings.
pub open spec fn is_map_count(id: MetricId) -> bool {
    id == MetricId::MapAnonCount || id == MetricId::MapHeapCount || id == MetricId::MapFileCount
        || id == MetricId::MapStackCount || id == MetricId::MapThreadStackCount || id == MetricId::MapVdsoCount
        || id == MetricId::MapVsysCount || id == MetricId::MapVsyscallCount || id == MetricId::MapVvarCount
        || id == MetricId::MapOtherCount
}

/// Whether a metric adds up mapping sizes.
pub open spec fn is_map_size(id: MetricId) -> bool {
    id == MetricId::MapAnonSize || id == MetricId::MapHeapSize || id == MetricId::MapFileSize
        || id == MetricId::MapStackSize || id == MetricId::MapThreadStackSize || id == MetricId::MapVdsoSize
        || id == MetricId::MapVsysSize || id == MetricId::MapVsyscallSize || id == MetricId::MapVvarSize
        || id == MetricId::MapOtherSize
}

/// Value of a metric for a process; what could not be read counts as 0.
pub open spec fn spec_process_metric(id: MetricId, p: ProcessStat, conf: SystemConf, now_seconds: u64) -> u64 {
    if fd_index(id) >= 0 {
        match p.fd_stats {
            Some(f) => f.kinds@[fd_index(id)] as u64,
            None => 0,
        }
    } else if is_map_count(id) {
        match p.maps_stats {
            Some(m) => m.counts@[map_metric_index(id)] as u64,
            None => 0,
        }
    } else if is_map_size(id) {
        match p.maps_stats {
            Some(m) => m.sizes@[map_metric_index(id)],
            None => 0,
        }
    } else {
        match id {
            MetricId::FaultMinor => on_stat(p, |st: Stat| st.minflt),
            MetricId::FaultMajor => on_stat(p, |st: Stat| st.majflt),
            MetricId::FdAll => match p.fd_stats {
                Some(f) => f.total as u64,
                None => 0,
            },
            MetricId::FdHigh => match p.fd_stats {
                Some(f) => f.highest as u64,
                None => 0,
            },
            MetricId::IoReadCall => on_io(p, |io: Io| io.syscr),
            MetricId::IoReadTotal => on_io(p, |io: Io| io.rchar),
            MetricId::IoReadStorage => on_io(p, |io: Io| io.read_bytes),
            MetricId::IoWriteCall => on_io(p, |io: Io| io.syscw),
            MetricId::IoWriteTotal => on_io(p, |io: Io| io.wchar),
            MetricId::IoWriteStorage => on_io(p, |io: Io| io.write_bytes),
            MetricId::MemVm => on_stat(p, |st: Stat| st.vsize),
            MetricId::MemRss => on_stat(p, |st: Stat| (st.rss * conf.page_size) as u64),
            MetricId::MemText => match p.statm {
                Some(sm) => (sm.text * conf.page_size) as u64,
                None => 0,
            },
            MetricId::MemData => match p.statm {
                Some(sm) => (sm.data * conf.page_size) as u64,
                None => 0,
            },
            MetricId::TimeElapsed => (on_stat(p, |st: Stat|
                spec_elapsed_seconds_since(now_seconds, process_start(st, conf) as u64)) * 1000) as u64,
            MetricId::TimeCpu => conf.spec_ticks_to_millis(on_stat(p, |st: Stat| (st.stime + st.utime) as u64)),
            MetricId::TimeSystem => conf.spec_ticks_to_millis(on_stat(p, |st: Stat| st.stime)),
            MetricId::TimeUser => conf.spec_ticks_to_millis(on_stat(p, |st: Stat| st.utime)),
            MetricId::ThreadCount => on_stat(p, |st: Stat| st.num_threads as u64),
            _ => 0,
        }
    }
}

/// The input and output metrics of a process are the fields of its io
/// file: bytes read and written by the storage layer, bytes passed to read
/// and write calls, and the number of such calls; 0 when the file could not
/// be read.
pub proof fn law_io_metrics_are_io_fields(p: ProcessStat, conf: SystemConf, now_seconds: u64)
    ensures
        p.io matches Some(io) ==> {
            &&& spec_process_metric(MetricId::IoReadStorage, p, conf, now_seconds) == io.read_bytes
            &&& spec_process_metric(MetricId::IoWriteStorage, p, conf, now_seconds) == io.write_bytes
            &&& spec_process_metric(MetricId::IoReadTotal, p, conf, now_seconds) == io.rchar
            &&& spec_process_metric(MetricId::IoWriteTotal, p, conf, now_seconds) == io.wchar
            &&& spec_process_metric(MetricId::IoReadCall, p, conf, now_seconds) == io.syscr
            &&& spec_process_metric(MetricId::IoWriteCall, p, conf, now_seconds) == io.syscw
        },
        p.io is None ==> {
            &&& spec_process_metric(MetricId::IoReadStorage, p, conf, now_seconds) == 0
            &&& spec_process_metric(MetricId::IoWriteStorage, p, conf, now_seconds) == 0
            &&& spec_process_metric(MetricId::IoReadTotal, p, conf, now_seconds) == 0
            &&& spec_process_metric(MetricId::IoWriteTotal, p, conf, now_seconds) == 0
            &&& spec_process_metric(MetricId::IoReadCall, p, conf, now_seconds) == 0
            &&& spec_process_metric(MetricId::IoWriteCall, p, conf, now_seconds) == 0
        },
{
}

impl ProcessStat {
    /// Statistics of a process of which only the stat file is read.
    pub fn with_stat(stat: Stat) -> (p: ProcessStat)
        ensures
            p.stat == Some(stat),
            p.fd_stats is None,
            p.maps_stats is None,
            p.io is None,
            p.statm is None,
    {
        ProcessStat { fd_stats: None, io: None, maps_stats: None, stat: Some(stat), statm: None }
    }

    /// The value of one metric.
    fn metric_value(&self, id: MetricId, conf: &SystemConf, now_seconds: u64) -> (v: u64)
        requires
            process_stat_ok(*self, *conf, now_seconds),
        ensures
            v == spec_process_metric(id, *self, *conf, now_seconds),
    {
        match id {
            MetricId::FaultMinor => match &self.stat { Some(st) => st.minflt, None => 0 },
            MetricId::FaultMajor => match &self.stat { Some(st) => st.majflt, None => 0 },
            MetricId::FdAll => match &self.fd_stats { Some(f) => f.total as u64, None => 0 },
            MetricId::FdHigh => match &self.fd_stats { Some(f) => f.highest as u64, None => 0 },
            MetricId::FdAnon | MetricId::FdFile | MetricId::FdMemFile | MetricId::FdNet
            | MetricId::FdOther | MetricId::FdPipe | MetricId::FdSocket => match &self.fd_stats {
                Some(f) => {
                    let slot: usize = match id {
                        MetricId::FdAnon => 0,
                        MetricId::FdMemFile => 1,
                        MetricId::FdNet => 2,
                        MetricId::FdOther => 3,
                        MetricId::FdFile => 4,
                        MetricId::FdPipe => 5,
                        _ => 6,
                    };
                    f.kinds[slot] as u64
                },
                None => 0,
            },
            MetricId::IoReadCall => match &self.io { Some(io) => io.syscr, None => 0 },
            MetricId::IoReadTotal => match &self.io { Some(io) => io.rchar, None => 0 },
            MetricId::IoReadStorage => match &self.io { Some(io) => io.read_bytes, None => 0 },
            MetricId::IoWriteCall => match &self.io { Some(io) => io.syscw, None => 0 },
            MetricId::IoWriteTotal => match &self.io { Some(io) => io.wchar, None => 0 },
            MetricId::IoWriteStorage => match &self.io { Some(io) => io.write_bytes, None => 0 },
            MetricId::MapAnonCount | MetricId::MapHeapCount | MetricId::MapFileCount
            | MetricId::MapStackCount | MetricId::MapThreadStackCount | MetricId::MapVdsoCount
            | MetricId::MapVsysCount | MetricId::MapVsyscallCount | MetricId::MapVvarCount
            | MetricId::MapOtherCount => match &self.maps_stats {
                Some(m) => m.counts[Self::map_slot_of(id)] as u64,
                None => 0,
            },
            MetricId::MapAnonSize | MetricId::MapHeapSize | MetricId::MapFileSize
            | MetricId::MapStackSize | MetricId::MapThreadStackSize | MetricId::MapVdsoSize
            | MetricId::MapVsysSize | MetricId::MapVsyscallSize | MetricId::MapVvarSize
            | MetricId::MapOtherSize => match &self.maps_stats {
                Some(m) => m.sizes[Self::map_slot_of(id)],
                None => 0,
            },
            MetricId::MemVm => match &self.stat { Some(st) => st.vsize, None => 0 },
            MetricId::MemRss => match &self.stat { Some(st) => st.rss * conf.page_size, None => 0 },
            MetricId::MemText => match &self.statm { Some(sm) => sm.text * conf.page_size, None => 0 },
            MetricId::MemData => match &self.statm { Some(sm) => sm.data * conf.page_size, None => 0 },
            MetricId::TimeElapsed => match &self.stat {
                Some(st) => {
                    let start = conf.boot_time_seconds + st.starttime / conf.ticks_per_second;
                    elapsed_seconds_since(now_seconds, start) * 1000
                },
                None => 0,
            },
            MetricId::TimeCpu => conf.ticks_to_millis(match &self.stat { Some(st) => st.stime + st.utime, None => 0 }),
            MetricId::TimeSystem => conf.ticks_to_millis(match &self.stat { Some(st) => st.stime, None => 0 }),
            MetricId::TimeUser => conf.ticks_to_millis(match &self.stat { Some(st) => st.utime, None => 0 }),
            MetricId::ThreadCount => match &self.stat { Some(st) => st.num_threads as u64, None => 0 },
        }
    }

    fn map_slot_of(id: MetricId) -> (i: usize)
        ensures
            i == map_metric_index(id),
    {
        match id {
            MetricId::MapAnonCount | MetricId::MapAnonSize => 0,
            MetricId::MapHeapCount | MetricId::MapHeapSize => 1,
            MetricId::MapFileCount | MetricId::MapFileSize => 2,
            MetricId::MapStackCount | MetricId::MapStackSize => 3,
            MetricId::MapThreadStackCount | MetricId::MapThreadStackSize => 4,
            MetricId::MapVdsoCount | MetricId::MapVdsoSize => 5,
            MetricId::MapVsysCount | MetricId::MapVsysSize => 6,
            MetricId::MapVsyscallCount | MetricId::MapVsyscallSize => 7,
            MetricId::MapVvarCount | MetricId::MapVvarSize => 8,
            _ => 9,
        }
    }

    /// Values of the metrics for the process; statistics that could not be
    /// read give 0.
    pub fn extract_metrics(&self, metrics: &[FormattedMetric], conf: &SystemConf, now_seconds: u64) -> (v: Vec<u64>)
        requires
            process_stat_ok(*self, *conf, now_seconds),
        ensures
            v@.len() == metrics@.len(),
            forall|i: int| 0 <= i < metrics@.len() ==> v@[i] == spec_process_metric(
                #[trigger] metrics@[i].id, *self, *conf, now_seconds),
    {
        let mut v: Vec<u64> = Vec::new();
        let mut i: usize = 0;
        while i < metrics.len()
            invariant
                0 <= i <= metrics.len(),
                process_stat_ok(*self, *conf, now_seconds),
                v@.len() == i,
                forall|j: int| 0 <= j < i ==> v@[j] == spec_process_metric(
                    #[trigger] metrics@[j].id, *self, *conf, now_seconds),
            decreases metrics.len() - i,
        {
            v.push(self.metric_value(metrics[i].id, conf, now_seconds));
            i = i + 1;
        }
        v
    }
}

} // verus!
