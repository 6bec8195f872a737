//! Export to round-robin databases: what is sent to rrdtool to create the
//! databases, update them and draw their graphs.

use std::time::Duration;
use vstd::prelude::*;
use crate::agg::Aggregation;
use crate::cfg::{ExportSettings, ExportType};
use crate::clock::{as_nanos, duration_checked_mul, duration_checked_sub, duration_nanos, max_duration_nanos};
use crate::metrics::{metric_data_type, metric_name, MetricDataType, MetricId};
use crate::strings::{decimal, digit_char, push_char, push_chars, push_decimal, push_str, str_chars, to_string};
use crate::export::rrdtool::{
    create_command, graph_command, secs, spec_create_command, spec_graph_command, spec_update_command,
    texts, update_command,
};
use crate::process::collector::{ProcessSamples, Sample};

verus! {

/// Errors of the export to round-robin databases.
#[derive(Clone, Copy, Debug, PartialEq, Eq, Structural)]
pub enum Error {
    IntervalTooLarge,
    PeriodTooLarge,
    MissingCount,
    NoMoreColors,
    IntervalNotWholeSeconds,
}

/// Colors of the graphs, the last one used first.
pub open spec fn palette() -> Seq<u32> {
    seq![0xfa8072u32, 0xcab2d6u32, 0xffff55u32, 0xb2df8au32, 0xfb9a99u32, 0xa6cee3u32,
        0xb15928u32, 0x6a3d9au32, 0xff7f00u32, 0x33a02cu32, 0xe31a1cu32, 0x1f78b4u32]
}

fn colors() -> (v: Vec<u32>)
    ensures
        v@ == palette(),
{
    let mut v: Vec<u32> = Vec::new();
    v.push(0xfa8072); // salmon
    v.push(0xcab2d6); // light purple
    v.push(0xffff55); // yellow
    v.push(0xb2df8a); // light green
    v.push(0xfb9a99); // pink
    v.push(0xa6cee3); // light blue
    v.push(0xb15928); // maroon
    v.push(0x6a3d9a); // purple
    v.push(0xff7f00); // orange
    v.push(0x33a02c); // green
    v.push(0xe31a1c); // red
    v.push(0x1f78b4); // blue
    assert(v@ =~= palette());
    v
}

/// Character of a data source name: colons become underscores.
pub open spec fn ds_char(c: char) -> char {
    if c == ':' { '_' } else { c }
}

/// Name of the data source of a metric.
pub open spec fn ds_name(id: MetricId) -> Seq<char> {
    metric_name(id).map_values(|c: char| ds_char(c))
}

/// Title of the graph of a data source: underscores become spaces.
pub open spec fn ds_title(ds: Seq<char>) -> Seq<char> {
    ds.map_values(|c: char| if c == '_' { ' ' } else { c })
}

/// Type of the data source of a metric.
pub open spec fn ds_type(id: MetricId) -> Seq<char> {
    match metric_data_type(id) {
        MetricDataType::Counter => "COUNTER"@,
        MetricDataType::Gauge => "GAUGE"@,
    }
}

/// Definition of the data source of a metric.
pub open spec fn spec_ds_definition(id: MetricId, heart_beat: nat) -> Seq<char> {
    "DS:"@ + ds_name(id) + seq![':'] + ds_type(id) + seq![':'] + decimal(heart_beat) + ":0:U"@
}

/// Replace each character of a text.
fn mapped(t: &str, from: char, to: char) -> (r: String)
    ensures
        r@ == t@.map_values(|c: char| if c == from { to } else { c }),
{
    let cs = str_chars(t);
    let mut r = String::new();
    let mut i: usize = 0;
    while i < cs.len()
        invariant
            i <= cs.len(),
            cs@ == t@,
            r@ == t@.take(i as int).map_values(|c: char| if c == from { to } else { c }),
        decreases cs.len() - i,
    {
        let c = cs[i];
        push_char(&mut r, if c == from { to } else { c });
        assert(t@.take(i + 1).map_values(|c: char| if c == from { to } else { c })
            =~= t@.take(i as int).map_values(|c: char| if c == from { to } else { c }).push(if c == from { to } else { c }));
        i = i + 1;
    }
    assert(t@.take(t@.len() as int) =~= t@);
    r
}

/// Name of the data source of a metric.
pub fn data_source_name(id: MetricId) -> (s: String)
    ensures
        s@ == ds_name(id),
{
    let s = mapped(id.as_str(), ':', '_');
    assert(s@ =~= ds_name(id));
    s
}

/// Title of the graph of a data source.
pub fn graph_title(ds: &str) -> (s: String)
    ensures
        s@ == ds_title(ds@),
{
    mapped(ds, '_', ' ')
}

/// Definition of the data source of a metric with a heart beat in seconds.
pub fn ds_definition(id: MetricId, heart_beat: u64) -> (s: String)
    ensures
        s@ == spec_ds_definition(id, heart_beat as nat),
{
    let mut s = to_string("DS:");
    let name = data_source_name(id);
    push_str(&mut s, name.as_str());
    push_char(&mut s, ':');
    match id.data_type() {
        MetricDataType::Counter => push_str(&mut s, "COUNTER"),
        MetricDataType::Gauge => push_str(&mut s, "GAUGE"),
    }
    push_char(&mut s, ':');
    push_decimal(&mut s, heart_beat);
    push_str(&mut s, ":0:U");
    assert(s@ =~= spec_ds_definition(id, heart_beat as nat));
    s
}

/// Decimal representation of a signed number.
pub open spec fn signed_decimal(n: i32) -> Seq<char> {
    if n < 0 { seq!['-'] + decimal((-n) as nat) } else { decimal(n as nat) }
}

/// File name of the database of a process.
pub open spec fn spec_db_name(pid: i32, name: Seq<char>) -> Seq<char> {
    name + seq!['_'] + signed_decimal(pid) + ".rrd"@
}

/// File name of the database of a process.
pub fn db_name(pid: i32, name: &str) -> (s: String)
    ensures
        s@ == spec_db_name(pid, name@),
{
    let mut s = to_string(name);
    push_char(&mut s, '_');
    if pid < 0 {
        push_char(&mut s, '-');
        let abs: i64 = -(pid as i64);
        push_decimal(&mut s, abs as u64);
    } else {
        push_decimal(&mut s, pid as u64);
    }
    push_str(&mut s, ".rrd");
    assert(s@ =~= spec_db_name(pid, name@));
    s
}

/// Hexadecimal digit of a value below sixteen.
pub open spec fn hex_digit(d: nat) -> char {
    if d < 10 {
        digit_char(d)
    } else if d == 10 {
        'a'
    } else if d == 11 {
        'b'
    } else if d == 12 {
        'c'
    } else if d == 13 {
        'd'
    } else if d == 14 {
        'e'
    } else {
        'f'
    }
}

/// Lower-case hexadecimal representation of a number.
pub open spec fn hex(n: nat) -> Seq<char>
    decreases n,
{
    if n < 16 { seq![hex_digit(n)] } else { hex(n / 16).push(hex_digit(n % 16)) }
}

/// Hexadecimal representation padded with zeros to six digits.
pub open spec fn hex6(n: nat) -> Seq<char> {
    let h = hex(n);
    if h.len() < 6 { Seq::new((6 - h.len()) as nat, |i: int| '0') + h } else { h }
}

fn hex_digit_char(d: u32) -> (c: char)
    requires
        d < 16,
    ensures
        c == hex_digit(d as nat),
{
    if d < 10 {
        crate::strings::digit(d as u64)
    } else if d == 10 {
        'a'
    } else if d == 11 {
        'b'
    } else if d == 12 {
        'c'
    } else if d == 13 {
        'd'
    } else if d == 14 {
        'e'
    } else {
        'f'
    }
}

fn hex_chars(n: u32) -> (r: Vec<char>)
    ensures
        r@ == hex(n as nat),
    decreases n,
{
    if n < 16 {
        let mut r: Vec<char> = Vec::new();
        r.push(hex_digit_char(n));
        assert(r@ =~= hex(n as nat));
        r
    } else {
        let mut r = hex_chars(n / 16);
        r.push(hex_digit_char(n % 16));
        r
    }
}

/// Hexadecimal representation of a color, padded to six digits.
pub fn color_hex(color: u32) -> (s: String)
    ensures
        s@ == hex6(color as nat),
{
    let h = hex_chars(color);
    let mut s = String::new();
    if h.len() < 6 {
        let pad = 6 - h.len();
        let mut i: usize = 0;
        while i < pad
            invariant
                i <= pad,
                pad == 6 - h.len(),
                s@ == Seq::new(i as nat, |k: int| '0'),
            decreases pad - i,
        {
            push_char(&mut s, '0');
            assert(s@ =~= Seq::new((i + 1) as nat, |k: int| '0'));
            i = i + 1;
        }
    }
    push_chars(&mut s, h.as_slice());
    assert(s@ =~= hex6(color as nat));
    s
}

/// Definition of the line of a process in a graph.
pub open spec fn spec_graph_def(index: nat, db: Seq<char>, ds: Seq<char>, color: u32, name: Seq<char>) -> Seq<char> {
    "DEF:v"@ + decimal(index) + seq!['='] + db + seq![':'] + ds + ":AVERAGE LINE1:v"@ + decimal(index)
        + seq!['#'] + hex6(color as nat) + ":\""@ + name + seq!['"']
}

/// Definition of the line of a process in a graph.
pub fn graph_def(index: usize, db: &str, ds: &str, color: u32, name: &str) -> (s: String)
    ensures
        s@ == spec_graph_def(index as nat, db@, ds@, color, name@),
{
    let mut s = to_string("DEF:v");
    push_decimal(&mut s, index as u64);
    push_char(&mut s, '=');
    push_str(&mut s, db);
    push_char(&mut s, ':');
    push_str(&mut s, ds);
    push_str(&mut s, ":AVERAGE LINE1:v");
    push_decimal(&mut s, index as u64);
    push_char(&mut s, '#');
    let h = color_hex(color);
    push_str(&mut s, h.as_str());
    push_str(&mut s, ":\"");
    push_str(&mut s, name);
    push_char(&mut s, '"');
    assert(s@ =~= spec_graph_def(index as nat, db@, ds@, color, name@));
    s
}


/// What is exported of a process: its name, the file name of its database and
/// the color of its lines.
pub struct ExportInfo {
    pub pid: i32,
    pub name: String,
    pub db: String,
    pub color: u32,
}

/// Exporter to round-robin databases, one per process.
pub struct RrdExporter {
    pub interval: Duration,
    pub rows: usize,
    pub period: Duration,
    /// Names of the data sources.
    pub variables: Vec<String>,
    /// Definitions of the data sources.
    pub ds: Vec<String>,
    /// For each computed value, whether it is left out of the databases.
    pub skip: Vec<bool>,
    /// Processes exported so far, each once.
    pub infos: Vec<ExportInfo>,
    /// Colors not used yet.
    pub color_bucket: Vec<u32>,
    /// Whether graphs are drawn.
    pub graph: bool,
}

/// Whether a duration is a positive whole number of seconds.
pub open spec fn whole_seconds(d: Duration) -> bool {
    duration_nanos(d) % 1_000_000_000 == 0 && duration_nanos(d) / 1_000_000_000 > 0
}

/// Definitions of the data sources of the raw values among computed values.
pub open spec fn raw_definitions(computed: Seq<(MetricId, Aggregation)>, heart_beat: nat) -> Seq<Seq<char>>
    decreases computed.len(),
{
    if computed.len() == 0 {
        Seq::empty()
    } else {
        let rest = raw_definitions(computed.drop_last(), heart_beat);
        if computed.last().1 == Aggregation::Raw { rest.push(spec_ds_definition(computed.last().0, heart_beat)) } else { rest }
    }
}

/// Names of the data sources of the raw values among computed values.
pub open spec fn raw_names(computed: Seq<(MetricId, Aggregation)>) -> Seq<Seq<char>>
    decreases computed.len(),
{
    if computed.len() == 0 {
        Seq::empty()
    } else {
        let rest = raw_names(computed.drop_last());
        if computed.last().1 == Aggregation::Raw { rest.push(ds_name(computed.last().0)) } else { rest }
    }
}

impl RrdExporter {
    /// An exporter keeping `count` rows, one every `interval`.
    pub fn new(settings: &ExportSettings, interval: Duration) -> (r: Result<RrdExporter, Error>)
        ensures
            settings.count is None ==> r == Err::<RrdExporter, Error>(Error::MissingCount),
            settings.count is Some && duration_nanos(interval) * (settings.count.unwrap() as u32) > max_duration_nanos()
                ==> r == Err::<RrdExporter, Error>(Error::PeriodTooLarge),
            settings.count is Some && duration_nanos(interval) * (settings.count.unwrap() as u32) <= max_duration_nanos()
                && !whole_seconds(interval) ==> r == Err::<RrdExporter, Error>(Error::IntervalNotWholeSeconds),
            settings.count is Some && duration_nanos(interval) * (settings.count.unwrap() as u32) <= max_duration_nanos()
                && whole_seconds(interval) ==> {
                &&& r is Ok
                &&& r->Ok_0.interval == interval
                &&& r->Ok_0.rows == settings.count.unwrap()
                &&& duration_nanos(r->Ok_0.period) == duration_nanos(interval) * (settings.count.unwrap() as u32)
                &&& r->Ok_0.variables@.len() == 0
                &&& r->Ok_0.ds@.len() == 0
                &&& r->Ok_0.skip@.len() == 0
                &&& r->Ok_0.infos@.len() == 0
                &&& r->Ok_0.color_bucket@ == palette()
                &&& r->Ok_0.graph == (settings.kind == ExportType::RrdGraph)
            },
    {
        let rows = match settings.count {
            Some(c) => c,
            None => return Err(Error::MissingCount),
        };
        let period = match duration_checked_mul(interval, rows as u32) {
            Some(p) => p,
            None => return Err(Error::PeriodTooLarge),
        };
        let nanos = as_nanos(interval);
        if nanos / 1_000_000_000 == 0 || nanos % 1_000_000_000 != 0 {
            return Err(Error::IntervalNotWholeSeconds);
        }
        Ok(RrdExporter {
            interval,
            rows,
            period,
            variables: Vec::new(),
            ds: Vec::new(),
            skip: Vec::new(),
            infos: Vec::new(),
            color_bucket: colors(),
            graph: settings.kind == ExportType::RrdGraph,
        })
    }

    /// Define a data source for each raw value among the computed values,
    /// with a heart beat of two intervals.
    pub fn open(&mut self, computed: &[(MetricId, Aggregation)])
        requires
            secs(old(self).interval) * 2 <= u64::MAX,
        ensures
            final(self).skip@ == old(self).skip@ + computed@.map_values(|c: (MetricId, Aggregation)| c.1 != Aggregation::Raw),
            texts(final(self).ds@) == texts(old(self).ds@) + raw_definitions(computed@, secs(old(self).interval) * 2),
            texts(final(self).variables@) == texts(old(self).variables@) + raw_names(computed@),
            final(self).interval == old(self).interval,
            final(self).rows == old(self).rows,
            final(self).period == old(self).period,
            final(self).infos@ == old(self).infos@,
            final(self).color_bucket@ == old(self).color_bucket@,
            final(self).graph == old(self).graph,
    {
        let heart_beat = crate::export::rrdtool::interval_secs(self.interval) * 2;
        let ghost hb = secs(old(self).interval) * 2;
        let mut i: usize = 0;
        while i < computed.len()
            invariant
                i <= computed.len(),
                heart_beat == hb,
                self.skip@ == old(self).skip@ + computed@.take(i as int).map_values(|c: (MetricId, Aggregation)| c.1 != Aggregation::Raw),
                texts(self.ds@) == texts(old(self).ds@) + raw_definitions(computed@.take(i as int), hb),
                texts(self.variables@) == texts(old(self).variables@) + raw_names(computed@.take(i as int)),
                self.interval == old(self).interval,
                self.rows == old(self).rows,
                self.period == old(self).period,
                self.infos@ == old(self).infos@,
                self.color_bucket@ == old(self).color_bucket@,
                self.graph == old(self).graph,
            decreases computed.len() - i,
        {
            let (id, agg) = computed[i];
            let ghost before_ds = texts(self.ds@);
            let ghost before_vars = texts(self.variables@);
            proof {
                assert(computed@.take(i + 1).drop_last() =~= computed@.take(i as int));
                assert(computed@.take(i + 1).last() == (id, agg));
            }
            if agg == Aggregation::Raw {
                self.skip.push(false);
                let d = ds_definition(id, heart_beat);
                self.ds.push(d);
                let v = data_source_name(id);
                self.variables.push(v);
                proof {
                    assert(texts(self.ds@) =~= before_ds.push(spec_ds_definition(id, hb)));
                    assert(texts(self.variables@) =~= before_vars.push(ds_name(id)));
                }
            } else {
                self.skip.push(true);
            }
            proof {
                assert(computed@.take(i + 1).map_values(|c: (MetricId, Aggregation)| c.1 != Aggregation::Raw)
                    =~= computed@.take(i as int).map_values(|c: (MetricId, Aggregation)| c.1 != Aggregation::Raw).push(agg != Aggregation::Raw));
                assert(self.skip@ =~= old(self).skip@ + computed@.take(i + 1).map_values(|c: (MetricId, Aggregation)| c.1 != Aggregation::Raw));
                assert(texts(self.ds@) =~= texts(old(self).ds@) + raw_definitions(computed@.take(i + 1), hb));
                assert(texts(self.variables@) =~= texts(old(self).variables@) + raw_names(computed@.take(i + 1)));
            }
            i = i + 1;
        }
        assert(computed@.take(computed.len() as int) =~= computed@);
    }
}


/// A command for rrdtool.
pub enum RrdCommand {
    Create(String),
    Update(String),
    Graph(String),
}

/// What a command for rrdtool is made of.
pub enum CmdView {
    Create(Seq<char>),
    Update(Seq<char>),
    Graph(Seq<char>),
}

pub open spec fn cmd_view(c: RrdCommand) -> CmdView {
    match c {
        RrdCommand::Create(s) => CmdView::Create(s@),
        RrdCommand::Update(s) => CmdView::Update(s@),
        RrdCommand::Graph(s) => CmdView::Graph(s@),
    }
}

pub open spec fn cmd_views(v: Seq<RrdCommand>) -> Seq<CmdView> {
    v.map_values(|c: RrdCommand| cmd_view(c))
}

/// What is exported of a process.
pub struct InfoView {
    pub pid: i32,
    pub name: Seq<char>,
    pub db: Seq<char>,
    pub color: u32,
}

pub open spec fn info_view(i: ExportInfo) -> InfoView {
    InfoView { pid: i.pid, name: i.name@, db: i.db@, color: i.color }
}

pub open spec fn info_views(v: Seq<ExportInfo>) -> Seq<InfoView> {
    v.map_values(|i: ExportInfo| info_view(i))
}

/// Whether each process is exported once.
pub open spec fn distinct_pids(infos: Seq<InfoView>) -> bool {
    forall|i: int, j: int| 0 <= i < j < infos.len() ==> infos[i].pid != infos[j].pid
}

/// Whether a process is exported.
pub open spec fn has_info(infos: Seq<InfoView>, pid: i32) -> bool {
    exists|i: int| 0 <= i < infos.len() && infos[i].pid == pid
}

/// What is exported of a process that is exported.
pub open spec fn info_of(infos: Seq<InfoView>, pid: i32) -> InfoView {
    infos[choose|i: int| 0 <= i < infos.len() && infos[i].pid == pid]
}

/// Exported processes with one more process, which replaces a previous one
/// with the same identifier.
pub open spec fn set_info(infos: Seq<InfoView>, x: InfoView) -> Seq<InfoView> {
    if has_info(infos, x.pid) {
        infos.update(choose|i: int| 0 <= i < infos.len() && infos[i].pid == x.pid, x)
    } else {
        infos.push(x)
    }
}

/// The first value of each sample that is not skipped, among the first `n`.
pub open spec fn kept_values(samples: Seq<Sample>, skip: Seq<bool>, n: nat) -> Seq<u64>
    decreases n,
{
    if n == 0 {
        Seq::empty()
    } else {
        let rest = kept_values(samples, skip, (n - 1) as nat);
        if !skip[n - 1] { rest.push(samples[n - 1].values@[0]) } else { rest }
    }
}

/// The values of a process exported to its database.
pub open spec fn line_values(samples: Seq<Sample>, skip: Seq<bool>) -> Seq<u64> {
    kept_values(samples, skip, if samples.len() < skip.len() { samples.len() } else { skip.len() })
}

/// Whether the samples that are exported have a value.
pub open spec fn exportable(samples: Seq<Sample>, skip: Seq<bool>) -> bool {
    forall|i: int| 0 <= i < samples.len() && i < skip.len() && !skip[i] ==> #[trigger] samples[i].values@.len() > 0
}

/// Whole seconds of a number of nanoseconds.
pub open spec fn nanos_secs(n: int) -> nat {
    (n / 1_000_000_000) as nat
}

/// What does not change during an export.
pub struct Setup {
    pub ds: Seq<Seq<char>>,
    pub skip: Seq<bool>,
    pub interval: Duration,
    pub rows: nat,
    pub graph: bool,
    pub ts: Duration,
}

/// State of an export.
pub struct Walk {
    pub infos: Seq<InfoView>,
    pub bucket: Seq<u32>,
    /// Processes exported before that are not seen yet.
    pub remaining: Seq<i32>,
    /// Processes drawn in the graphs, one per line.
    pub graphed: Seq<InfoView>,
    pub cmds: Seq<CmdView>,
    pub error: Option<Error>,
}

/// A list without its first occurrence of a value.
pub open spec fn without(s: Seq<i32>, x: i32) -> Seq<i32> {
    s.remove(s.index_of(x))
}

/// Update the database of a process that is exported.
pub open spec fn emit(w: Walk, line: ProcessSamples, p: Setup) -> Walk {
    let info = info_of(w.infos, line.pid);
    Walk {
        graphed: if p.graph { w.graphed.push(info) } else { w.graphed },
        cmds: w.cmds.push(CmdView::Update(spec_update_command(info.db, line_values(line.samples@, p.skip), secs(p.ts)))),
        ..w
    }
}

/// Export the values of a process: its database is created the first time.
pub open spec fn export_step(w: Walk, line: ProcessSamples, p: Setup) -> Walk {
    if w.error is Some || line.pid == 0 {
        w
    } else if w.remaining.contains(line.pid) {
        emit(Walk { remaining: without(w.remaining, line.pid), ..w }, line, p)
    } else if duration_nanos(p.ts) < duration_nanos(p.interval) {
        Walk { error: Some(Error::IntervalTooLarge), ..w }
    } else {
        let db = spec_db_name(line.pid, line.name@);
        let create = CmdView::Create(spec_create_command(db, p.ds,
            nanos_secs(duration_nanos(p.ts) - duration_nanos(p.interval)), secs(p.interval), p.rows));
        if p.graph && w.bucket.len() == 0 {
            Walk { cmds: w.cmds.push(create), error: Some(Error::NoMoreColors), ..w }
        } else {
            let color = if p.graph { w.bucket.last() } else { 0u32 };
            let bucket = if p.graph { w.bucket.drop_last() } else { w.bucket };
            let info = InfoView { pid: line.pid, name: line.name@, db, color };
            emit(Walk { infos: set_info(w.infos, info), bucket, cmds: w.cmds.push(create), ..w }, line, p)
        }
    }
}

/// Export the values of processes in order.
pub open spec fn export_lines(w: Walk, lines: Seq<ProcessSamples>, p: Setup) -> Walk
    decreases lines.len(),
{
    if lines.len() == 0 {
        w
    } else {
        export_step(export_lines(w, lines.drop_last(), p), lines.last(), p)
    }
}

/// Definitions of the lines of the processes in the graph of a data source.
pub open spec fn graph_defs(graphed: Seq<InfoView>, ds: Seq<char>) -> Seq<Seq<char>> {
    Seq::new(graphed.len(), |k: int| spec_graph_def(k as nat, graphed[k].db, ds, graphed[k].color, graphed[k].name))
}

/// The graphs of the data sources.
pub open spec fn graph_commands(graphed: Seq<InfoView>, variables: Seq<Seq<char>>, start: nat, end: nat) -> Seq<CmdView> {
    variables.map_values(|v: Seq<char>| CmdView::Graph(spec_graph_command(v + ".png"@, start, end,
        graph_defs(graphed, v), Some(ds_title(v)))))
}

/// The end of an export: the graphs are drawn, then the processes that were
/// not seen are forgotten and their colors can be used again.
pub open spec fn finish(w: Walk, p: Setup, variables: Seq<Seq<char>>, period: Duration) -> Walk {
    if w.error is Some {
        w
    } else if p.graph && duration_nanos(p.ts) < duration_nanos(period) {
        Walk { error: Some(Error::PeriodTooLarge), ..w }
    } else {
        let graphs = if p.graph {
            graph_commands(w.graphed, variables, nanos_secs(duration_nanos(p.ts) - duration_nanos(period)), secs(p.ts))
        } else {
            Seq::empty()
        };
        Walk {
            infos: w.infos.filter(|i: InfoView| !w.remaining.contains(i.pid)),
            bucket: w.bucket + w.remaining.map_values(|pid: i32| info_of(w.infos, pid).color),
            remaining: Seq::empty(),
            cmds: w.cmds + graphs,
            ..w
        }
    }
}

impl RrdExporter {
    /// Each process is exported once.
    pub open spec fn wf(&self) -> bool {
        distinct_pids(info_views(self.infos@))
    }

    /// What does not change during an export at a time.
    pub open spec fn setup(&self, ts: Duration) -> Setup {
        Setup {
            ds: texts(self.ds@),
            skip: self.skip@,
            interval: self.interval,
            rows: self.rows as nat,
            graph: self.graph,
            ts,
        }
    }

    /// The state when an export starts.
    pub open spec fn start(&self) -> Walk {
        Walk {
            infos: info_views(self.infos@),
            bucket: self.color_bucket@,
            remaining: info_views(self.infos@).map_values(|i: InfoView| i.pid),
            graphed: Seq::empty(),
            cmds: Seq::empty(),
            error: None,
        }
    }
}


/// Whether the values of a list are distinct.
pub open spec fn distinct(s: Seq<i32>) -> bool {
    forall|i: int, j: int| 0 <= i < j < s.len() ==> s[i] != s[j]
}

/// Index of a value in a list.
fn index_in(v: &Vec<i32>, x: i32) -> (r: Option<usize>)
    ensures
        match r {
            Some(k) => k < v.len() && v@[k as int] == x,
            None => !v@.contains(x),
        },
{
    let mut k: usize = 0;
    while k < v.len()
        invariant
            k <= v.len(),
            forall|j: int| 0 <= j < k ==> v@[j] != x,
        decreases v.len() - k,
    {
        if v[k] == x {
            return Some(k);
        }
        k = k + 1;
    }
    None
}

fn copy_info(i: &ExportInfo) -> (r: ExportInfo)
    ensures
        info_view(r) == info_view(*i),
{
    ExportInfo { pid: i.pid, name: i.name.clone(), db: i.db.clone(), color: i.color }
}

/// Index of a process among the exported ones.
fn info_index(infos: &Vec<ExportInfo>, pid: i32) -> (r: Option<usize>)
    requires
        distinct_pids(info_views(infos@)),
    ensures
        match r {
            Some(k) => k < infos.len() && infos@[k as int].pid == pid && info_of(info_views(infos@), pid) == info_view(infos@[k as int]),
            None => !has_info(info_views(infos@), pid),
        },
{
    let ghost iv = info_views(infos@);
    let mut k: usize = 0;
    while k < infos.len()
        invariant
            k <= infos.len(),
            iv == info_views(infos@),
            distinct_pids(iv),
            forall|j: int| 0 <= j < k ==> infos@[j].pid != pid,
        decreases infos.len() - k,
    {
        if infos[k].pid == pid {
            proof {
                assert(iv[k as int].pid == pid);
                let c = choose|i: int| 0 <= i < iv.len() && iv[i].pid == pid;
                if c != k as int {
                    if c < k { assert(iv[c].pid != iv[k as int].pid); } else { assert(iv[k as int].pid != iv[c].pid); }
                }
            }
            return Some(k);
        }
        k = k + 1;
    }
    proof {
        if has_info(iv, pid) {
            let c = choose|i: int| 0 <= i < iv.len() && iv[i].pid == pid;
            assert(infos@[c].pid == pid);
        }
    }
    None
}

/// The values of a process exported to its database.
fn values_of(samples: &Vec<Sample>, skip: &Vec<bool>) -> (r: Vec<u64>)
    requires
        exportable(samples@, skip@),
    ensures
        r@ == line_values(samples@, skip@),
{
    let n = if samples.len() < skip.len() { samples.len() } else { skip.len() };
    let mut r: Vec<u64> = Vec::new();
    let mut i: usize = 0;
    while i < n
        invariant
            i <= n,
            n <= samples.len(),
            n <= skip.len(),
            exportable(samples@, skip@),
            r@ == kept_values(samples@, skip@, i as nat),
        decreases n - i,
    {
        if !skip[i] {
            assert(samples@[i as int].values@.len() > 0);
            r.push(samples[i].values[0]);
        }
        i = i + 1;
    }
    r
}

impl RrdExporter {
    /// Replace or add what is exported of a process.
    fn set_info(&mut self, x: ExportInfo)
        requires
            old(self).wf(),
        ensures
            final(self).wf(),
            info_views(final(self).infos@) == set_info(info_views(old(self).infos@), info_view(x)),
            final(self).color_bucket@ == old(self).color_bucket@,
            final(self).interval == old(self).interval,
            final(self).rows == old(self).rows,
            final(self).period == old(self).period,
            final(self).ds@ == old(self).ds@,
            final(self).skip@ == old(self).skip@,
            final(self).variables@ == old(self).variables@,
            final(self).graph == old(self).graph,
    {
        let ghost iv = info_views(self.infos@);
        let ghost xv = info_view(x);
        match info_index(&self.infos, x.pid) {
            Some(k) => {
                proof {
                    assert(iv[k as int] == info_view(self.infos@[k as int]));
                    assert(iv[k as int].pid == xv.pid);
                    let c = choose|i: int| 0 <= i < iv.len() && iv[i].pid == xv.pid;
                    if c != k as int {
                        if c < k { assert(iv[c].pid != iv[k as int].pid); } else { assert(iv[k as int].pid != iv[c].pid); }
                    }
                }
                self.infos.set(k, x);
                assert(info_views(self.infos@) =~= iv.update(k as int, xv));
            },
            None => {
                self.infos.push(x);
                assert(info_views(self.infos@) =~= iv.push(xv));
            },
        }
    }

    /// Export the values of the processes at a given time: returns the
    /// commands to send to rrdtool in order, and the error that stopped the
    /// export if any. The database of a process is created the first time it
    /// is seen; the processes that are no longer seen are forgotten.
    pub fn export(&mut self, lines: &[ProcessSamples], timestamp: Duration) -> (r: (Vec<RrdCommand>, Result<(), Error>))
        requires
            old(self).wf(),
            forall|i: int| 0 <= i < lines@.len() ==> exportable(#[trigger] lines@[i].samples@, old(self).skip@),
        ensures
            ({
                let w = finish(export_lines(old(self).start(), lines@, old(self).setup(timestamp)),
                    old(self).setup(timestamp), texts(old(self).variables@), old(self).period);
                &&& cmd_views(r.0@) == w.cmds
                &&& r.1 == (match w.error { Some(e) => Err::<(), Error>(e), None => Ok::<(), Error>(()) })
                &&& info_views(final(self).infos@) == w.infos
                &&& final(self).color_bucket@ == w.bucket
            }),
            final(self).wf(),
            final(self).interval == old(self).interval,
            final(self).rows == old(self).rows,
            final(self).period == old(self).period,
            final(self).ds@ == old(self).ds@,
            final(self).skip@ == old(self).skip@,
            final(self).variables@ == old(self).variables@,
            final(self).graph == old(self).graph,
    {
        let ghost p = self.setup(timestamp);
        let ghost w0 = self.start();
        let ghost old_self_variables = texts(self.variables@);
        let mut remaining: Vec<i32> = Vec::new();
        let mut k: usize = 0;
        while k < self.infos.len()
            invariant
                k <= self.infos.len(),
                self.wf(),
                remaining@ == info_views(self.infos@).map_values(|i: InfoView| i.pid).take(k as int),
            decreases self.infos.len() - k,
        {
            remaining.push(self.infos[k].pid);
            assert(info_views(self.infos@).map_values(|i: InfoView| i.pid).take(k + 1)
                =~= info_views(self.infos@).map_values(|i: InfoView| i.pid).take(k as int).push(self.infos@[k as int].pid));
            k = k + 1;
        }
        assert(info_views(self.infos@).map_values(|i: InfoView| i.pid).take(self.infos.len() as int)
            =~= info_views(self.infos@).map_values(|i: InfoView| i.pid));
        let mut graphed: Vec<ExportInfo> = Vec::new();
        let mut cmds: Vec<RrdCommand> = Vec::new();
        let mut i: usize = 0;
        while i < lines.len()
            invariant
                i <= lines.len(),
                p == old(self).setup(timestamp),
                w0 == old(self).start(),
                self.wf(),
                self.interval == old(self).interval,
                self.rows == old(self).rows,
                self.period == old(self).period,
                self.ds@ == old(self).ds@,
                self.skip@ == old(self).skip@,
                self.variables@ == old(self).variables@,
                self.graph == old(self).graph,
                forall|j: int| 0 <= j < lines@.len() ==> exportable(#[trigger] lines@[j].samples@, old(self).skip@),
                distinct(remaining@),
                forall|j: int| 0 <= j < remaining@.len() ==> has_info(info_views(self.infos@), #[trigger] remaining@[j]),
                ({
                    let w = export_lines(w0, lines@.take(i as int), p);
                    &&& w.error is None
                    &&& w.infos == info_views(self.infos@)
                    &&& w.bucket == self.color_bucket@
                    &&& w.remaining == remaining@
                    &&& w.graphed == info_views(graphed@)
                    &&& w.cmds == cmd_views(cmds@)
                }),
            decreases lines.len() - i,
        {
            let line = &lines[i];
            let ghost w = export_lines(w0, lines@.take(i as int), p);
            proof {
                assert(lines@.take(i + 1).drop_last() =~= lines@.take(i as int));
                assert(lines@.take(i + 1).last() == *line);
            }
            if line.pid != 0 {
                let ghost cmds_before = cmd_views(cmds@);
                let ghost mut w1: Walk = w;
                proof {
                    if remaining@.contains(line.pid) {
                        let c = choose|j: int| 0 <= j < remaining@.len() && remaining@[j] == line.pid;
                        assert(has_info(info_views(self.infos@), remaining@[c]));
                    }
                }
                match index_in(&remaining, line.pid) {
                    Some(k) => {
                        proof {
                            let c = remaining@.index_of(line.pid);
                            assert(remaining@.contains(line.pid));
                            if c != k as int {
                                if c < k { assert(remaining@[c] != remaining@[k as int]); } else { assert(remaining@[k as int] != remaining@[c]); }
                            }
                        }
                        remaining.remove(k);
                        proof {
                            assert(remaining@ =~= without(w.remaining, line.pid));
                            w1 = Walk { remaining: without(w.remaining, line.pid), ..w };
                            assert forall|j: int| 0 <= j < remaining@.len() implies has_info(info_views(self.infos@), #[trigger] remaining@[j]) by {
                                if j < k { assert(remaining@[j] == w.remaining[j]); } else { assert(remaining@[j] == w.remaining[j + 1]); }
                            }
                            assert forall|a: int, b: int| 0 <= a < b < remaining@.len() implies remaining@[a] != remaining@[b] by {
                                let a2 = if a < k { a } else { a + 1 };
                                let b2 = if b < k { b } else { b + 1 };
                                assert(remaining@[a] == w.remaining[a2]);
                                assert(remaining@[b] == w.remaining[b2]);
                            }
                        }
                    },
                    None => {
                        let start = match duration_checked_sub(timestamp, self.interval) {
                            Some(s) => s,
                            None => {
                                proof {
                                    lemma_stopped(w0, lines@, p, i as int + 1);
                                }
                                return (cmds, Err(Error::IntervalTooLarge));
                            },
                        };
                        let db = db_name(line.pid, line.name.as_str());
                        let create = create_command(db.as_str(), self.ds.as_slice(), start, self.interval, self.rows);
                        let ghost create_view = CmdView::Create(create@);
                        cmds.push(RrdCommand::Create(create));
                        proof {
                            assert(cmd_views(cmds@) =~= cmds_before.push(create_view));
                        }
                        let color = if self.graph {
                            match self.color_bucket.pop() {
                                Some(c) => c,
                                None => {
                                    proof {
                                        lemma_stopped(w0, lines@, p, i as int + 1);
                                    }
                                    return (cmds, Err(Error::NoMoreColors));
                                },
                            }
                        } else {
                            0
                        };
                        let ghost xv = InfoView { pid: line.pid, name: line.name@, db: db@, color };
                        proof {
                            lemma_set_info_has(w.infos, xv);
                        }
                        self.set_info(ExportInfo { pid: line.pid, name: line.name.clone(), db, color });
                        proof {
                            w1 = Walk { infos: set_info(w.infos, xv), bucket: self.color_bucket@, cmds: cmd_views(cmds@), ..w };
                        }
                    },
                }
                let found = info_index(&self.infos, line.pid);
                match found {
                    Some(k) => {
                        let ghost gbefore = info_views(graphed@);
                        if self.graph {
                            graphed.push(copy_info(&self.infos[k]));
                            proof {
                                assert(info_views(graphed@) =~= gbefore.push(info_view(self.infos@[k as int])));
                            }
                        }
                        let values = values_of(&line.samples, &self.skip);
                        let update = update_command(self.infos[k].db.as_str(), values.as_slice(), timestamp);
                        let ghost cbefore = cmd_views(cmds@);
                        let ghost update_view = CmdView::Update(update@);
                        cmds.push(RrdCommand::Update(update));
                        proof {
                            assert(cmd_views(cmds@) =~= cbefore.push(update_view));
                            assert(export_step(w, *line, p) == emit(w1, *line, p));
                        }
                    },
                    None => {},
                }
            }
            i = i + 1;
        }
        proof {
            assert(lines@.take(lines.len() as int) =~= lines@);
        }
        let ghost w = export_lines(w0, lines@, p);
        let ghost vars = texts(self.variables@);
        if self.graph {
            let start = match duration_checked_sub(timestamp, self.period) {
                Some(s) => s,
                None => return (cmds, Err(Error::PeriodTooLarge)),
            };
            let ghost start_secs = nanos_secs(duration_nanos(p.ts) - duration_nanos(old(self).period));
            assert(secs(start) == start_secs);
            let mut vi: usize = 0;
            while vi < self.variables.len()
                invariant
                    vi <= self.variables.len(),
                    self.interval == old(self).interval,
                    self.rows == old(self).rows,
                    self.period == old(self).period,
                    self.ds@ == old(self).ds@,
                    self.skip@ == old(self).skip@,
                    self.variables@ == old(self).variables@,
                    self.graph == old(self).graph,
                    self.wf(),
                    w.infos == info_views(self.infos@),
                    w.bucket == self.color_bucket@,
                    w.remaining == remaining@,
                    forall|j: int| 0 <= j < remaining@.len() ==> has_info(info_views(self.infos@), #[trigger] remaining@[j]),
                    w == export_lines(w0, lines@, p),
                    p == old(self).setup(timestamp),
                    w.error is None,
                    vars == texts(self.variables@),
                    w.graphed == info_views(graphed@),
                    secs(start) == start_secs,
                    p.ts == timestamp,
                    cmd_views(cmds@) == w.cmds + graph_commands(w.graphed, vars.take(vi as int), start_secs, secs(p.ts)),
                decreases self.variables.len() - vi,
            {
                let v = &self.variables[vi];
                let mut defs: Vec<String> = Vec::new();
                let mut k: usize = 0;
                while k < graphed.len()
                    invariant
                        k <= graphed.len(),
                        vi < self.variables.len(),
                        v == &self.variables[vi as int],
                        w.graphed == info_views(graphed@),
                        texts(defs@) == graph_defs(w.graphed, v@).take(k as int),
                    decreases graphed.len() - k,
                {
                    let d = graph_def(k, graphed[k].db.as_str(), v.as_str(), graphed[k].color, graphed[k].name.as_str());
                    assert(w.graphed[k as int] == info_view(graphed@[k as int]));
                    let ghost dbefore = texts(defs@);
                    let ghost dv = d@;
                    defs.push(d);
                    assert(texts(defs@) =~= dbefore.push(dv));
                    assert(graph_defs(w.graphed, v@)[k as int] == dv);
                    assert(texts(defs@) =~= graph_defs(w.graphed, v@).take(k + 1));
                    k = k + 1;
                }
                assert(graph_defs(w.graphed, v@).take(graphed.len() as int) =~= graph_defs(w.graphed, v@));
                let mut filename = v.clone();
                push_str(&mut filename, ".png");
                let title = graph_title(v.as_str());
                let g = graph_command(filename.as_str(), start, timestamp, defs.as_slice(), Some(title.as_str()));
                let ghost before = cmd_views(cmds@);
                cmds.push(RrdCommand::Graph(g));
                proof {
                    assert(vars.take(vi + 1) =~= vars.take(vi as int).push(vars[vi as int]));
                    assert(vars[vi as int] == v@);
                    assert(graph_commands(w.graphed, vars.take(vi + 1), start_secs, secs(p.ts))
                        =~= graph_commands(w.graphed, vars.take(vi as int), start_secs, secs(p.ts)).push(
                            CmdView::Graph(spec_graph_command(v@ + ".png"@, start_secs, secs(p.ts), graph_defs(w.graphed, v@), Some(ds_title(v@))))));
                    assert(cmd_views(cmds@) =~= before.push(CmdView::Graph(g@)));
                }
                vi = vi + 1;
            }
            assert(vars.take(self.variables.len() as int) =~= vars);
        } else {
            assert(cmd_views(cmds@) =~= w.cmds + Seq::<CmdView>::empty());
        }
        let mut ri: usize = 0;
        while ri < remaining.len()
            invariant
                ri <= remaining.len(),
                self.interval == old(self).interval,
                self.rows == old(self).rows,
                self.period == old(self).period,
                self.ds@ == old(self).ds@,
                self.skip@ == old(self).skip@,
                self.variables@ == old(self).variables@,
                self.graph == old(self).graph,
                self.wf(),
                w.infos == info_views(self.infos@),
                w.remaining == remaining@,
                forall|j: int| 0 <= j < remaining@.len() ==> has_info(info_views(self.infos@), #[trigger] remaining@[j]),
                w == export_lines(w0, lines@, p),
                p == old(self).setup(timestamp),
                w.error is None,

                self.color_bucket@ == w.bucket + w.remaining.take(ri as int).map_values(|pid: i32| info_of(w.infos, pid).color),
            decreases remaining.len() - ri,
        {
            let ghost pid = remaining@[ri as int];
            assert(has_info(info_views(self.infos@), pid));
            match info_index(&self.infos, remaining[ri]) {
                Some(k) => {
                    let c = self.infos[k].color;
                    self.color_bucket.push(c);
                },
                None => {},
            }
            assert(w.remaining.take(ri + 1).map_values(|pid: i32| info_of(w.infos, pid).color)
                =~= w.remaining.take(ri as int).map_values(|pid: i32| info_of(w.infos, pid).color).push(info_of(w.infos, pid).color));
            ri = ri + 1;
        }
        assert(w.remaining.take(remaining.len() as int) =~= w.remaining);
        let ghost pred = |i: InfoView| !w.remaining.contains(i.pid);
        let mut kept: Vec<ExportInfo> = Vec::new();
        let mut j: usize = 0;
        while j < self.infos.len()
            invariant
                j <= self.infos.len(),
                self.interval == old(self).interval,
                self.rows == old(self).rows,
                self.period == old(self).period,
                self.ds@ == old(self).ds@,
                self.skip@ == old(self).skip@,
                self.variables@ == old(self).variables@,
                self.graph == old(self).graph,
                self.wf(),
                w.infos == info_views(self.infos@),
                w.remaining == remaining@,
                w == export_lines(w0, lines@, p),
                p == old(self).setup(timestamp),
                w.error is None,
                self.color_bucket@ == w.bucket + w.remaining.map_values(|pid: i32| info_of(w.infos, pid).color),
                pred == (|i: InfoView| !w.remaining.contains(i.pid)),
                info_views(kept@) == w.infos.take(j as int).filter(pred),
                forall|a: int| 0 <= a < kept@.len() ==> exists|b: int| 0 <= b < j && #[trigger] kept@[a].pid == self.infos@[b].pid,
                distinct_pids(info_views(kept@)),
            decreases self.infos.len() - j,
        {
            let ghost before = info_views(kept@);
            proof {
                reveal(Seq::filter);
                assert(w.infos.take(j + 1).drop_last() =~= w.infos.take(j as int));
                assert(w.infos.take(j + 1).last() == info_view(self.infos@[j as int]));
            }
            match index_in(&remaining, self.infos[j].pid) {
                Some(_) => {},
                None => {
                    let x = copy_info(&self.infos[j]);
                    kept.push(x);
                    proof {
                        assert(info_views(kept@) =~= before.push(info_view(self.infos@[j as int])));
                        assert forall|a: int| 0 <= a < kept@.len() implies exists|b: int| 0 <= b < j + 1 && #[trigger] kept@[a].pid == self.infos@[b].pid by {
                            if a < kept@.len() - 1 {
                                let b = choose|b: int| 0 <= b < j && #[trigger] kept@[a].pid == self.infos@[b].pid;
                                assert(kept@[a].pid == self.infos@[b].pid);
                            } else {
                                assert(kept@[a].pid == self.infos@[j as int].pid);
                            }
                        }
                        assert forall|a: int, c: int| 0 <= a < c < info_views(kept@).len() implies info_views(kept@)[a].pid != info_views(kept@)[c].pid by {
                            if c == kept@.len() - 1 {
                                let b = choose|b: int| 0 <= b < j && #[trigger] kept@[a].pid == self.infos@[b].pid;
                                assert(info_views(self.infos@)[b].pid != info_views(self.infos@)[j as int].pid);
                            } else {
                                assert(before[a].pid != before[c].pid);
                            }
                        }
                    }
                },
            }
            j = j + 1;
        }
        proof {
            assert(w.infos.take(self.infos.len() as int) =~= w.infos);
        }
        self.infos = kept;
        (cmds, Ok(()))
    }
}


/// Once an export has failed, the following processes change nothing.
proof fn lemma_stopped(w0: Walk, lines: Seq<ProcessSamples>, p: Setup, n: int)
    requires
        0 <= n <= lines.len(),
        export_lines(w0, lines.take(n), p).error is Some,
    ensures
        export_lines(w0, lines, p) == export_lines(w0, lines.take(n), p),
    decreases lines.len() - n,
{
    if n < lines.len() {
        assert(lines.take(n + 1).drop_last() =~= lines.take(n));
        lemma_stopped(w0, lines, p, n + 1);
    } else {
        assert(lines.take(n) =~= lines);
    }
}


/// Adding what is exported of a process keeps the processes exported before,
/// keeps them distinct, and makes it exported.
proof fn lemma_set_info_has(infos: Seq<InfoView>, x: InfoView)
    requires
        distinct_pids(infos),
    ensures
        forall|q: i32| has_info(infos, q) ==> #[trigger] has_info(set_info(infos, x), q),
        has_info(set_info(infos, x), x.pid),
        distinct_pids(set_info(infos, x)),
{
    let t = set_info(infos, x);
    if has_info(infos, x.pid) {
        let c = choose|i: int| 0 <= i < infos.len() && infos[i].pid == x.pid;
        assert(t[c].pid == x.pid);
        assert forall|q: i32| has_info(infos, q) implies #[trigger] has_info(t, q) by {
            let i = choose|i: int| 0 <= i < infos.len() && infos[i].pid == q;
            assert(t[i].pid == q);
        }
        assert forall|a: int, b: int| 0 <= a < b < t.len() implies t[a].pid != t[b].pid by {
            if a == c { assert(infos[c].pid != infos[b].pid); }
            else if b == c { assert(infos[a].pid != infos[c].pid); }
        }
    } else {
        assert(t[infos.len() as int].pid == x.pid);
        assert forall|q: i32| has_info(infos, q) implies #[trigger] has_info(t, q) by {
            let i = choose|i: int| 0 <= i < infos.len() && infos[i].pid == q;
            assert(t[i].pid == q);
        }
        assert forall|a: int, b: int| 0 <= a < b < t.len() implies t[a].pid != t[b].pid by {
            if b == infos.len() {
                assert(infos[a].pid != x.pid);
            }
        }
    }
}

} // verus!
