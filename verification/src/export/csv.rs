//! Export as comma or tab separated values: the text of each line, the
//! header of the files and how old files are shifted.

use vstd::prelude::*;
use vstd::utf8::encode_utf8;
use crate::agg::Aggregation;
use crate::cfg::{ExportSettings, ExportType};
use crate::metrics::{computed_metrics, metric_name, metric_views, spec_computed_metrics, FormattedMetric, MetricId};
use crate::strings::{decimal, push_char, push_decimal, push_str, to_string};

verus! {

/// Errors of the CSV export.
#[derive(Clone, Copy, Debug, PartialEq, Eq, Structural)]
pub enum Error {
    MissingCount,
}

/// `memchr::memchr`: the position of the first occurrence of a byte in a
/// slice, `None` if it does not occur.
#[verifier::external_body]
fn memchr(needle: u8, haystack: &[u8]) -> (r: Option<usize>)
    ensures
        match r {
            Some(i) => i < haystack@.len() && haystack@[i as int] == needle
                && forall|j: int| 0 <= j < i ==> haystack@[j] != needle,
            None => forall|j: int| 0 <= j < haystack@.len() ==> haystack@[j] != needle,
        },
{
    memchr::memchr(needle, haystack)
}

/// The byte a separator is searched as: the low byte of its code.
pub open spec fn separator_byte(separator: char) -> u8 {
    (separator as u32 % 256) as u8
}

/// A value as written in a line: quoted when its bytes hold the separator.
pub open spec fn csv_value(separator: char, value: Seq<char>) -> Seq<char> {
    if encode_utf8(value).contains(separator_byte(separator)) {
        seq!['"'] + value + seq!['"']
    } else {
        value
    }
}

/// Values each preceded by the separator.
pub open spec fn csv_rest(separator: char, values: Seq<Seq<char>>) -> Seq<char>
    decreases values.len(),
{
    if values.len() == 0 {
        Seq::empty()
    } else {
        csv_rest(separator, values.drop_last()) + seq![separator] + csv_value(separator, values.last())
    }
}

/// A whole line: the values separated by the separator, then a new line;
/// nothing at all for no value.
pub open spec fn csv_line(separator: char, values: Seq<Seq<char>>) -> Seq<char> {
    if values.len() == 0 {
        Seq::empty()
    } else {
        csv_value(separator, values[0]) + csv_rest(separator, values.drop_first()) + seq!['\n']
    }
}

/// Append a value, quoted if it holds the separator. Values are assumed
/// not to hold quotes.
pub fn write_value(out: &mut String, separator: char, value: &str)
    ensures
        final(out)@ == old(out)@ + csv_value(separator, value@),
{
    let byte = (separator as u32 % 256) as u8;
    match memchr(byte, value.as_bytes()) {
        None => {
            push_str(out, value);
            assert(!encode_utf8(value@).contains(separator_byte(separator)));
        },
        Some(i) => {
            push_char(out, '"');
            push_str(out, value);
            push_char(out, '"');
            assert(encode_utf8(value@)[i as int] == separator_byte(separator));
        },
    }
    assert(final(out)@ =~= old(out)@ + csv_value(separator, value@));
}

/// Texts of a list of strings.
pub open spec fn texts(v: Seq<String>) -> Seq<Seq<char>> {
    v.map_values(|s: String| s@)
}

/// Decimal texts of numbers.
pub open spec fn decimals(v: Seq<u64>) -> Seq<Seq<char>> {
    v.map_values(|n: u64| decimal(n as nat))
}

/// Append the rest of a line: each value preceded by the separator, then
/// a new line.
pub fn write_line_rest(out: &mut String, separator: char, values: &[String])
    ensures
        final(out)@ == old(out)@ + csv_rest(separator, texts(values@)) + seq!['\n'],
{
    let mut i: usize = 0;
    assert(texts(values@).take(0) =~= Seq::<Seq<char>>::empty());
    assert(old(out)@ + Seq::<char>::empty() =~= old(out)@);
    while i < values.len()
        invariant
            0 <= i <= values.len(),
            out@ == old(out)@ + csv_rest(separator, texts(values@).take(i as int)),
        decreases values.len() - i,
    {
        push_char(out, separator);
        write_value(out, separator, values[i].as_str());
        assert(texts(values@).take(i + 1).drop_last() =~= texts(values@).take(i as int));
        assert(out@ =~= old(out)@ + csv_rest(separator, texts(values@).take(i + 1)));
        i = i + 1;
    }
    assert(texts(values@).take(values.len() as int) =~= texts(values@));
    push_char(out, '\n');
}

/// Append the rest of a line of numbers.
pub fn write_numbers_rest(out: &mut String, separator: char, values: &[u64])
    ensures
        final(out)@ == old(out)@ + csv_rest(separator, decimals(values@)) + seq!['\n'],
{
    let mut i: usize = 0;
    assert(decimals(values@).take(0) =~= Seq::<Seq<char>>::empty());
    assert(old(out)@ + Seq::<char>::empty() =~= old(out)@);
    while i < values.len()
        invariant
            0 <= i <= values.len(),
            out@ == old(out)@ + csv_rest(separator, decimals(values@).take(i as int)),
        decreases values.len() - i,
    {
        push_char(out, separator);
        let mut text = String::new();
        push_decimal(&mut text, values[i]);
        assert(text@ =~= decimal(values@[i as int] as nat));
        write_value(out, separator, text.as_str());
        assert(decimals(values@).take(i + 1).drop_last() =~= decimals(values@).take(i as int));
        assert(out@ =~= old(out)@ + csv_rest(separator, decimals(values@).take(i + 1)));
        i = i + 1;
    }
    assert(decimals(values@).take(values.len() as int) =~= decimals(values@));
    push_char(out, '\n');
}

/// A CSV line of texts.
pub fn write_line(separator: char, values: &[String]) -> (line: String)
    ensures
        line@ == csv_line(separator, texts(values@)),
{
    let mut out = String::new();
    if values.len() > 0 {
        write_value(&mut out, separator, values[0].as_str());
        let rest = values.split_at(1).1;
        assert(rest@ =~= values@.drop_first());
        write_line_rest(&mut out, separator, rest);
        assert(texts(rest@) =~= texts(values@).drop_first());
    }
    assert(out@ =~= csv_line(separator, texts(values@)));
    out
}

/// A CSV line of numbers.
pub fn write_numbers_line(separator: char, values: &[u64]) -> (line: String)
    ensures
        line@ == csv_line(separator, decimals(values@)),
{
    let mut out = String::new();
    if values.len() > 0 {
        let mut first = String::new();
        push_decimal(&mut first, values[0]);
        assert(first@ =~= decimal(values@[0] as nat));
        write_value(&mut out, separator, first.as_str());
        let rest = values.split_at(1).1;
        assert(rest@ =~= values@.drop_first());
        write_numbers_rest(&mut out, separator, rest);
        assert(decimals(rest@) =~= decimals(values@).drop_first());
    }
    assert(out@ =~= csv_line(separator, decimals(values@)));
    out
}

/// Label of an aggregation column in a header.
pub open spec fn aggregation_suffix(ag: Aggregation) -> Seq<char> {
    match ag {
        Aggregation::Raw => "none"@,
        Aggregation::Min => "min"@,
        Aggregation::Max => "max"@,
        Aggregation::Ratio => "%"@,
    }
}

/// Column titles after the time: the metric's name for its first column,
/// the name and the aggregation for the next ones.
pub open spec fn header_columns(columns: Seq<(MetricId, Aggregation)>) -> Seq<Seq<char>>
    decreases columns.len(),
{
    if columns.len() == 0 {
        Seq::empty()
    } else {
        let prev = columns.drop_last();
        let (id, ag) = columns.last();
        header_columns(prev).push(
            if prev.len() == 0 || prev.last().0 != id {
                metric_name(id)
            } else {
                metric_name(id) + " ("@ + aggregation_suffix(ag) + ")"@
            },
        )
    }
}

/// Exporter of the samples of each process in a file of its own.
pub struct CsvExporter {
    pub separator: char,
    pub extension: &'static str,
    pub dir: String,
    pub count: Option<usize>,
    pub size: Option<u64>,
    pub header: Vec<String>,
}

impl CsvExporter {
    /// Exporter for CSV or TSV settings; a size limit needs a number of
    /// files.
    pub fn new(settings: &ExportSettings) -> (r: Result<CsvExporter, Error>)
        requires
            settings.kind == ExportType::Csv || settings.kind == ExportType::Tsv,
        ensures
            settings.size is Some && settings.count is None <==> r matches Err(Error::MissingCount),
            r matches Ok(e) ==> {
                &&& e.separator == (if settings.kind == ExportType::Csv { ',' } else { '\t' })
                &&& e.extension@ == (if settings.kind == ExportType::Csv { "csv"@ } else { "tsv"@ })
                &&& e.dir@ == settings.dir@
                &&& e.count == (if settings.size is Some { settings.count } else { None })
                &&& e.size == settings.size
                &&& e.header@.len() == 0
            },
    {
        let (separator, extension) = match settings.kind {
            ExportType::Csv => (',', "csv"),
            _ => ('\t', "tsv"),
        };
        let count = if settings.size.is_some() {
            match settings.count {
                Some(c) => Some(c),
                None => {
                    return Err(Error::MissingCount);
                },
            }
        } else {
            None
        };
        Ok(CsvExporter {
            separator,
            extension,
            dir: settings.dir.clone(),
            count,
            size: settings.size,
            header: Vec::new(),
        })
    }

    /// Build the header: the time, then a column per computed value.
    pub fn open(&mut self, metrics: &[FormattedMetric])
        ensures
            final(self).separator == old(self).separator,
            final(self).extension == old(self).extension,
            final(self).dir == old(self).dir,
            final(self).count == old(self).count,
            final(self).size == old(self).size,
            texts(final(self).header@) == texts(old(self).header@).push("time"@)
                + header_columns(spec_computed_metrics(metric_views(metrics@))),
    {
        let columns = computed_metrics(metrics);
        let ghost start = texts(self.header@).push("time"@);
        self.header.push(to_string("time"));
        let mut i: usize = 0;
        assert(columns@.take(0) =~= Seq::<(MetricId, Aggregation)>::empty());
        assert(texts(self.header@) =~= start + header_columns(columns@.take(0)));
        while i < columns.len()
            invariant
                0 <= i <= columns.len(),
                texts(self.header@) == start + header_columns(columns@.take(i as int)),
                self.separator == old(self).separator,
                self.extension == old(self).extension,
                self.dir == old(self).dir,
                self.count == old(self).count,
                self.size == old(self).size,
            decreases columns.len() - i,
        {
            let (id, ag) = columns[i];
            let first = i == 0 || columns[i - 1].0 != id;
            let name = if first {
                to_string(id.as_str())
            } else {
                let mut n = to_string(id.as_str());
                push_str(&mut n, " (");
                push_str(&mut n, match ag {
                    Aggregation::Raw => "none",
                    Aggregation::Min => "min",
                    Aggregation::Max => "max",
                    Aggregation::Ratio => "%",
                });
                push_str(&mut n, ")");
                n
            };
            let ghost before = self.header@;
            self.header.push(name);
            proof {
                assert(columns@.take(i + 1).drop_last() =~= columns@.take(i as int));
                assert(texts(self.header@) =~= texts(before).push(name@));
            }
            assert(texts(self.header@) =~= start + header_columns(columns@.take(i + 1)));
            i = i + 1;
        }
        assert(columns@.take(columns.len() as int) =~= columns@);
    }
}

/// Name of a file shifted to a rank: the name followed by a dot and the
/// rank.
pub open spec fn spec_shifted_name(filename: Seq<char>, rank: nat) -> Seq<char> {
    filename + seq!['.'] + decimal(rank)
}

/// The name of a file shifted to a rank.
pub fn shifted_name(filename: &str, rank: usize) -> (s: String)
    ensures
        s@ == spec_shifted_name(filename@, rank as nat),
{
    let mut s = to_string(filename);
    push_char(&mut s, '.');
    push_decimal(&mut s, rank as u64);
    s
}

/// The renames that shift the files from `rank` on, deepest first: a file
/// moves one rank up, after the file in its way moved, and the last rank
/// is overwritten. `exists(k)` tells whether the file of rank `k` exists.
pub open spec fn spec_shift_plan(count: nat, exists: Seq<bool>, rank: nat) -> Seq<(nat, nat)>
    decreases count - rank,
{
    if rank + 1 < count {
        let deeper = if (rank + 1) < exists.len() && exists[(rank + 1) as int] {
            spec_shift_plan(count, exists, rank + 1)
        } else {
            Seq::empty()
        };
        deeper.push((rank, rank + 1))
    } else {
        Seq::empty()
    }
}

/// Ranks of a plan, as numbers.
pub open spec fn plan_view(plan: Seq<(usize, usize)>) -> Seq<(nat, nat)> {
    plan.map_values(|p: (usize, usize)| (p.0 as nat, p.1 as nat))
}

fn shift_from(count: usize, exists: &[bool], rank: usize, plan: &mut Vec<(usize, usize)>)
    requires
        rank < usize::MAX,
    ensures
        plan_view(final(plan)@) == plan_view(old(plan)@) + spec_shift_plan(count as nat, exists@, rank as nat),
    decreases count - rank,
{
    if rank + 1 < count {
        let ghost before = plan@;
        if rank + 1 < exists.len() && exists[rank + 1] {
            shift_from(count, exists, rank + 1, plan);
        } else {
            assert(plan_view(plan@) =~= plan_view(before) + Seq::<(nat, nat)>::empty());
        }
        let ghost mid = plan@;
        plan.push((rank, rank + 1));
        assert(plan_view(plan@) =~= plan_view(mid).push((rank as nat, (rank + 1) as nat)));
        assert(plan_view(plan@) =~= plan_view(old(plan)@) + spec_shift_plan(count as nat, exists@, rank as nat));
    } else {
        assert(plan_view(plan@) =~= plan_view(old(plan)@) + Seq::<(nat, nat)>::empty());
    }
}

/// The renames, as pairs of ranks, that shift the files before a new file
/// of rank 0 is created; `exists[k]` tells whether the file of rank `k`
/// exists. Rank 0 is the file's own name. Without a number of files to
/// keep, nothing is shifted.
pub fn shift_plan(count: Option<usize>, exists: &[bool]) -> (plan: Vec<(usize, usize)>)
    ensures
        match count {
            Some(c) => plan_view(plan@) == spec_shift_plan(c as nat, exists@, 0),
            None => plan@.len() == 0,
        },
{
    let mut plan: Vec<(usize, usize)> = Vec::new();
    match count {
        Some(c) => {
            shift_from(c, exists, 0, &mut plan);
            assert(plan_view(plan@) =~= spec_shift_plan(c as nat, exists@, 0));
        },
        None => {},
    }
    plan
}

} // verus!
