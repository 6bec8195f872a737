//! The dialogue with an `rrdtool -` subprocess: the commands it is sent
//! and how its answers are read.

use std::time::Duration;
use vstd::prelude::*;
use crate::clock::{as_nanos, duration_nanos};
use crate::strings::{
    decimal, parse_usize_chars, push_char, push_decimal, push_str, spec_parse_usize, spec_trim_end,
    str_chars, string_from_chars, sub_chars, to_string, trim_end_chars,
};

verus! {

/// Errors in the dialogue with rrdtool.
pub enum Error {
    NoStdin,
    NoStdout,
    EndOfStream,
    InvalidGraphSize(String),
    MissingGraphSize,
    Process(String),
    Io(std::io::Error),
}

/// Position of the first occurrence of a character, if any.
pub open spec fn first_index_of(s: Seq<char>, c: char) -> Option<int>
    decreases s.len(),
{
    if s.len() == 0 {
        None
    } else if s[0] == c {
        Some(0)
    } else {
        match first_index_of(s.drop_first(), c) {
            Some(i) => Some(i + 1),
            None => None,
        }
    }
}

/// The two parts of a text around the first occurrence of a separator, or
/// the whole text when it does not occur: what `splitn(2, sep)` yields.
pub open spec fn split_once(s: Seq<char>, sep: char) -> (Seq<char>, Option<Seq<char>>) {
    match first_index_of(s, sep) {
        Some(i) => (s.take(i), Some(s.skip(i + 1))),
        None => (s, None),
    }
}

proof fn lemma_first_index_of(s: Seq<char>, c: char)
    ensures
        match first_index_of(s, c) {
            Some(i) => 0 <= i < s.len() && s[i] == c && forall|j: int| 0 <= j < i ==> s[j] != c,
            None => forall|j: int| 0 <= j < s.len() ==> s[j] != c,
        },
    decreases s.len(),
{
    if s.len() > 0 && s[0] != c {
        lemma_first_index_of(s.drop_first(), c);
        match first_index_of(s.drop_first(), c) {
            Some(i) => {
                assert forall|j: int| 0 <= j < i + 1 implies s[j] != c by {
                    if j > 0 {
                        assert(s[j] == s.drop_first()[j - 1]);
                    }
                }
            },
            None => {
                assert forall|j: int| 0 <= j < s.len() implies s[j] != c by {
                    if j > 0 {
                        assert(s[j] == s.drop_first()[j - 1]);
                    }
                }
            },
        }
    }
}

/// Split characters at the first occurrence of a separator.
fn split_once_chars(s: &[char], sep: char) -> (r: (Vec<char>, Option<Vec<char>>))
    ensures
        r.0@ == split_once(s@, sep).0,
        match split_once(s@, sep).1 {
            Some(rest) => r.1 matches Some(v) && v@ == rest,
            None => r.1 is None,
        },
{
    proof {
        lemma_first_index_of(s@, sep);
    }
    let mut i: usize = 0;
    while i < s.len()
        invariant
            0 <= i <= s.len(),
            forall|j: int| 0 <= j < i ==> s@[j] != sep,
        decreases s.len() - i,
    {
        if s[i] == sep {
            let head = sub_chars(s, 0, i);
            let tail = sub_chars(s, i + 1, s.len());
            proof {
                lemma_first_index_of(s@, sep);
                match first_index_of(s@, sep) {
                    Some(k) => {
                        assert(k == i);
                    },
                    None => {},
                }
            }
            assert(head@ =~= s@.take(i as int));
            assert(tail@ =~= s@.skip(i + 1));
            return (head, Some(tail));
        }
        i = i + 1;
    }
    let all = sub_chars(s, 0, s.len());
    assert(all@ =~= s@);
    proof {
        lemma_first_index_of(s@, sep);
    }
    (all, None)
}

/// The size of a graph as rrdtool prints it: `WIDTHxHEIGHT`, possibly
/// followed by white space.
pub open spec fn spec_graph_size(line: Seq<char>) -> Option<(usize, usize)> {
    let size = spec_trim_end(line);
    let (first, second) = split_once(size, 'x');
    match (spec_parse_usize(first), second) {
        (Some(width), Some(rest)) => match spec_parse_usize(rest) {
            Some(height) => Some((width, height)),
            None => None,
        },
        _ => None,
    }
}

/// Parse the size of a graph; an invalid graph size holds the text.
pub fn parse_graph_size(line: &str) -> (r: Result<(usize, usize), Error>)
    ensures
        match spec_graph_size(line@) {
            Some(size) => r matches Ok(s) && s == size,
            None => r matches Err(Error::InvalidGraphSize(text)) && text@ == spec_trim_end(line@),
        },
{
    let chars = str_chars(line);
    let size = trim_end_chars(chars.as_slice());
    let (first, second) = split_once_chars(size.as_slice(), 'x');
    match parse_usize_chars(first.as_slice()) {
        Some(width) => match second {
            Some(rest) => match parse_usize_chars(rest.as_slice()) {
                Some(height) => {
                    return Ok((width, height));
                },
                None => {},
            },
            None => {},
        },
        None => {},
    }
    Err(Error::InvalidGraphSize(string_from_chars(size.as_slice())))
}

/// What an answer line of rrdtool means: the end of a successful answer,
/// the end of a failed one with its message, or a line of output.
pub open spec fn spec_answer(line: Seq<char>) -> Option<Result<(), Seq<char>>> {
    let answer = spec_trim_end(line);
    let (tag, rest) = split_once(answer, ' ');
    if tag == "OK"@ {
        Some(Ok(()))
    } else if tag == "ERROR:"@ {
        Some(Err(match rest {
            Some(m) => m,
            None => "no error message"@,
        }))
    } else {
        None
    }
}

/// Read one line of an answer of rrdtool.
///
/// The answer is over at a line that starts with `OK` or `ERROR:`; the
/// other lines are output, added to `lines` when `capture` is set.
pub fn read_answer_line(line: &str, capture: bool, lines: &mut Vec<String>) -> (r: Option<Result<(), Error>>)
    ensures
        match spec_answer(line@) {
            Some(Ok(())) => r matches Some(Ok(())),
            Some(Err(m)) => r matches Some(Err(Error::Process(msg))) && msg@ == m,
            None => r is None,
        },
        capture && spec_answer(line@) is None
            ==> texts(final(lines)@) == texts(old(lines)@).push(spec_trim_end(line@)),
        !(capture && spec_answer(line@) is None) ==> final(lines)@ == old(lines)@,
{
    let chars = str_chars(line);
    let answer = trim_end_chars(chars.as_slice());
    let (tag, rest) = split_once_chars(answer.as_slice(), ' ');
    let tag_s = string_from_chars(tag.as_slice());
    if crate::strings::str_eq(tag_s.as_str(), "OK") {
        Some(Ok(()))
    } else if crate::strings::str_eq(tag_s.as_str(), "ERROR:") {
        let message = match rest {
            Some(m) => string_from_chars(m.as_slice()),
            None => to_string("no error message"),
        };
        Some(Err(Error::Process(message)))
    } else {
        if capture {
            let ghost before = lines@;
            let text = string_from_chars(answer.as_slice());
            lines.push(text);
            assert(texts(lines@) =~= texts(before).push(spec_trim_end(line@)));
        }
        None
    }
}

/// The size of a graph from the output lines of a graph command.
pub fn graph_size(lines: &[String]) -> (r: Result<(usize, usize), Error>)
    ensures
        lines@.len() == 0 ==> r matches Err(Error::MissingGraphSize),
        lines@.len() > 0 ==> match spec_graph_size(lines@[0]@) {
            Some(size) => r matches Ok(s) && s == size,
            None => r matches Err(Error::InvalidGraphSize(text)) && text@ == spec_trim_end(lines@[0]@),
        },
{
    if lines.len() == 0 {
        Err(Error::MissingGraphSize)
    } else {
        parse_graph_size(lines[0].as_str())
    }
}

/// Whole seconds of a duration.
pub open spec fn secs(d: Duration) -> nat {
    (duration_nanos(d) / 1_000_000_000) as nat
}

fn as_secs(d: Duration) -> (s: u64)
    ensures
        s == secs(d),
{
    let n = as_nanos(d);
    (n / 1_000_000_000) as u64
}

/// Whole seconds of an interval.
pub fn interval_secs(d: Duration) -> (s: u64)
    ensures
        s == secs(d),
{
    as_secs(d)
}

/// Texts of a list of strings.
pub open spec fn texts(v: Seq<String>) -> Seq<Seq<char>> {
    v.map_values(|s: String| s@)
}

/// Items each preceded by a space.
pub open spec fn spaced(items: Seq<Seq<char>>) -> Seq<char>
    decreases items.len(),
{
    if items.len() == 0 {
        Seq::empty()
    } else {
        spaced(items.drop_last()) + seq![' '] + items.last()
    }
}

/// Values each preceded by a colon.
pub open spec fn coloned(values: Seq<u64>) -> Seq<char>
    decreases values.len(),
{
    if values.len() == 0 {
        Seq::empty()
    } else {
        coloned(values.drop_last()) + seq![':'] + decimal(values.last() as nat)
    }
}

fn push_spaced(s: &mut String, items: &[String])
    ensures
        final(s)@ == old(s)@ + spaced(texts(items@)),
{
    let mut i: usize = 0;
    assert(texts(items@).take(0) =~= Seq::<Seq<char>>::empty());
    assert(old(s)@ + Seq::<char>::empty() =~= old(s)@);
    while i < items.len()
        invariant
            0 <= i <= items.len(),
            s@ == old(s)@ + spaced(texts(items@).take(i as int)),
        decreases items.len() - i,
    {
        push_char(s, ' ');
        push_str(s, items[i].as_str());
        assert(texts(items@).take(i + 1).drop_last() =~= texts(items@).take(i as int));
        assert(s@ =~= old(s)@ + spaced(texts(items@).take(i + 1)));
        i = i + 1;
    }
    assert(texts(items@).take(items.len() as int) =~= texts(items@));
}

/// The command that creates a round-robin database.
pub open spec fn spec_create_command(dbname: Seq<char>, ds: Seq<Seq<char>>, start: nat, step: nat, rows: nat) -> Seq<char> {
    "create "@ + dbname + " --start="@ + decimal(start) + " --step="@ + decimal(step) + spaced(ds)
        + " RRA:AVERAGE:0.5:1:"@ + decimal(rows) + seq!['\n']
}

/// The command that creates a database `dbname` with data sources `ds`,
/// starting at `start_time` with one row every `interval`.
pub fn create_command(dbname: &str, ds: &[String], start_time: Duration, interval: Duration, rows: usize) -> (c: String)
    ensures
        c@ == spec_create_command(dbname@, texts(ds@), secs(start_time), secs(interval), rows as nat),
{
    let step = as_secs(interval);
    let mut c = to_string("create ");
    push_str(&mut c, dbname);
    push_str(&mut c, " --start=");
    push_decimal(&mut c, as_secs(start_time));
    push_str(&mut c, " --step=");
    push_decimal(&mut c, step);
    push_spaced(&mut c, ds);
    push_str(&mut c, " RRA:AVERAGE:0.5:1:");
    push_decimal(&mut c, rows as u64);
    push_char(&mut c, '\n');
    assert(c@ =~= spec_create_command(dbname@, texts(ds@), secs(start_time), secs(interval), rows as nat));
    c
}

/// The command that adds values to a database.
pub open spec fn spec_update_command(dbname: Seq<char>, values: Seq<u64>, timestamp: nat) -> Seq<char> {
    "update "@ + dbname + seq![' '] + decimal(timestamp) + coloned(values) + seq!['\n']
}

/// The command that adds `values` at `timestamp` to database `dbname`.
pub fn update_command(dbname: &str, values: &[u64], timestamp: Duration) -> (c: String)
    ensures
        c@ == spec_update_command(dbname@, values@, secs(timestamp)),
{
    let mut c = to_string("update ");
    push_str(&mut c, dbname);
    push_char(&mut c, ' ');
    push_decimal(&mut c, as_secs(timestamp));
    let ghost start = c@;
    let mut i: usize = 0;
    assert(values@.take(0) =~= Seq::<u64>::empty());
    assert(start + Seq::<char>::empty() =~= start);
    while i < values.len()
        invariant
            0 <= i <= values.len(),
            c@ == start + coloned(values@.take(i as int)),
        decreases values.len() - i,
    {
        push_char(&mut c, ':');
        push_decimal(&mut c, values[i]);
        assert(values@.take(i + 1).drop_last() =~= values@.take(i as int));
        assert(c@ =~= start + coloned(values@.take(i + 1)));
        i = i + 1;
    }
    assert(values@.take(values.len() as int) =~= values@);
    push_char(&mut c, '\n');
    assert(c@ =~= spec_update_command(dbname@, values@, secs(timestamp)));
    c
}

/// The command that draws a graph.
pub open spec fn spec_graph_command(filename: Seq<char>, start: nat, end: nat, defs: Seq<Seq<char>>, title: Option<Seq<char>>) -> Seq<char> {
    "graph "@ + filename + " --start="@ + decimal(start) + " --end="@ + decimal(end)
        + match title {
            Some(t) => " --title=\""@ + t + seq!['"'],
            None => Seq::empty(),
        } + spaced(defs) + seq!['\n']
}

/// The command that draws the graph `filename` from `start_time` to
/// `end_time` with the definitions `defs`.
pub fn graph_command(filename: &str, start_time: Duration, end_time: Duration, defs: &[String], title: Option<&str>) -> (c: String)
    ensures
        c@ == spec_graph_command(filename@, secs(start_time), secs(end_time), texts(defs@),
            match title { Some(t) => Some(t@), None => None }),
{
    let mut c = to_string("graph ");
    push_str(&mut c, filename);
    push_str(&mut c, " --start=");
    push_decimal(&mut c, as_secs(start_time));
    push_str(&mut c, " --end=");
    push_decimal(&mut c, as_secs(end_time));
    match title {
        Some(t) => {
            push_str(&mut c, " --title=\"");
            push_str(&mut c, t);
            push_char(&mut c, '"');
        },
        None => {},
    }
    push_spaced(&mut c, defs);
    push_char(&mut c, '\n');
    assert(c@ =~= spec_graph_command(filename@, secs(start_time), secs(end_time), texts(defs@),
        match title { Some(t) => Some(t@), None => None }));
    c
}

/// The command that stops rrdtool.
pub fn quit_command() -> (c: String)
    ensures
        c@ == "quit\n"@,
{
    to_string("quit\n")
}

} // verus!
