//! What the tables of the terminal show, apart from how they are drawn:
//! permission masks, the indentation of the process tree and the status of
//! each line.

use vstd::prelude::*;
use crate::display::term::input::Bookmarks;
use crate::console::BuiltinTheme;
use crate::process::collector::Trend;
use crate::strings::{
    i32_string, int_decimal, lines_of, push_char, push_str, str_len, string_from_chars,
    strings_view, text_lines, to_string, utf8_len,
};
use crate::display::term::panes::{raw_lines, raw_text, spaces, Alignment, CellText, TableClip};
use crate::display::term::types::{Area, MaxLength};
use crate::export::rrd::{hex, hex_digit};
use crate::strings::{decimal, push_decimal, u64_string};

verus! {

/// Character shown for bit `i` of a mask: the `i`-th character when the bit
/// is set, else a dash.
pub open spec fn mask_char(bits: u64, chars: Seq<char>, i: int) -> char {
    if bits & (1u64 << (i as u64)) == (1u64 << (i as u64)) { chars[i] } else { '-' }
}

/// Convert a mask to a string: for example 0x5 with "rwx" is "r-x".
pub fn bits_to_string(bits: u64, chars: &str) -> (r: String)
    requires
        chars@.len() <= 64,
    ensures
        r@ == Seq::new(chars@.len(), |i: int| mask_char(bits, chars@, i)),
{
    let cs: Vec<char> = crate::strings::str_chars(chars);
    let mut res = String::new();
    let mut i: usize = 0;
    while i < cs.len()
        invariant
            i <= cs.len(),
            cs@ == chars@,
            cs.len() <= 64,
            res@ == Seq::new(i as nat, |j: int| mask_char(bits, chars@, j)),
        decreases cs.len() - i,
    {
        let mask: u64 = 1u64 << (i as u64);
        if bits & mask == mask {
            push_char(&mut res, cs[i]);
        } else {
            push_char(&mut res, '-');
        }
        assert(res@ =~= Seq::new((i + 1) as nat, |j: int| mask_char(bits, chars@, j)));
        i = i + 1;
    }
    res
}

/// The stack after the parent of a process: the processes above it are
/// dropped; all of them when the parent is not on the stack.
pub open spec fn unwind(stack: Seq<i32>, parent_pid: i32) -> Seq<i32>
    decreases stack.len(),
{
    if stack.len() == 0 || stack.last() == parent_pid {
        stack
    } else {
        unwind(stack.drop_last(), parent_pid)
    }
}

/// Stack of parent child PIDs, from which the tree is indented.
pub struct PidStack {
    pub pids: Vec<i32>,
}

impl PidStack {
    pub fn new() -> (s: PidStack)
        ensures
            s.pids@ == Seq::<i32>::empty(),
    {
        PidStack { pids: Vec::new() }
    }

    /// Stack length: the depth of the last process in the tree.
    pub fn len(&self) -> (n: usize)
        ensures
            n == self.pids@.len(),
    {
        self.pids.len()
    }

    /// Pop the processes that are not a parent of the given process and push
    /// the new one. A process without parent empties the stack.
    pub fn push(&mut self, pid: i32, parent_pid: Option<i32>)
        ensures
            match parent_pid {
                Some(ppid) => final(self).pids@ == unwind(old(self).pids@, ppid).push(pid),
                None => final(self).pids@ == Seq::<i32>::empty(),
            },
    {
        match parent_pid {
            Some(ppid) => {
                while self.pids.len() > 0 && self.pids[self.pids.len() - 1] != ppid
                    invariant
                        unwind(self.pids@, ppid) == unwind(old(self).pids@, ppid),
                    decreases self.pids.len(),
                {
                    self.pids.pop();
                }
                self.pids.push(pid);
            },
            None => self.pids.clear(),
        }
    }
}

/// Status of a process line.
#[derive(Clone, Copy, Debug, PartialEq, Eq, Structural)]
pub enum PidStatus {
    /// No specific status.
    Unknown,
    /// Under the cursor.
    Selected,
    /// Bookmarked.
    Marked,
    /// Search match.
    Matching,
}

/// Status of a process: matching a search first, then bookmarked.
pub fn pid_status(occurrences: &[i32], bookmarks: &Bookmarks, pid: i32) -> (s: PidStatus)
    ensures
        s == (if occurrences@.contains(pid) {
            PidStatus::Matching
        } else if bookmarks.spec_marks().contains(pid) {
            PidStatus::Marked
        } else {
            PidStatus::Unknown
        }),
{
    let mut i: usize = 0;
    while i < occurrences.len()
        invariant
            i <= occurrences.len(),
            forall|j: int| 0 <= j < i ==> occurrences@[j] != pid,
        decreases occurrences.len() - i,
    {
        if occurrences[i] == pid {
            return PidStatus::Matching;
        }
        i = i + 1;
    }
    if bookmarks.is_marked(pid) {
        PidStatus::Marked
    } else {
        PidStatus::Unknown
    }
}


/// A color of the terminal.
#[derive(Clone, Copy, Debug, PartialEq, Eq, Structural)]
pub enum Color {
    Black,
    White,
    Red,
    Green,
    Blue,
    Magenta,
    Cyan,
    LightGreen,
    LightMagenta,
    LightCyan,
    Indexed(u8),
}

/// How a text is drawn: its colors and modifiers.
#[derive(Clone, Copy, Debug, PartialEq, Eq, Structural)]
pub struct Style {
    pub fg: Option<Color>,
    pub bg: Option<Color>,
    pub bold: bool,
    pub reversed: bool,
    pub underlined: bool,
}

/// The style that changes nothing.
pub open spec fn plain() -> Style {
    Style { fg: None, bg: None, bold: false, reversed: false, underlined: false }
}

/// A style with a foreground color.
pub open spec fn fg(c: Color) -> Style {
    Style { fg: Some(c), ..plain() }
}

/// A style with a background color.
pub open spec fn bg(c: Color) -> Style {
    Style { bg: Some(c), ..plain() }
}

/// A style with both colors.
pub open spec fn fg_bg(f: Color, b: Color) -> Style {
    Style { fg: Some(f), bg: Some(b), ..plain() }
}

/// Bold text.
pub open spec fn bold() -> Style {
    Style { bold: true, ..plain() }
}

/// Theme styles.
#[derive(Clone, Copy, Debug, PartialEq, Eq, Structural)]
pub struct Styles {
    pub even_row: Style,
    pub odd_row: Style,
    pub increase: Style,
    pub decrease: Style,
    pub unselected: Style,
    pub selected: Style,
    pub marked: Style,
    pub matching: Style,
    pub status: Style,
    /// Space between columns in number of characters.
    pub column_spacing: u16,
}

/// The styles of a theme; without theme, only modifiers are used.
pub open spec fn theme_styles(theme: Option<BuiltinTheme>) -> Styles {
    let white_on_blue = fg_bg(Color::White, Color::Blue);
    match theme {
        Some(BuiltinTheme::Dark) => Styles {
            even_row: plain(),
            odd_row: bg(Color::Indexed(238)),
            increase: fg(Color::Indexed(196)),
            decrease: fg(Color::Indexed(46)),
            unselected: bold(),
            selected: fg_bg(Color::Black, Color::LightMagenta),
            marked: fg(Color::LightCyan),
            matching: fg(Color::LightMagenta),
            status: white_on_blue,
            column_spacing: 2,
        },
        Some(BuiltinTheme::Light) => Styles {
            even_row: plain(),
            odd_row: bg(Color::Indexed(254)),
            increase: fg(Color::Indexed(124)),
            decrease: fg(Color::Indexed(40)),
            unselected: bold(),
            selected: fg_bg(Color::White, Color::Magenta),
            marked: fg(Color::Cyan),
            matching: fg(Color::Magenta),
            status: white_on_blue,
            column_spacing: 2,
        },
        Some(BuiltinTheme::Dark16) => Styles {
            even_row: plain(),
            odd_row: plain(),
            increase: fg(Color::LightMagenta),
            decrease: fg(Color::LightGreen),
            unselected: bold(),
            selected: fg_bg(Color::Black, Color::LightMagenta),
            marked: fg(Color::LightCyan),
            matching: fg(Color::LightMagenta),
            status: white_on_blue,
            column_spacing: 2,
        },
        Some(BuiltinTheme::Light16) => Styles {
            even_row: plain(),
            odd_row: plain(),
            increase: fg(Color::Red),
            decrease: fg(Color::Green),
            unselected: bold(),
            selected: fg_bg(Color::White, Color::Magenta),
            marked: fg(Color::Cyan),
            matching: fg(Color::Magenta),
            status: white_on_blue,
            column_spacing: 2,
        },
        None => Styles {
            even_row: plain(),
            odd_row: plain(),
            increase: bold(),
            decrease: bold(),
            unselected: bold(),
            selected: Style { reversed: true, ..bold() },
            marked: Style { underlined: true, ..bold() },
            matching: Style { underlined: true, ..plain() },
            status: Style { reversed: true, ..bold() },
            column_spacing: 2,
        },
    }
}

fn style(fg: Option<Color>, bg: Option<Color>, bold: bool, reversed: bool, underlined: bool) -> (s: Style)
    ensures
        s == (Style { fg, bg, bold, reversed, underlined }),
{
    Style { fg, bg, bold, reversed, underlined }
}

impl Styles {
    /// The styles of a theme.
    pub fn new(theme: Option<BuiltinTheme>) -> (s: Styles)
        ensures
            s == theme_styles(theme),
    {
        let plain = style(None, None, false, false, false);
        let bold = style(None, None, true, false, false);
        let bold_reversed = style(None, None, true, true, false);
        let white_on_blue = style(Some(Color::White), Some(Color::Blue), false, false, false);
        match theme {
            Some(BuiltinTheme::Dark) => Styles {
                even_row: plain,
                odd_row: style(None, Some(Color::Indexed(238)), false, false, false),
                increase: style(Some(Color::Indexed(196)), None, false, false, false),
                decrease: style(Some(Color::Indexed(46)), None, false, false, false),
                unselected: bold,
                selected: style(Some(Color::Black), Some(Color::LightMagenta), false, false, false),
                marked: style(Some(Color::LightCyan), None, false, false, false),
                matching: style(Some(Color::LightMagenta), None, false, false, false),
                status: white_on_blue,
                column_spacing: 2,
            },
            Some(BuiltinTheme::Light) => Styles {
                even_row: plain,
                odd_row: style(None, Some(Color::Indexed(254)), false, false, false),
                increase: style(Some(Color::Indexed(124)), None, false, false, false),
                decrease: style(Some(Color::Indexed(40)), None, false, false, false),
                unselected: bold,
                selected: style(Some(Color::White), Some(Color::Magenta), false, false, false),
                marked: style(Some(Color::Cyan), None, false, false, false),
                matching: style(Some(Color::Magenta), None, false, false, false),
                status: white_on_blue,
                column_spacing: 2,
            },
            Some(BuiltinTheme::Dark16) => Styles {
                even_row: plain,
                odd_row: plain,
                increase: style(Some(Color::LightMagenta), None, false, false, false),
                decrease: style(Some(Color::LightGreen), None, false, false, false),
                unselected: bold,
                selected: style(Some(Color::Black), Some(Color::LightMagenta), false, false, false),
                marked: style(Some(Color::LightCyan), None, false, false, false),
                matching: style(Some(Color::LightMagenta), None, false, false, false),
                status: white_on_blue,
                column_spacing: 2,
            },
            Some(BuiltinTheme::Light16) => Styles {
                even_row: plain,
                odd_row: plain,
                increase: style(Some(Color::Red), None, false, false, false),
                decrease: style(Some(Color::Green), None, false, false, false),
                unselected: bold,
                selected: style(Some(Color::White), Some(Color::Magenta), false, false, false),
                marked: style(Some(Color::Cyan), None, false, false, false),
                matching: style(Some(Color::Magenta), None, false, false, false),
                status: white_on_blue,
                column_spacing: 2,
            },
            None => Styles {
                even_row: plain,
                odd_row: plain,
                increase: bold,
                decrease: bold,
                unselected: bold,
                selected: bold_reversed,
                marked: style(None, None, true, false, true),
                matching: style(None, None, false, false, true),
                status: bold_reversed,
                column_spacing: 2,
            },
        }
    }

    /// Style of the name of a process.
    pub fn name_style(&self, status: PidStatus) -> (s: Style)
        ensures
            s == match status {
                PidStatus::Unknown => self.unselected,
                PidStatus::Selected => self.selected,
                PidStatus::Marked => self.marked,
                PidStatus::Matching => self.matching,
            },
    {
        match status {
            PidStatus::Unknown => self.unselected,
            PidStatus::Selected => self.selected,
            PidStatus::Marked => self.marked,
            PidStatus::Matching => self.matching,
        }
    }

    /// Style of a value that changed.
    pub fn trend_style(&self, trend: Trend) -> (s: Style)
        ensures
            s == match trend {
                Trend::Less => self.decrease,
                Trend::Equal => plain(),
                Trend::Greater => self.increase,
            },
    {
        match trend {
            Trend::Less => self.decrease,
            Trend::Equal => style(None, None, false, false, false),
            Trend::Greater => self.increase,
        }
    }

    /// Style of a row: the first row is odd.
    pub fn row_style(&self, index: usize) -> (s: Style)
        ensures
            s == (if index % 2 != 0 { self.even_row } else { self.odd_row }),
    {
        if index % 2 != 0 { self.even_row } else { self.odd_row }
    }
}

/// The style of a trend: as is when equal.
pub open spec fn trend_style_of(styles: Styles, trend: Trend) -> Style {
    match trend {
        Trend::Less => styles.decrease,
        Trend::Equal => plain(),
        Trend::Greater => styles.increase,
    }
}

/// The style of a process name.
pub open spec fn name_style_of(styles: Styles, status: PidStatus) -> Style {
    match status {
        PidStatus::Unknown => styles.unselected,
        PidStatus::Selected => styles.selected,
        PidStatus::Marked => styles.marked,
        PidStatus::Matching => styles.matching,
    }
}

/// The formatted values of a sample and how each changed.
pub struct SampleText {
    pub strings: Vec<String>,
    pub trends: Vec<Trend>,
}

/// A line of the process tree.
pub struct TreeLine {
    pub pid: i32,
    pub parent_pid: Option<i32>,
    pub name: String,
    pub state: char,
    pub samples: Vec<SampleText>,
}

/// The values of a sample shown with their trend.
pub open spec fn sample_cells(s: SampleText) -> Seq<(Seq<char>, Trend)> {
    let n = if s.strings@.len() < s.trends@.len() { s.strings@.len() } else { s.trends@.len() };
    Seq::new(n, |i: int| (s.strings@[i]@, s.trends@[i]))
}

/// The values of the samples of a line, one column each.
pub open spec fn line_cells(samples: Seq<SampleText>) -> Seq<(Seq<char>, Trend)>
    decreases samples.len(),
{
    if samples.len() == 0 {
        Seq::empty()
    } else {
        line_cells(samples.drop_last()) + sample_cells(samples.last())
    }
}

/// Length in bytes of the longest of some lines, 0 for none.
pub open spec fn max_line_len(lines: Seq<Seq<char>>) -> int
    decreases lines.len(),
{
    if lines.len() == 0 {
        0
    } else {
        let m = max_line_len(lines.drop_last());
        if utf8_len(lines.last()) > m { utf8_len(lines.last()) } else { m }
    }
}

/// Largest number of lines of the headers.
pub open spec fn headers_height(headers: Seq<Seq<char>>) -> int
    decreases headers.len(),
{
    if headers.len() == 0 {
        0
    } else {
        let m = headers_height(headers.drop_last());
        let n = text_lines(headers.last()).len() as int;
        if n > m { n } else { m }
    }
}

/// Widths of the columns before any line: the titles of the fixed columns,
/// then the longest line of each metric header.
pub open spec fn header_widths(headers: Seq<Seq<char>>) -> Seq<u16> {
    seq![7u16, 3u16, 1u16] + headers.map_values(|h: Seq<char>| max_line_len(text_lines(h)) as u16)
}

/// The stack of parents after the first `n` lines.
pub open spec fn stack_after(lines: Seq<TreeLine>, n: nat) -> Seq<i32>
    decreases n,
{
    if n == 0 || n > lines.len() {
        Seq::empty()
    } else {
        let stack = stack_after(lines, (n - 1) as nat);
        let line = lines[n - 1];
        match line.parent_pid {
            Some(ppid) => unwind(stack, ppid).push(line.pid),
            None => Seq::empty(),
        }
    }
}

/// Indentation of line `i`: its depth in the tree.
pub open spec fn indent_of(lines: Seq<TreeLine>, i: int) -> int {
    let depth = stack_after(lines, (i + 1) as nat).len();
    if depth > 0 { depth - 1 } else { 0 }
}

/// Width that a line needs in column `j`, if it has one there.
pub open spec fn needed_width(line: TreeLine, indent: int, j: int) -> Option<int> {
    if j == 0 {
        Some(indent + utf8_len(line.name@))
    } else if j == 1 {
        Some(utf8_len(int_decimal(line.pid as int)))
    } else if 3 <= j < 3 + line.samples@.len() {
        Some(max_line_len(strings_view(line.samples@[j - 3].strings@)))
    } else {
        None
    }
}

/// A width raised to what a line needs, as a `u16`.
pub open spec fn raised(w: u16, needed: Option<int>) -> u16 {
    match needed {
        Some(c) => if (c as u16) > w { c as u16 } else { w },
        None => w,
    }
}

/// Widths of the columns after the first `n` lines.
pub open spec fn tree_widths(lines: Seq<TreeLine>, init: Seq<u16>, n: nat) -> Seq<u16>
    decreases n,
{
    if n == 0 || n > lines.len() {
        init
    } else {
        let w = tree_widths(lines, init, (n - 1) as nat);
        Seq::new(w.len(), |j: int| raised(w[j], needed_width(lines[n - 1], indent_of(lines, n - 1), j)))
    }
}

/// Whether lines can make a tree under some headers: each has no more
/// samples than there are headers, and the lengths fit the machine.
pub open spec fn tree_fits(lines: Seq<TreeLine>, headers: Seq<Seq<char>>) -> bool {
    forall|i: int| 0 <= i < lines.len() ==> {
        &&& (#[trigger] lines[i]).samples@.len() <= headers.len()
        &&& utf8_len(lines[i].name@) + lines.len() <= usize::MAX
    }
}

/// Table of the process tree.
pub struct ProcessTreeTable {
    pub lines: Vec<TreeLine>,
    pub metric_headers: Vec<String>,
    pub headers_size: Area<usize>,
    pub widths: Vec<u16>,
    pub indents: Vec<usize>,
}

/// Longest of some lines.
fn longest_line(lines: &[String]) -> (m: usize)
    ensures
        m == max_line_len(strings_view(lines@)),
{
    let mut m: usize = 0;
    let mut i: usize = 0;
    while i < lines.len()
        invariant
            i <= lines@.len(),
            m == max_line_len(strings_view(lines@.take(i as int))),
        decreases lines@.len() - i,
    {
        assert(strings_view(lines@.take(i + 1)).drop_last() =~= strings_view(lines@.take(i as int)));
        let l = str_len(lines[i].as_str());
        if l > m {
            m = l;
        }
        i = i + 1;
    }
    assert(lines@.take(lines@.len() as int) =~= lines@);
    m
}

impl ProcessTreeTable {
    pub fn new(lines: Vec<TreeLine>, metric_headers: Vec<String>) -> (t: Self)
        requires
            tree_fits(lines@, strings_view(metric_headers@)),
        ensures
            t.lines@ == lines@,
            t.metric_headers@ == metric_headers@,
            t.headers_size == (Area { horizontal: 3usize, vertical: headers_height(strings_view(metric_headers@)) as usize }),
            t.widths@ == tree_widths(lines@, header_widths(strings_view(metric_headers@)), lines@.len()),
            t.indents@.len() == lines@.len(),
            forall|i: int| 0 <= i < lines@.len() ==> t.indents@[i] == indent_of(lines@, i),
    {
        let ghost headers = strings_view(metric_headers@);
        let mut widths: Vec<u16> = vec![7, 3, 1];
        let mut height: usize = 0;
        let mut h: usize = 0;
        while h < metric_headers.len()
            invariant
                h <= metric_headers@.len(),
                headers == strings_view(metric_headers@),
                widths@ == header_widths(headers.take(h as int)),
                height == headers_height(headers.take(h as int)),
            decreases metric_headers@.len() - h,
        {
            let hl = lines_of(metric_headers[h].as_str());
            let w = longest_line(hl.as_slice());
            widths.push(#[verifier::truncate] (w as u16));
            if hl.len() > height {
                height = hl.len();
            }
            proof {
                assert(headers.take(h + 1).drop_last() =~= headers.take(h as int));
                assert(header_widths(headers.take(h + 1)) =~= header_widths(headers.take(h as int)).push(w as u16));
            }
            h = h + 1;
        }
        assert(headers.take(metric_headers@.len() as int) =~= headers);
        let ghost init = widths@;
        let mut pids = PidStack::new();
        let mut indents: Vec<usize> = Vec::new();
        let mut i: usize = 0;
        while i < lines.len()
            invariant
                i <= lines@.len(),
                tree_fits(lines@, headers),
                headers.len() == metric_headers@.len(),
                init.len() == 3 + headers.len(),
                pids.pids@ == stack_after(lines@, i as nat),
                widths@ == tree_widths(lines@, init, i as nat),
                indents@.len() == i,
                forall|k: int| 0 <= k < i ==> indents@[k] == indent_of(lines@, k),
            decreases lines@.len() - i,
        {
            let line = &lines[i];
            assert(lines@[i as int].samples@.len() <= headers.len() && utf8_len(line.name@) + lines@.len() <= usize::MAX);
            pids.push(line.pid, line.parent_pid);
            let depth = pids.len();
            let indent = if depth > 0 { depth - 1 } else { 0 };
            assert(stack_after(lines@, (i + 1) as nat) == pids.pids@);
            proof { lemma_stack_len(lines@, (i + 1) as nat); }
            indents.push(indent);
            let ghost w = widths@;
            let ghost target = tree_widths(lines@, init, (i + 1) as nat);
            assert(w.len() == init.len()) by { lemma_widths_len(lines@, init, i as nat); }
            let mut m0 = MaxLength(widths[0]);
            m0.set_min(indent + str_len(line.name.as_str()));
            widths.set(0, m0.len());
            let mut m1 = MaxLength(widths[1]);
            let pid_text = i32_string(line.pid);
            m1.set_min(str_len(pid_text.as_str()));
            widths.set(1, m1.len());
            let nw = widths.len();
            let mut k: usize = 0;
            while k < line.samples.len()
                invariant
                    k <= line.samples@.len(),
                    widths@.len() == nw,
                    line.samples@.len() <= headers.len(),
                    w.len() == 3 + headers.len(),
                    *line == lines@[i as int],
                    indent == indent_of(lines@, i as int),
                    target == Seq::new(w.len(), |j: int| raised(w[j], needed_width(*line, indent as int, j))),
                    widths@.len() == w.len(),
                    forall|j: int| 0 <= j < w.len() ==> #[trigger] widths@[j] ==
                        if j < 2 || (3 <= j < 3 + k) { target[j] } else { w[j] },
                decreases line.samples@.len() - k,
            {
                let longest = longest_line(line.samples[k].strings.as_slice());
                let mut mk = MaxLength(widths[k + 3]);
                mk.set_min(longest);
                widths.set(k + 3, mk.len());
                k = k + 1;
            }
            assert(widths@ =~= target);
            i = i + 1;
        }
        let headers_size = Area::new(3usize, height);
        ProcessTreeTable { lines, metric_headers, headers_size, widths, indents }
    }
}

/// The stack never holds more processes than lines were read.
proof fn lemma_stack_len(lines: Seq<TreeLine>, n: nat)
    ensures
        stack_after(lines, n).len() <= n,
    decreases n,
{
    if n > 0 && n <= lines.len() {
        lemma_stack_len(lines, (n - 1) as nat);
        match lines[n - 1].parent_pid {
            Some(ppid) => lemma_unwind_len(stack_after(lines, (n - 1) as nat), ppid),
            None => {},
        }
    }
}

proof fn lemma_unwind_len(stack: Seq<i32>, ppid: i32)
    ensures
        unwind(stack, ppid).len() <= stack.len(),
    decreases stack.len(),
{
    if stack.len() > 0 && stack.last() != ppid {
        lemma_unwind_len(stack.drop_last(), ppid);
    }
}

proof fn lemma_widths_len(lines: Seq<TreeLine>, init: Seq<u16>, n: nat)
    ensures
        tree_widths(lines, init, n).len() == init.len(),
    decreases n,
{
    if n > 0 && n <= lines.len() {
        lemma_widths_len(lines, init, (n - 1) as nat);
    }
}

/// A text with its alignment and style, as a table shows it in a cell.
pub struct StyledCell {
    pub text: CellText,
    pub style: Style,
}

/// What a cell shows: its lines, their alignment and their style.
pub open spec fn cell_view(c: StyledCell) -> (Seq<Seq<char>>, Alignment, Style) {
    (strings_view(c.text.lines@), c.text.alignment, c.style)
}

/// What the cells of a row show.
pub open spec fn row_view(r: Vec<StyledCell>) -> Seq<(Seq<Seq<char>>, Alignment, Style)> {
    r@.map_values(|c: StyledCell| cell_view(c))
}

/// What the cells of some rows show.
pub open spec fn rows_view(rows: Seq<Vec<StyledCell>>) -> Seq<Seq<(Seq<Seq<char>>, Alignment, Style)>> {
    rows.map_values(|r: Vec<StyledCell>| row_view(r))
}

/// What a text shows: its lines and their alignment.
pub open spec fn text_view(t: CellText) -> (Seq<Seq<char>>, Alignment) {
    (strings_view(t.lines@), t.alignment)
}

/// The visible parts of the first `n` texts of body columns, each clipped
/// with an alignment; the columns that cannot be seen are left out.
pub open spec fn clipped_texts(clip: TableClip, texts: Seq<Seq<char>>, alignment: Alignment, n: nat) -> Seq<(Seq<Seq<char>>, Alignment)>
    decreases n,
{
    if n == 0 {
        Seq::empty()
    } else {
        let rest = clipped_texts(clip, texts, alignment, (n - 1) as nat);
        match clip.clipped(n - 1, texts[n - 1], alignment) {
            Some(t) => rest.push(t),
            None => rest,
        }
    }
}

/// The visible parts of the first `n` values of a line, right aligned, in
/// the style of their trend.
pub open spec fn clipped_values(clip: TableClip, cells: Seq<(Seq<char>, Trend)>, styles: Styles, n: nat) -> Seq<(Seq<Seq<char>>, Alignment, Style)>
    decreases n,
{
    if n == 0 {
        Seq::empty()
    } else {
        let rest = clipped_values(clip, cells, styles, (n - 1) as nat);
        match clip.clipped(n - 1, cells[n - 1].0, Alignment::Right) {
            Some((lines, a)) => rest.push((lines, a, trend_style_of(styles, cells[n - 1].1))),
            None => rest,
        }
    }
}

/// Status of a process from the matches of a search and the marks.
pub open spec fn pid_status_of(occurrences: Seq<i32>, marks: Set<i32>, pid: i32) -> PidStatus {
    if occurrences.contains(pid) {
        PidStatus::Matching
    } else if marks.contains(pid) {
        PidStatus::Marked
    } else {
        PidStatus::Unknown
    }
}

/// A name right-aligned after its indentation, padded as a formatter pads
/// to a number of characters.
pub open spec fn indented_name(name: Seq<char>, indent: int) -> Seq<char> {
    spaces(if indent + utf8_len(name) > name.len() { (indent + utf8_len(name) - name.len()) as nat } else { 0 }) + name
}

/// The cells of line `index` of the tree.
pub open spec fn tree_row(t: ProcessTreeTable, clip: TableClip, styles: Styles, occurrences: Seq<i32>, marks: Set<i32>, index: int)
    -> Seq<(Seq<Seq<char>>, Alignment, Style)>
{
    let line = t.lines@[index];
    let status = if clip.selected_lineno == Some(index as usize) {
        PidStatus::Selected
    } else {
        pid_status_of(occurrences, marks, line.pid)
    };
    let cells = line_cells(line.samples@);
    seq![
        (raw_text(indented_name(line.name@, t.indents@[index] as int)), Alignment::Left, name_style_of(styles, status)),
        (raw_text(int_decimal(line.pid as int)), Alignment::Right, plain()),
        (raw_text(seq![line.state]), Alignment::Right, plain()),
    ] + clipped_values(clip, cells, styles, cells.len())
}

/// Number of lines shown from `offset` in a height.
pub open spec fn shown_count(total: int, offset: int, height: int) -> int {
    if offset >= total { 0 } else if total - offset < height { total - offset } else { height }
}

/// A cell that shows a text as is.
fn plain_cell(text: &str, alignment: Alignment, style: Style) -> (c: StyledCell)
    ensures
        cell_view(c) == (raw_text(text@), alignment, style),
{
    StyledCell { text: CellText { lines: raw_lines(text), alignment }, style }
}

impl ProcessTreeTable {
    /// Whether the tree can be clipped: the indentations are those of the
    /// lines, and the values of each line have body columns that can be
    /// clipped.
    pub open spec fn clippable(self, clip: TableClip) -> bool {
        &&& self.indents@.len() == self.lines@.len()
        &&& forall|i: int| 0 <= i < self.lines@.len() ==> (#[trigger] self.indents@[i]) <= self.lines@.len()
        &&& forall|i: int| 0 <= i < self.lines@.len() ==>
            utf8_len((#[trigger] self.lines@[i]).name@) + self.lines@.len() <= usize::MAX
        &&& forall|i: int| 0 <= i < self.lines@.len() ==> clip.clip_ready(line_cells((#[trigger] self.lines@[i]).samples@).len() as int)
        &&& clip.clip_ready(self.metric_headers@.len() as int)
    }

    /// The headers on top: the fixed columns, then the visible part of
    /// each metric header, centered.
    pub fn top_headers(&self, clip: &TableClip) -> (r: Vec<CellText>)
        requires
            clip.clip_ready(self.metric_headers@.len() as int),
        ensures
            r@.map_values(|t: CellText| text_view(t)) == seq![
                (raw_text("Process"@), Alignment::Left),
                (raw_text("PID"@), Alignment::Left),
                (raw_text("S"@), Alignment::Left),
            ] + clipped_texts(*clip, strings_view(self.metric_headers@), Alignment::Center, self.metric_headers@.len()),
    {
        let ghost headers = strings_view(self.metric_headers@);
        let mut r: Vec<CellText> = Vec::new();
        r.push(CellText { lines: raw_lines("Process"), alignment: Alignment::Left });
        r.push(CellText { lines: raw_lines("PID"), alignment: Alignment::Left });
        r.push(CellText { lines: raw_lines("S"), alignment: Alignment::Left });
        let ghost fixed = r@.map_values(|t: CellText| text_view(t));
        assert(fixed =~= seq![
            (raw_text("Process"@), Alignment::Left),
            (raw_text("PID"@), Alignment::Left),
            (raw_text("S"@), Alignment::Left),
        ]);
        let mut c: usize = 0;
        while c < self.metric_headers.len()
            invariant
                c <= self.metric_headers@.len(),
                headers == strings_view(self.metric_headers@),
                clip.clip_ready(self.metric_headers@.len() as int),
                r@.map_values(|t: CellText| text_view(t)) == fixed + clipped_texts(*clip, headers, Alignment::Center, c as nat),
            decreases self.metric_headers@.len() - c,
        {
            assert(clip.ranges@[c as int].0 <= clip.ranges@[c as int].1);
            let cell = clip.clip_cell(c, self.metric_headers[c].as_str(), Alignment::Center);
            let ghost before = r@;
            match cell {
                Some(t) => {
                    r.push(t);
                    assert(r@.map_values(|t: CellText| text_view(t)) =~= before.map_values(|t: CellText| text_view(t)).push(text_view(t)));
                },
                None => {},
            }
            c = c + 1;
        }
        r
    }

    /// The visible rows, and the process on the selected line if it is
    /// visible.
    pub fn rows(&self, clip: &TableClip, styles: &Styles, occurrences: &[i32], bookmarks: &Bookmarks) -> (r: (Vec<Vec<StyledCell>>, Option<i32>))
        requires
            self.clippable(*clip),
        ensures
            ({
                let offset = clip.zoom.vertical.position as int;
                let count = shown_count(self.lines@.len() as int, offset, clip.zoom.vertical.visible_length as int);
                &&& rows_view(r.0@) == Seq::new(count as nat,
                    |n: int| tree_row(*self, *clip, *styles, occurrences@, bookmarks.spec_marks(), offset + n))
                &&& r.1 == match clip.selected_lineno {
                    Some(sel) => if offset <= sel < offset + count { Some(self.lines@[sel as int].pid) } else { None },
                    None => None,
                }
            }),
    {
        let offset = clip.zoom.vertical.position;
        let height = clip.zoom.vertical.visible_length;
        let total = self.lines.len();
        let count = if offset >= total { 0 } else if total - offset < height { total - offset } else { height };
        let mut rows: Vec<Vec<StyledCell>> = Vec::new();
        let mut selected: Option<i32> = None;
        let mut n: usize = 0;
        while n < count
            invariant
                n <= count,
                count == shown_count(total as int, offset as int, height as int),
                offset == clip.zoom.vertical.position,
                total == self.lines@.len(),
                self.clippable(*clip),
                rows_view(rows@) == Seq::new(n as nat,
                    |k: int| tree_row(*self, *clip, *styles, occurrences@, bookmarks.spec_marks(), offset + k)),
                selected == match clip.selected_lineno {
                    Some(sel) => if offset <= sel < offset + n { Some(self.lines@[sel as int].pid) } else { None },
                    None => None,
                },
            decreases count - n,
        {
            let index = offset + n;
            let line = &self.lines[index];
            let status = match clip.selected_lineno {
                Some(lineno) if lineno == index => {
                    selected = Some(line.pid);
                    PidStatus::Selected
                },
                _ => pid_status(occurrences, bookmarks, line.pid),
            };
            let name = indent_name(line.name.as_str(), self.indents[index]);
            let mut row: Vec<StyledCell> = Vec::new();
            row.push(plain_cell(name.as_str(), Alignment::Left, styles.name_style(status)));
            let pid_text = i32_string(line.pid);
            row.push(plain_cell(pid_text.as_str(), Alignment::Right, style(None, None, false, false, false)));
            let state_text = string_from_chars(&[line.state]);
            row.push(plain_cell(state_text.as_str(), Alignment::Right, style(None, None, false, false, false)));
            proof {
                assert(seq![line.state] =~= [line.state]@);
            }
            let ghost fixed = row_view(row);
            let values = clipped_line_values(clip, line.samples.as_slice(), styles);
            let mut v = values;
            row.append(&mut v);
            let ghost expected = tree_row(*self, *clip, *styles, occurrences@, bookmarks.spec_marks(), index as int);
            assert(row_view(row) =~= expected);
            let ghost before = rows@;
            let ghost this_row = row_view(row);
            rows.push(row);
            assert(rows_view(rows@) =~= rows_view(before).push(this_row));
            assert(rows_view(rows@) =~= Seq::new((n + 1) as nat,
                |k: int| tree_row(*self, *clip, *styles, occurrences@, bookmarks.spec_marks(), offset + k)));
            n = n + 1;
        }
        (rows, selected)
    }
}

/// A name after its indentation.
fn indent_name(name: &str, indent: usize) -> (s: String)
    requires
        indent + utf8_len(name@) <= usize::MAX,
    ensures
        s@ == indented_name(name@, indent as int),
{
    let chars = crate::strings::str_chars(name);
    let width = indent + str_len(name);
    let mut v: Vec<char> = Vec::new();
    let mut k: usize = 0;
    let pad = if width > chars.len() { width - chars.len() } else { 0 };
    while k < pad
        invariant
            k <= pad,
            v@ == spaces(k as nat),
        decreases pad - k,
    {
        v.push(' ');
        assert(v@ =~= spaces((k + 1) as nat));
        k = k + 1;
    }
    let mut rest = chars;
    v.append(&mut rest);
    string_from_chars(v.as_slice())
}

/// The visible parts of the values of a line, right aligned, in the style
/// of their trend.
fn clipped_line_values(clip: &TableClip, samples: &[SampleText], styles: &Styles) -> (r: Vec<StyledCell>)
    requires
        clip.clip_ready(line_cells(samples@).len() as int),
    ensures
        row_view(r) == clipped_values(*clip, line_cells(samples@), *styles, line_cells(samples@).len()),
{
    let ghost all = line_cells(samples@);
    let mut r: Vec<StyledCell> = Vec::new();
    let mut colnum: usize = 0;
    let mut s: usize = 0;
    while s < samples.len()
        invariant
            s <= samples@.len(),
            all == line_cells(samples@),
            clip.clip_ready(all.len() as int),
            colnum == line_cells(samples@.take(s as int)).len(),
            line_cells(samples@.take(s as int)) == all.take(colnum as int),
            row_view(r) == clipped_values(*clip, all, *styles, colnum as nat),
        decreases samples@.len() - s,
    {
        let sample = &samples[s];
        let n = if sample.strings.len() < sample.trends.len() { sample.strings.len() } else { sample.trends.len() };
        proof {
            lemma_line_cells_prefix(samples@, s as int);
        }
        let mut j: usize = 0;
        while j < n
            invariant
                j <= n,
                n == sample_cells(*sample).len(),
                *sample == samples@[s as int],
                all == line_cells(samples@),
                clip.clip_ready(all.len() as int),
                line_cells(samples@.take(s as int)) + sample_cells(*sample) == all.take((line_cells(samples@.take(s as int)).len() + n) as int),
                colnum == line_cells(samples@.take(s as int)).len() + j,
                colnum + (n - j) <= all.len(),
                row_view(r) == clipped_values(*clip, all, *styles, colnum as nat),
            decreases n - j,
        {
            proof {
                let pre = line_cells(samples@.take(s as int));
                assert((pre + sample_cells(*sample))[colnum as int] == sample_cells(*sample)[j as int]);
                assert(all.take((pre.len() + n) as int)[colnum as int] == all[colnum as int]);
            }
            assert(clip.ranges@[colnum as int].0 <= clip.ranges@[colnum as int].1);
            let text = clip.clip_cell(colnum, sample.strings[j].as_str(), Alignment::Right);
            let ghost before = r@;
            match text {
                Some(t) => {
                    let st = styles.trend_style(sample.trends[j]);
                    r.push(StyledCell { text: t, style: st });
                    assert(row_view(r) =~= row_view_of(before).push(cell_view(r@.last())));
                },
                None => {},
            }
            colnum = colnum + 1;
            j = j + 1;
        }
        proof {
            assert(samples@.take(s + 1).drop_last() =~= samples@.take(s as int));
        }
        s = s + 1;
    }
    assert(samples@.take(samples@.len() as int) =~= samples@);
    r
}

/// What the cells of a sequence show.
pub open spec fn row_view_of(cells: Seq<StyledCell>) -> Seq<(Seq<Seq<char>>, Alignment, Style)> {
    cells.map_values(|c: StyledCell| cell_view(c))
}

/// The values of the first samples of a line come first among its values.
proof fn lemma_line_cells_prefix(samples: Seq<SampleText>, s: int)
    requires
        0 <= s < samples.len(),
    ensures
        line_cells(samples.take(s)) + sample_cells(samples[s])
            == line_cells(samples).take((line_cells(samples.take(s)).len() + sample_cells(samples[s]).len()) as int),
        line_cells(samples.take(s)).len() + sample_cells(samples[s]).len() <= line_cells(samples).len(),
    decreases samples.len(),
{
    if s == samples.len() - 1 {
        assert(samples.drop_last() =~= samples.take(s));
        let t = line_cells(samples);
        assert(t.take(t.len() as int) =~= t);
    } else {
        lemma_line_cells_prefix(samples.drop_last(), s);
        assert(samples.drop_last().take(s) =~= samples.take(s));
        assert(samples.drop_last()[s] == samples[s]);
        let short = line_cells(samples.drop_last());
        let k = (line_cells(samples.take(s)).len() + sample_cells(samples[s]).len()) as int;
        assert(line_cells(samples).take(k) =~= short.take(k));
    }
}

/// The visible parts of the first `n` cells of a row, cell `c` being body
/// column `c` with its own alignment; the columns that cannot be seen are
/// left out.
pub open spec fn clipped_cells(clip: TableClip, cells: Seq<Seq<char>>, aligns: Seq<Alignment>, n: nat) -> Seq<(Seq<Seq<char>>, Alignment)>
    decreases n,
{
    if n == 0 {
        Seq::empty()
    } else {
        let rest = clipped_cells(clip, cells, aligns, (n - 1) as nat);
        match clip.clipped(n - 1, cells[n - 1], aligns[n - 1]) {
            Some(t) => rest.push(t),
            None => rest,
        }
    }
}

/// What texts show.
pub open spec fn texts_view(v: Seq<CellText>) -> Seq<(Seq<Seq<char>>, Alignment)> {
    v.map_values(|t: CellText| text_view(t))
}

/// The rows of a table visible in a clip, each with its visible cells.
pub open spec fn visible_rows(clip: TableClip, rows: Seq<Seq<Seq<char>>>, aligns: Seq<Alignment>) -> Seq<Seq<(Seq<Seq<char>>, Alignment)>> {
    let offset = clip.zoom.vertical.position as int;
    Seq::new(shown_count(rows.len() as int, offset, clip.zoom.vertical.visible_length as int) as nat,
        |n: int| clipped_cells(clip, rows[offset + n], aligns, aligns.len()))
}

/// The visible cells of a row.
fn clip_row(clip: &TableClip, cells: &[String], aligns: &[Alignment]) -> (r: Vec<CellText>)
    requires
        aligns@.len() <= cells@.len(),
        clip.clip_ready(aligns@.len() as int),
    ensures
        texts_view(r@) == clipped_cells(*clip, strings_view(cells@), aligns@, aligns@.len()),
{
    let mut r: Vec<CellText> = Vec::new();
    let mut c: usize = 0;
    while c < aligns.len()
        invariant
            c <= aligns@.len() <= cells@.len(),
            clip.clip_ready(aligns@.len() as int),
            texts_view(r@) == clipped_cells(*clip, strings_view(cells@), aligns@, c as nat),
        decreases aligns@.len() - c,
    {
        assert(clip.ranges@[c as int].0 <= clip.ranges@[c as int].1);
        let cell = clip.clip_cell(c, cells[c].as_str(), aligns[c]);
        assert(strings_view(cells@)[c as int] == cells@[c as int]@);
        let ghost before = r@;
        match cell {
            Some(t) => {
                r.push(t);
                assert(texts_view(r@) =~= texts_view(before).push(text_view(t)));
            },
            None => {},
        }
        c = c + 1;
    }
    r
}

/// The visible rows of a table.
fn clip_rows(clip: &TableClip, rows: &[Vec<String>], aligns: &[Alignment]) -> (r: Vec<Vec<CellText>>)
    requires
        forall|i: int| 0 <= i < rows@.len() ==> aligns@.len() <= (#[trigger] rows@[i])@.len(),
        clip.clip_ready(aligns@.len() as int),
    ensures
        r@.map_values(|row: Vec<CellText>| texts_view(row@))
            == visible_rows(*clip, rows@.map_values(|row: Vec<String>| strings_view(row@)), aligns@),
{
    let ghost views = rows@.map_values(|row: Vec<String>| strings_view(row@));
    let offset = clip.zoom.vertical.position;
    let height = clip.zoom.vertical.visible_length;
    let total = rows.len();
    let count = if offset >= total { 0 } else if total - offset < height { total - offset } else { height };
    let mut r: Vec<Vec<CellText>> = Vec::new();
    let mut n: usize = 0;
    while n < count
        invariant
            n <= count,
            count == shown_count(total as int, offset as int, height as int),
            offset == clip.zoom.vertical.position,
            total == rows@.len(),
            views == rows@.map_values(|row: Vec<String>| strings_view(row@)),
            forall|i: int| 0 <= i < rows@.len() ==> aligns@.len() <= (#[trigger] rows@[i])@.len(),
            clip.clip_ready(aligns@.len() as int),
            r@.map_values(|row: Vec<CellText>| texts_view(row@)) == Seq::new(n as nat,
                |k: int| clipped_cells(*clip, views[offset + k], aligns@, aligns@.len())),
        decreases count - n,
    {
        let row = clip_row(clip, rows[offset + n].as_slice(), aligns);
        assert(views[offset + n] == strings_view(rows@[offset + n]@));
        let ghost before = r@;
        let ghost rv = texts_view(row@);
        r.push(row);
        assert(r@.map_values(|row: Vec<CellText>| texts_view(row@)) =~= before.map_values(|row: Vec<CellText>| texts_view(row@)).push(rv));
        assert(r@.map_values(|row: Vec<CellText>| texts_view(row@)) =~= Seq::new((n + 1) as nat,
            |k: int| clipped_cells(*clip, views[offset + k], aligns@, aligns@.len())));
        n = n + 1;
    }
    r
}

/// What a file descriptor refers to.
pub enum FileTarget {
    Path(String),
    Socket(u64),
    Net(u64),
    Pipe(u64),
    AnonInode(String),
    MemFD(String),
    Other(String, u64),
    Unknown(String, String),
}

/// An open file of a process: its number, its permission bits and what it
/// refers to.
pub struct FileDescriptor {
    pub fd: i32,
    pub mode: u16,
    pub target: FileTarget,
}

/// Kind of a file descriptor target.
pub open spec fn target_kind_name(t: FileTarget) -> Seq<char> {
    match t {
        FileTarget::Path(_) => "file"@,
        FileTarget::Socket(_) => "socket"@,
        FileTarget::Net(_) => "net"@,
        FileTarget::Pipe(_) => "pipe"@,
        FileTarget::AnonInode(_) => "inode"@,
        FileTarget::MemFD(_) => "memfd"@,
        FileTarget::Other(_, _) => "other"@,
        FileTarget::Unknown(_, _) => "other"@,
    }
}

/// Name of a file descriptor target.
pub open spec fn target_text(t: FileTarget) -> Seq<char> {
    match t {
        FileTarget::Path(p) => p@,
        FileTarget::Socket(v) => decimal(v as nat),
        FileTarget::Net(v) => decimal(v as nat),
        FileTarget::Pipe(v) => decimal(v as nat),
        FileTarget::AnonInode(s) => s@,
        FileTarget::MemFD(s) => s@,
        FileTarget::Other(s, n) => s@ + seq!['['] + decimal(n as nat) + seq![']'],
        FileTarget::Unknown(s, d) => s@ + seq!['['] + d@ + seq![']'],
    }
}

/// Kind of a file descriptor target.
pub fn target_kind(t: &FileTarget) -> (s: &'static str)
    ensures
        s@ == target_kind_name(*t),
{
    match t {
        FileTarget::Path(_) => "file",
        FileTarget::Socket(_) => "socket",
        FileTarget::Net(_) => "net",
        FileTarget::Pipe(_) => "pipe",
        FileTarget::AnonInode(_) => "inode",
        FileTarget::MemFD(_) => "memfd",
        FileTarget::Other(_, _) => "other",
        FileTarget::Unknown(_, _) => "other",
    }
}

/// Name of a file descriptor target.
pub fn target_to_string(t: &FileTarget) -> (s: String)
    ensures
        s@ == target_text(*t),
{
    match t {
        FileTarget::Path(p) => p.clone(),
        FileTarget::Socket(v) => u64_string(*v),
        FileTarget::Net(v) => u64_string(*v),
        FileTarget::Pipe(v) => u64_string(*v),
        FileTarget::AnonInode(s) => s.clone(),
        FileTarget::MemFD(s) => s.clone(),
        FileTarget::Other(s, n) => {
            let mut r = s.clone();
            push_char(&mut r, '[');
            push_decimal(&mut r, *n);
            push_char(&mut r, ']');
            assert(r@ =~= target_text(*t));
            r
        },
        FileTarget::Unknown(s, d) => {
            let mut r = s.clone();
            push_char(&mut r, '[');
            push_str(&mut r, d.as_str());
            push_char(&mut r, ']');
            assert(r@ =~= target_text(*t));
            r
        },
    }
}

/// The cells of an open file: its number, its permissions of the owner
/// (the mode shifted by six bits, shown as `rwx`), its kind and its name; an
/// error takes the last cell.
pub open spec fn file_row(f: Result<FileDescriptor, String>) -> Seq<Seq<char>> {
    match f {
        Ok(fi) => seq![
            int_decimal(fi.fd as int),
            Seq::new(3, |i: int| mask_char((fi.mode >> 6u16) as u64, "rwx"@, i)),
            target_kind_name(fi.target),
            target_text(fi.target),
        ],
        Err(e) => seq![Seq::empty(), Seq::empty(), Seq::empty(), e@],
    }
}

/// Width of a column: its longest cell and its title, in bytes, as `u16`.
pub open spec fn column_width(rows: Seq<Seq<Seq<char>>>, c: int, title: Seq<char>) -> u16 {
    let cells = rows.map_values(|r: Seq<Seq<char>>| r[c]);
    let m = crate::display::term::tables::max_line_len(cells) as u16;
    let t = utf8_len(title) as u16;
    if m < t { t } else { m }
}

/// Table of the open files of a process.
pub struct FilesTable {
    pub files: Vec<Vec<String>>,
    pub widths: Vec<u16>,
}

/// Titles of the files table.
pub open spec fn file_titles() -> Seq<Seq<char>> {
    seq!["Fd"@, "Mode"@, "Kind"@, "Name"@]
}

/// Widths of the columns of some rows under titles.
fn widths_of(rows: &[Vec<String>], titles: &[&str]) -> (w: Vec<u16>)
    requires
        forall|i: int| 0 <= i < rows@.len() ==> titles@.len() <= (#[trigger] rows@[i])@.len(),
    ensures
        w@ == Seq::new(titles@.len(), |c: int| column_width(
            rows@.map_values(|r: Vec<String>| strings_view(r@)), c, titles@[c]@)),
{
    let ghost views = rows@.map_values(|r: Vec<String>| strings_view(r@));
    let mut w: Vec<u16> = Vec::new();
    let mut c: usize = 0;
    while c < titles.len()
        invariant
            c <= titles@.len(),
            views == rows@.map_values(|r: Vec<String>| strings_view(r@)),
            forall|i: int| 0 <= i < rows@.len() ==> titles@.len() <= (#[trigger] rows@[i])@.len(),
            w@ == Seq::new(c as nat, |k: int| column_width(views, k, titles@[k]@)),
        decreases titles@.len() - c,
    {
        let ghost cells = views.map_values(|r: Seq<Seq<char>>| r[c as int]);
        let mut m: usize = 0;
        let mut i: usize = 0;
        while i < rows.len()
            invariant
                i <= rows@.len(),
                c < titles@.len(),
                views == rows@.map_values(|r: Vec<String>| strings_view(r@)),
                forall|j: int| 0 <= j < rows@.len() ==> titles@.len() <= (#[trigger] rows@[j])@.len(),
                cells == views.map_values(|r: Seq<Seq<char>>| r[c as int]),
                m == max_line_len(cells.take(i as int)),
            decreases rows@.len() - i,
        {
            assert(cells.take(i + 1).drop_last() =~= cells.take(i as int));
            assert(cells[i as int] == rows@[i as int]@[c as int]@);
            let l = str_len(rows[i][c].as_str());
            if l > m {
                m = l;
            }
            i = i + 1;
        }
        assert(cells.take(rows@.len() as int) =~= cells);
        let t = str_len(titles[c]);
        let mw: u16 = #[verifier::truncate] (m as u16);
        let tw: u16 = #[verifier::truncate] (t as u16);
        w.push(if mw < tw { tw } else { mw });
        assert(w@ =~= Seq::new((c + 1) as nat, |k: int| column_width(views, k, titles@[k]@)));
        c = c + 1;
    }
    w
}

impl FilesTable {
    /// The table of some open files, or errors met reading them.
    pub fn new(files: &[Result<FileDescriptor, String>]) -> (t: Self)
        ensures
            t.files@.map_values(|r: Vec<String>| strings_view(r@)) == files@.map_values(|f: Result<FileDescriptor, String>| file_row(f)),
            t.widths@ == Seq::new(4, |c: int| column_width(files@.map_values(|f: Result<FileDescriptor, String>| file_row(f)), c, file_titles()[c])),
    {
        let mut rows: Vec<Vec<String>> = Vec::new();
        let mut i: usize = 0;
        while i < files.len()
            invariant
                i <= files@.len(),
                rows@.map_values(|r: Vec<String>| strings_view(r@))
                    == files@.take(i as int).map_values(|f: Result<FileDescriptor, String>| file_row(f)),
                forall|k: int| 0 <= k < rows@.len() ==> (#[trigger] rows@[k])@.len() == 4,
            decreases files@.len() - i,
        {
            let row: Vec<String> = match &files[i] {
                Ok(fi) => {
                    proof { reveal_strlit("rwx"); }
                    let mode = bits_to_string((fi.mode >> 6u16) as u64, "rwx");
                    vec![i32_string(fi.fd), mode, to_string(target_kind(&fi.target)), target_to_string(&fi.target)]
                },
                Err(e) => vec![String::new(), String::new(), String::new(), e.clone()],
            };
            assert(strings_view(row@) =~= file_row(files@[i as int]));
            let ghost before = rows@;
            let ghost rv = strings_view(row@);
            rows.push(row);
            assert(rows@.map_values(|r: Vec<String>| strings_view(r@))
                =~= before.map_values(|r: Vec<String>| strings_view(r@)).push(rv));
            assert(files@.take(i + 1).map_values(|f: Result<FileDescriptor, String>| file_row(f))
                =~= files@.take(i as int).map_values(|f: Result<FileDescriptor, String>| file_row(f)).push(file_row(files@[i as int])));
            assert(rows@.map_values(|r: Vec<String>| strings_view(r@))
                =~= files@.take(i + 1).map_values(|f: Result<FileDescriptor, String>| file_row(f)));
            i = i + 1;
        }
        assert(files@.take(files@.len() as int) =~= files@);
        let titles = ["Fd", "Mode", "Kind", "Name"];
        let widths = widths_of(rows.as_slice(), &titles);
        proof {
            assert(titles@.len() == 4);
            assert forall|c: int| 0 <= c < 4 implies titles@[c]@ == file_titles()[c] by {}
        }
        assert(widths@ =~= Seq::new(4, |c: int| column_width(files@.map_values(|f: Result<FileDescriptor, String>| file_row(f)), c, file_titles()[c])));
        FilesTable { files: rows, widths }
    }

    /// The visible rows: the number on the right, the rest on the left.
    pub fn rows(&self, clip: &TableClip) -> (r: Vec<Vec<CellText>>)
        requires
            forall|i: int| 0 <= i < self.files@.len() ==> (#[trigger] self.files@[i])@.len() >= 4,
            clip.clip_ready(4),
        ensures
            r@.map_values(|row: Vec<CellText>| texts_view(row@)) == visible_rows(*clip,
                self.files@.map_values(|row: Vec<String>| strings_view(row@)),
                seq![Alignment::Right, Alignment::Left, Alignment::Left, Alignment::Left]),
    {
        let aligns = [Alignment::Right, Alignment::Left, Alignment::Left, Alignment::Left];
        assert(aligns@ =~= seq![Alignment::Right, Alignment::Left, Alignment::Left, Alignment::Left]);
        clip_rows(clip, self.files.as_slice(), &aligns)
    }
}

/// What a memory mapping holds.
pub enum MapPath {
    Path(String),
    Heap,
    Stack,
    TStack(u32),
    Vdso,
    Vvar,
    Vsyscall,
    Rollup,
    Anonymous,
    Vsys(i32),
    Other(String),
}

/// A memory mapping of a process.
pub struct MemoryMap {
    pub address: (u64, u64),
    pub perms: u8,
    pub offset: u64,
    pub dev: (i32, i32),
    pub inode: u64,
    pub pathname: MapPath,
}

/// Name of what a mapping holds.
pub open spec fn map_path_text(p: MapPath) -> Seq<char> {
    match p {
        MapPath::Path(s) => s@,
        MapPath::Heap => "[heap]"@,
        MapPath::Stack => "[stack]"@,
        MapPath::TStack(tid) => "[tstack:"@ + decimal(tid as nat) + "]"@,
        MapPath::Vdso => "[vdso]"@,
        MapPath::Vvar => "[vvar]"@,
        MapPath::Vsyscall => "[vsyscall]"@,
        MapPath::Rollup => "[rollup]"@,
        MapPath::Anonymous => "[anon]"@,
        MapPath::Vsys(key) => "[vsys:"@ + int_decimal(key as int) + "]"@,
        MapPath::Other(name) => "[other:"@ + name@ + "]"@,
    }
}

/// Hexadecimal digits of a number, padded with a zero to two at least.
pub open spec fn hex2(n: nat) -> Seq<char> {
    if hex(n).len() < 2 { seq!['0'] + hex(n) } else { hex(n) }
}

/// The cells of a mapping: the address range, the permissions as `rwxsp`,
/// the offset, the device, the inode and what it holds. A device number is
/// printed in hexadecimal from its bits.
pub open spec fn map_row(m: MemoryMap) -> Seq<Seq<char>> {
    seq![
        hex(m.address.0 as nat) + seq!['-'] + hex(m.address.1 as nat),
        Seq::new(5, |i: int| mask_char(m.perms as u64, "rwxsp"@, i)),
        decimal(m.offset as nat),
        hex2(m.dev.0 as u32 as nat) + seq![':'] + hex2(m.dev.1 as u32 as nat),
        decimal(m.inode as nat),
        map_path_text(m.pathname),
    ]
}

/// Titles of the maps table.
pub open spec fn map_titles() -> Seq<Seq<char>> {
    seq!["Address"@, "Mode"@, "Offset"@, "Device"@, "Inode"@, "Path"@]
}

fn hex_digit_of(d: u64) -> (c: char)
    requires
        d < 16,
    ensures
        c == hex_digit(d as nat),
{
    if d < 10 {
        crate::strings::digit(d)
    } else if d == 10 {
        'a'
    } else if d == 11 {
        'b'
    } else if d == 12 {
        'c'
    } else if d == 13 {
        'd'
    } else if d == 14 {
        'e'
    } else {
        'f'
    }
}

/// Hexadecimal digits of a number.
fn push_hex(s: &mut String, n: u64)
    ensures
        final(s)@ == old(s)@ + hex(n as nat),
    decreases n,
{
    if n < 16 {
        push_char(s, hex_digit_of(n));
        assert(hex(n as nat) =~= seq![hex_digit(n as nat)]);
    } else {
        push_hex(s, n / 16);
        push_char(s, hex_digit_of(n % 16));
    }
}

/// Hexadecimal digits of a number, at least two.
fn push_hex2(s: &mut String, n: u64)
    ensures
        final(s)@ == old(s)@ + hex2(n as nat),
{
    if n < 16 {
        push_char(s, '0');
        assert(hex(n as nat).len() == 1);
    } else {
        assert(hex(n as nat).len() >= 2) by {
            assert(hex(n as nat) == hex((n / 16) as nat).push(hex_digit((n % 16) as nat)));
        }
    }
    push_hex(s, n);
    assert(s@ =~= old(s)@ + hex2(n as nat));
}

/// Name of what a mapping holds.
fn map_path_to_string(p: &MapPath) -> (s: String)
    ensures
        s@ == map_path_text(*p),
{
    let mut s = String::new();
    match p {
        MapPath::Path(path) => push_str(&mut s, path.as_str()),
        MapPath::Heap => push_str(&mut s, "[heap]"),
        MapPath::Stack => push_str(&mut s, "[stack]"),
        MapPath::TStack(tid) => {
            push_str(&mut s, "[tstack:");
            push_decimal(&mut s, *tid as u64);
            push_str(&mut s, "]");
        },
        MapPath::Vdso => push_str(&mut s, "[vdso]"),
        MapPath::Vvar => push_str(&mut s, "[vvar]"),
        MapPath::Vsyscall => push_str(&mut s, "[vsyscall]"),
        MapPath::Rollup => push_str(&mut s, "[rollup]"),
        MapPath::Anonymous => push_str(&mut s, "[anon]"),
        MapPath::Vsys(key) => {
            push_str(&mut s, "[vsys:");
            let k = i32_string(*key);
            push_str(&mut s, k.as_str());
            push_str(&mut s, "]");
        },
        MapPath::Other(name) => {
            push_str(&mut s, "[other:");
            push_str(&mut s, name.as_str());
            push_str(&mut s, "]");
        },
    }
    assert(s@ =~= map_path_text(*p));
    s
}

/// Table of the memory mappings of a process.
pub struct MapsTable {
    pub maps: Vec<Vec<String>>,
    pub widths: Vec<u16>,
}

impl MapsTable {
    /// The table of some mappings.
    pub fn new(maps: &[MemoryMap]) -> (t: Self)
        ensures
            t.maps@.map_values(|r: Vec<String>| strings_view(r@)) == maps@.map_values(|m: MemoryMap| map_row(m)),
            t.widths@ == Seq::new(6, |c: int| column_width(maps@.map_values(|m: MemoryMap| map_row(m)), c, map_titles()[c])),
    {
        let mut rows: Vec<Vec<String>> = Vec::new();
        let mut i: usize = 0;
        while i < maps.len()
            invariant
                i <= maps@.len(),
                rows@.map_values(|r: Vec<String>| strings_view(r@))
                    == maps@.take(i as int).map_values(|m: MemoryMap| map_row(m)),
                forall|k: int| 0 <= k < rows@.len() ==> (#[trigger] rows@[k])@.len() == 6,
            decreases maps@.len() - i,
        {
            let m = &maps[i];
            let mut address = String::new();
            push_hex(&mut address, m.address.0);
            push_char(&mut address, '-');
            push_hex(&mut address, m.address.1);
            proof { reveal_strlit("rwxsp"); }
            let perms = bits_to_string(m.perms as u64, "rwxsp");
            let mut dev = String::new();
            push_hex2(&mut dev, m.dev.0 as u32 as u64);
            push_char(&mut dev, ':');
            push_hex2(&mut dev, m.dev.1 as u32 as u64);
            let ghost av = address@;
            let ghost pv = perms@;
            let ghost dv = dev@;
            let row: Vec<String> = vec![
                address,
                perms,
                u64_string(m.offset),
                dev,
                u64_string(m.inode),
                map_path_to_string(&m.pathname),
            ];
            assert(av =~= map_row(*m)[0]);
            assert(pv =~= map_row(*m)[1]);
            assert(dv =~= map_row(*m)[3]);
            assert(strings_view(row@) =~= map_row(maps@[i as int]));
            let ghost before = rows@;
            let ghost rv = strings_view(row@);
            rows.push(row);
            assert(rows@.map_values(|r: Vec<String>| strings_view(r@))
                =~= before.map_values(|r: Vec<String>| strings_view(r@)).push(rv));
            assert(maps@.take(i + 1).map_values(|m: MemoryMap| map_row(m))
                =~= maps@.take(i as int).map_values(|m: MemoryMap| map_row(m)).push(map_row(maps@[i as int])));
            i = i + 1;
        }
        assert(maps@.take(maps@.len() as int) =~= maps@);
        let titles = ["Address", "Mode", "Offset", "Device", "Inode", "Path"];
        let widths = widths_of(rows.as_slice(), &titles);
        assert(widths@ =~= Seq::new(6, |c: int| column_width(maps@.map_values(|m: MemoryMap| map_row(m)), c, map_titles()[c])));
        MapsTable { maps: rows, widths }
    }

    /// The visible rows: numbers on the right, the rest on the left.
    pub fn rows(&self, clip: &TableClip) -> (r: Vec<Vec<CellText>>)
        requires
            forall|i: int| 0 <= i < self.maps@.len() ==> (#[trigger] self.maps@[i])@.len() >= 6,
            clip.clip_ready(6),
        ensures
            r@.map_values(|row: Vec<CellText>| texts_view(row@)) == visible_rows(*clip,
                self.maps@.map_values(|row: Vec<String>| strings_view(row@)),
                seq![Alignment::Left, Alignment::Left, Alignment::Right, Alignment::Right, Alignment::Right, Alignment::Left]),
    {
        let aligns = [Alignment::Left, Alignment::Left, Alignment::Right, Alignment::Right, Alignment::Right, Alignment::Left];
        assert(aligns@ =~= seq![Alignment::Left, Alignment::Left, Alignment::Right, Alignment::Right, Alignment::Right, Alignment::Left]);
        clip_rows(clip, self.maps.as_slice(), &aligns)
    }
}

} // verus!
