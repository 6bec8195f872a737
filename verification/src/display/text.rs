//! Scrolling text display: an endless table printed line after line.
//!
//! The table decides the width of its columns, when its header is repeated
//! and what each line holds; printing the lines is left to the caller.

use vstd::prelude::*;
use vstd::utf8::encode_utf8;
use crate::agg::Aggregation;
use crate::console::charset::{repeat_seq, table_char, TableChar, TableCharSet};
use crate::metrics::{computed_metrics, metric_name, metric_short_name, metric_views, spec_computed_metrics, FormattedMetric, MetricId};
use crate::strings::{decimal, push_decimal};
use crate::strings::{push_char, push_str, str_chars, to_string};

verus! {

/// Number of value lines after which the header is printed again.
pub const REPEAT_HEADER_EVERY: u16 = 20;

/// Columns may shrink by this many characters before the table is resized.
pub const RESIZE_IF_COLUMNS_SHRINK: usize = 2;

/// Space between the vertical lines and the text.
pub const VERTICAL_PADDING: usize = 0;

/// Quotient and remainder of a division.
pub fn divide(numerator: usize, denominator: usize) -> (r: (usize, usize))
    requires
        denominator > 0,
    ensures
        r.0 == numerator / denominator,
        r.1 == numerator % denominator,
{
    let quotient = numerator / denominator;
    assert(quotient * denominator <= numerator) by (nonlinear_arith)
        requires
            quotient == numerator / denominator,
            denominator > 0,
    ;
    (quotient, numerator - quotient * denominator)
}

/// Length in bytes of the UTF-8 encoding of a text, as `str::len` gives it.
pub open spec fn blen(s: Seq<char>) -> usize {
    encode_utf8(s).len() as usize
}

/// `n` spaces.
pub open spec fn spaces(n: nat) -> Seq<char> {
    Seq::new(n, |_i: int| ' ')
}

/// A text centered in a field of `width` characters, the extra space on
/// the right; a text at least as wide as the field is left alone.
pub open spec fn centered(text: Seq<char>, width: nat) -> Seq<char> {
    if text.len() >= width {
        text
    } else {
        let pad = (width - text.len()) as nat;
        spaces(pad / 2) + text + spaces((pad - pad / 2) as nat)
    }
}

/// A vertical line, then a text centered between paddings.
pub open spec fn cell(vline: Seq<char>, pad: Seq<char>, text: Seq<char>, width: nat) -> Seq<char> {
    vline + pad + centered(text, width) + pad
}

/// Cells of a list of texts, side by side.
pub open spec fn cells(vline: Seq<char>, pad: Seq<char>, texts: Seq<Seq<char>>, width: nat) -> Seq<char>
    decreases texts.len(),
{
    if texts.len() == 0 {
        Seq::empty()
    } else {
        cells(vline, pad, texts.drop_last(), width) + cell(vline, pad, texts.last(), width)
    }
}

/// Separator before column `i` of a horizontal rule.
pub open spec fn rule_separator(i: nat, subtitle_count: nat, left: Seq<char>, middle_title: Seq<char>, middle_subtitle: Seq<char>) -> Seq<char> {
    if i == 0 {
        left
    } else if i % subtitle_count == 0 {
        middle_title
    } else {
        middle_subtitle
    }
}

/// The first `n` columns of a horizontal rule.
pub open spec fn rule_columns(
    n: nat,
    subtitle_count: nat,
    left: Seq<char>,
    middle_title: Seq<char>,
    middle_subtitle: Seq<char>,
    column_rule: Seq<char>,
) -> Seq<char>
    decreases n,
{
    if n == 0 {
        Seq::empty()
    } else {
        rule_columns((n - 1) as nat, subtitle_count, left, middle_title, middle_subtitle, column_rule)
            + rule_separator((n - 1) as nat, subtitle_count, left, middle_title, middle_subtitle)
            + column_rule
    }
}

/// A sub-title with a name and a short name.
pub struct SubTitle {
    pub name: &'static str,
    pub short_name: Option<&'static str>,
}

/// Information to close a table.
pub struct HorizontalRule {
    pub title_count: usize,
    pub subtitle_count: usize,
    pub column_rule: String,
}

impl View for HorizontalRule {
    type V = (nat, nat, Seq<char>);

    open spec fn view(&self) -> (nat, nat, Seq<char>) {
        (self.title_count as nat, self.subtitle_count as nat, self.column_rule@)
    }
}

/// A horizontal rule line of the table, with the given corners.
pub open spec fn rule_line(h: (nat, nat, Seq<char>), left: Seq<char>, middle_title: Seq<char>, middle_subtitle: Seq<char>, right: Seq<char>) -> Seq<char> {
    rule_columns((h.0 * h.1) as nat, h.1, left, middle_title, middle_subtitle, h.2) + right
}

/// Text shown for a sub-title in a column: its short name when its name is
/// wider than the column.
pub open spec fn subtitle_text(s: SubTitle, column_width: nat) -> Seq<char> {
    if blen(s.name@) > column_width {
        match s.short_name {
            Some(n) => n@,
            None => s.name@,
        }
    } else {
        s.name@
    }
}

/// Width a sub-title asks for: its short name if it has one.
pub open spec fn subtitle_width(s: SubTitle) -> nat {
    match s.short_name {
        Some(n) => blen(n@) as nat,
        None => blen(s.name@) as nat,
    }
}

/// Column width needed to show a title over `subtitle_count` columns
/// separated by one character.
pub open spec fn title_column_width(title: Seq<char>, subtitle_count: nat) -> nat {
    let n = (blen(title) - (subtitle_count - 1)) as nat;
    n / subtitle_count + if n % subtitle_count > 0 { 1nat } else { 0nat }
}

/// Largest of `start` and the values.
pub open spec fn seq_max(start: nat, s: Seq<nat>) -> nat
    decreases s.len(),
{
    if s.len() == 0 {
        start
    } else {
        let m = seq_max(start, s.drop_last());
        if s.last() > m {
            s.last()
        } else {
            m
        }
    }
}

/// Print an endless table.
pub struct Table {
    pub titles: Vec<String>,
    pub subtitles: Vec<SubTitle>,
    pub values: Vec<String>,
    pub title_count: usize,
    pub title_width: usize,
    pub column_width: usize,
    pub repeat: u16,
    pub hrule: Option<HorizontalRule>,
    pub charset: TableCharSet,
    pub vertical_padding: String,
}

/// Texts of a list of strings.
pub open spec fn texts(v: Seq<String>) -> Seq<Seq<char>> {
    v.map_values(|s: String| s@)
}

/// What a table is made of.
#[verifier::ext_equal]
pub struct TableView {
    pub titles: Seq<Seq<char>>,
    pub subtitles: Seq<SubTitle>,
    pub values: Seq<Seq<char>>,
    pub title_count: nat,
    pub title_width: nat,
    pub column_width: nat,
    pub repeat: nat,
    pub hrule: Option<(nat, nat, Seq<char>)>,
    pub unicode: bool,
    pub padding: Seq<char>,
}

impl View for Table {
    type V = TableView;

    open spec fn view(&self) -> TableView {
        TableView {
            titles: texts(self.titles@),
            subtitles: self.subtitles@,
            values: texts(self.values@),
            title_count: self.title_count as nat,
            title_width: self.title_width as nat,
            column_width: self.column_width as nat,
            repeat: self.repeat as nat,
            hrule: match self.hrule {
                Some(h) => Some(h@),
                None => None,
            },
            unicode: self.charset.is_unicode(),
            padding: self.vertical_padding@,
        }
    }
}

/// Texts shown for the sub-titles in columns of the given width.
pub open spec fn subtitle_texts(subtitles: Seq<SubTitle>, column_width: nat) -> Seq<Seq<char>> {
    subtitles.map_values(|s: SubTitle| subtitle_text(s, column_width))
}

impl TableView {
    /// A drawing character of the table.
    pub open spec fn ch(self, kind: TableChar) -> Seq<char> {
        table_char(self.unicode, kind)@
    }

    /// The column width the titles, sub-titles and values need.
    pub open spec fn needed_width(self) -> nat {
        let sc = self.subtitles.len();
        let t = seq_max(0, self.titles.map_values(|s: Seq<char>| title_column_width(s, sc)));
        let st = seq_max(t, self.subtitles.map_values(|s: SubTitle| subtitle_width(s)));
        seq_max(st, self.values.map_values(|s: Seq<char>| blen(s) as nat))
    }

    /// What resizing asks: a sub-title, titles wide enough for the
    /// separators, and widths that fit.
    pub open spec fn can_resize(self) -> bool {
        let sc = self.subtitles.len();
        &&& sc > 0
        &&& forall|i: int| 0 <= i < self.titles.len() ==> blen(#[trigger] self.titles[i]) >= sc - 1
        &&& self.needed_width() * sc + sc - 1 <= usize::MAX
    }

    /// What drawing the header asks: sub-titles whose names do not fit in a
    /// column have a short name, and the rule's columns can be counted.
    pub open spec fn can_print_header(self) -> bool {
        &&& forall|i: int| 0 <= i < self.subtitles.len() && blen(#[trigger] self.subtitles[i].name@) > self.column_width
            ==> self.subtitles[i].short_name is Some
        &&& self.titles.len() * self.subtitles.len() <= usize::MAX
    }

    /// The table after resizing: new widths when columns grow or shrink by
    /// more than the tolerance, which also restarts the header rhythm.
    pub open spec fn resized(self) -> TableView {
        let w = self.needed_width();
        let sc = self.subtitles.len();
        if w > self.column_width || self.column_width - w > RESIZE_IF_COLUMNS_SHRINK {
            TableView {
                column_width: w,
                title_width: (w * sc + sc - 1) as nat,
                repeat: 0,
                ..self
            }
        } else {
            self
        }
    }

    /// The rule that closes the table, if it has started.
    pub open spec fn footer_lines(self) -> Seq<Seq<char>> {
        match self.hrule {
            Some(h) => seq![rule_line(h, self.ch(TableChar::UpRight), self.ch(TableChar::UpHorizontal),
                self.ch(TableChar::Horizontal), self.ch(TableChar::UpLeft))],
            None => Seq::empty(),
        }
    }

    /// The line of titles.
    pub open spec fn titles_line(self) -> Seq<char> {
        cells(self.ch(TableChar::VerticalInner), self.padding, self.titles, self.title_width)
            + self.ch(TableChar::VerticalInner)
    }

    /// The line of sub-titles, repeated under each title.
    pub open spec fn subtitles_line(self) -> Seq<char> {
        repeat_seq(
            cells(self.ch(TableChar::VerticalInner), self.padding,
                subtitle_texts(self.subtitles, self.column_width), self.column_width),
            self.title_count,
        ) + self.ch(TableChar::VerticalInner)
    }

    /// The line of values.
    pub open spec fn values_line(self) -> Seq<char> {
        cells(self.ch(TableChar::VerticalInner), self.padding, self.values, self.column_width)
            + self.ch(TableChar::VerticalInner)
    }

    /// The table once its header is drawn for columns of the given width.
    pub open spec fn with_header(self, column_width: nat) -> TableView {
        TableView {
            title_count: self.titles.len(),
            hrule: Some((
                self.titles.len(),
                self.subtitles.len(),
                repeat_seq(self.ch(TableChar::HorizontalInner), (column_width + 2 * VERTICAL_PADDING) as nat),
            )),
            ..self
        }
    }

    /// The lines of the header: the previous table closed, then a rule,
    /// the titles, a rule and the sub-titles.
    pub open spec fn header_lines(self, column_width: nat) -> Seq<Seq<char>> {
        let t = self.with_header(column_width);
        let h = t.hrule.unwrap();
        self.footer_lines() + seq![
            rule_line(h, t.ch(TableChar::DownRight), t.ch(TableChar::DownHorizontal),
                t.ch(TableChar::Horizontal), t.ch(TableChar::DownLeft)),
            t.titles_line(),
            rule_line(h, t.ch(TableChar::VerticalRight), t.ch(TableChar::VerticalHorizontal),
                t.ch(TableChar::DownHorizontal), t.ch(TableChar::VerticalLeft)),
            t.subtitles_line(),
        ]
    }

    /// Whether printing draws the header first.
    pub open spec fn prints_header(self, with_header: bool) -> bool {
        with_header || self.resized().repeat == 0
    }

    /// The table after a line of values is printed.
    pub open spec fn printed(self, with_header: bool) -> TableView {
        let r = self.resized();
        let t = if self.prints_header(with_header) { r.with_header(self.needed_width()) } else { r };
        TableView {
            repeat: if t.repeat + 1 >= REPEAT_HEADER_EVERY { 0 } else { t.repeat + 1 },
            ..t
        }
    }

    /// The lines printed for the current values: the header when asked for
    /// or due, then the values.
    pub open spec fn printed_lines(self, with_header: bool) -> Seq<Seq<char>> {
        let r = self.resized();
        if self.prints_header(with_header) {
            r.header_lines(self.needed_width()).push(r.with_header(self.needed_width()).values_line())
        } else {
            seq![r.values_line()]
        }
    }
}

/// Texts of a list of lines.
pub open spec fn lines_view(v: Seq<String>) -> Seq<Seq<char>> {
    texts(v)
}

impl Table {
    /// What every table keeps: its padding, and a rule whose column count fits.
    pub open spec fn wf(&self) -> bool {
        &&& self.vertical_padding@ == spaces(VERTICAL_PADDING as nat)
        &&& self.hrule matches Some(h) ==> h.title_count * h.subtitle_count <= usize::MAX
        &&& self.repeat < REPEAT_HEADER_EVERY
    }

    /// An empty table.
    pub fn new(charset: TableCharSet) -> (t: Table)
        ensures
            t.wf(),
            t@ == (TableView {
                titles: Seq::empty(),
                subtitles: Seq::empty(),
                values: Seq::empty(),
                title_count: 0,
                title_width: 0,
                column_width: 0,
                repeat: 0,
                hrule: None,
                unicode: charset.is_unicode(),
                padding: spaces(VERTICAL_PADDING as nat),
            }),
    {
        let mut vertical_padding = String::new();
        let mut i: usize = 0;
        while i < VERTICAL_PADDING
            invariant
                0 <= i <= VERTICAL_PADDING,
                vertical_padding@ == spaces(i as nat),
            decreases VERTICAL_PADDING - i,
        {
            push_char(&mut vertical_padding, ' ');
            assert(vertical_padding@ =~= spaces((i + 1) as nat));
            i = i + 1;
        }
        assert(vertical_padding@ =~= spaces(VERTICAL_PADDING as nat));
        let t = Table {
            titles: Vec::new(),
            subtitles: Vec::new(),
            values: Vec::new(),
            title_count: 0,
            title_width: 0,
            column_width: 0,
            repeat: 0,
            charset,
            hrule: None,
            vertical_padding,
        };
        assert(t@.titles =~= Seq::<Seq<char>>::empty());
        assert(t@.values =~= Seq::<Seq<char>>::empty());
        t
    }

    /// A horizontal rule with the given corners, if the table has started.
    pub fn horizontal_rule(&self, left: &str, middle_title: &str, middle_subtitle: &str, right: &str) -> (r: Option<String>)
        requires
            self.wf(),
        ensures
            match self@.hrule {
                Some(h) => r matches Some(line) && line@ == rule_line(h, left@, middle_title@, middle_subtitle@, right@),
                None => r is None,
            },
    {
        match &self.hrule {
            Some(h) => {
                let column_count = h.title_count * h.subtitle_count;
                let mut line = String::new();
                let mut index: usize = 0;
                assert(line@ =~= rule_columns(0, h.subtitle_count as nat, left@, middle_title@, middle_subtitle@, h.column_rule@));
                while index < column_count
                    invariant
                        0 <= index <= column_count,
                        column_count == h.title_count * h.subtitle_count,
                        line@ == rule_columns(index as nat, h.subtitle_count as nat, left@, middle_title@, middle_subtitle@, h.column_rule@),
                    decreases column_count - index,
                {
                    if index == 0 {
                        push_str(&mut line, left);
                    } else if index % h.subtitle_count == 0 {
                        push_str(&mut line, middle_title);
                    } else {
                        push_str(&mut line, middle_subtitle);
                    }
                    push_str(&mut line, h.column_rule.as_str());
                    assert(line@ =~= rule_columns((index + 1) as nat, h.subtitle_count as nat, left@, middle_title@, middle_subtitle@, h.column_rule@));
                    index = index + 1;
                }
                push_str(&mut line, right);
                Some(line)
            },
            None => None,
        }
    }
}

/// Append a text centered in a field of `width` characters.
fn push_centered(s: &mut String, text: &str, width: usize)
    ensures
        final(s)@ == old(s)@ + centered(text@, width as nat),
{
    let n = str_chars(text).len();
    if n >= width {
        push_str(s, text);
        assert(final(s)@ =~= old(s)@ + centered(text@, width as nat));
    } else {
        let pad = width - n;
        let left = pad / 2;
        let mut i: usize = 0;
        while i < left
            invariant
                0 <= i <= left,
                s@ == old(s)@ + spaces(i as nat),
            decreases left - i,
        {
            push_char(s, ' ');
            assert(s@ =~= old(s)@ + spaces((i + 1) as nat));
            i = i + 1;
        }
        push_str(s, text);
        let right = pad - left;
        let ghost before = s@;
        let mut j: usize = 0;
        while j < right
            invariant
                0 <= j <= right,
                s@ == before + spaces(j as nat),
            decreases right - j,
        {
            push_char(s, ' ');
            assert(s@ =~= before + spaces((j + 1) as nat));
            j = j + 1;
        }
        assert(s@ =~= old(s)@ + centered(text@, width as nat));
    }
}

/// Append cells for a list of texts.
fn push_cells(s: &mut String, vline: &str, pad: &str, values: &[String], width: usize)
    ensures
        final(s)@ == old(s)@ + cells(vline@, pad@, texts(values@), width as nat),
{
    let mut i: usize = 0;
    assert(texts(values@).take(0) =~= Seq::<Seq<char>>::empty());
    assert(old(s)@ + Seq::<char>::empty() =~= old(s)@);
    while i < values.len()
        invariant
            0 <= i <= values.len(),
            s@ == old(s)@ + cells(vline@, pad@, texts(values@).take(i as int), width as nat),
        decreases values.len() - i,
    {
        push_str(s, vline);
        push_str(s, pad);
        push_centered(s, values[i].as_str(), width);
        push_str(s, pad);
        assert(texts(values@).take(i + 1).drop_last() =~= texts(values@).take(i as int));
        assert(s@ =~= old(s)@ + cells(vline@, pad@, texts(values@).take(i + 1), width as nat));
        i = i + 1;
    }
    assert(texts(values@).take(values.len() as int) =~= texts(values@));
}

proof fn lemma_texts_push(v: Seq<String>, x: String)
    ensures
        texts(v.push(x)) =~= texts(v).push(x@),
{
}

/// The largest value is at least the start and each value.
pub proof fn lemma_seq_max_bounds(start: nat, s: Seq<nat>)
    ensures
        seq_max(start, s) >= start,
        forall|i: int| 0 <= i < s.len() ==> seq_max(start, s) >= #[trigger] s[i],
    decreases s.len(),
{
    if s.len() > 0 {
        lemma_seq_max_bounds(start, s.drop_last());
        assert forall|i: int| 0 <= i < s.len() implies seq_max(start, s) >= #[trigger] s[i] by {
            if i < s.len() - 1 {
                assert(s.drop_last()[i] == s[i]);
            }
        }
    }
}

proof fn lemma_seq_max_step(start: nat, s: Seq<nat>, i: int)
    requires
        0 <= i < s.len(),
    ensures
        s.take(i + 1).drop_last() =~= s.take(i),
        s.take(i + 1).last() == s[i],
{
}

impl Table {
    /// Forget the titles.
    pub fn clear_titles(&mut self)
        requires
            old(self).wf(),
        ensures
            final(self).wf(),
            final(self)@ == (TableView { titles: Seq::empty(), ..old(self)@ }),
    {
        self.titles.clear();
        assert(final(self)@.titles =~= Seq::<Seq<char>>::empty());
    }

    /// Add a title.
    pub fn push_title(&mut self, title: String)
        requires
            old(self).wf(),
        ensures
            final(self).wf(),
            final(self)@ == (TableView { titles: old(self)@.titles.push(title@), ..old(self)@ }),
    {
        proof { lemma_texts_push(self.titles@, title); }
        self.titles.push(title);
    }

    /// Add a sub-title.
    pub fn push_subtitle(&mut self, name: &'static str, short_name: Option<&'static str>)
        requires
            old(self).wf(),
        ensures
            final(self).wf(),
            final(self)@ == (TableView {
                subtitles: old(self)@.subtitles.push(SubTitle { name, short_name }),
                ..old(self)@
            }),
    {
        self.subtitles.push(SubTitle { name, short_name });
    }

    /// Forget the values.
    pub fn clear_values(&mut self)
        requires
            old(self).wf(),
        ensures
            final(self).wf(),
            final(self)@ == (TableView { values: Seq::empty(), ..old(self)@ }),
    {
        self.values.clear();
        assert(final(self)@.values =~= Seq::<Seq<char>>::empty());
    }

    /// Add a value.
    pub fn push_value(&mut self, value: &str)
        requires
            old(self).wf(),
        ensures
            final(self).wf(),
            final(self)@ == (TableView { values: old(self)@.values.push(value@), ..old(self)@ }),
    {
        let v = to_string(value);
        proof { lemma_texts_push(self.values@, v); }
        self.values.push(v);
    }

    /// The rule that closes the table, if it has started.
    pub fn print_footer(&self) -> (lines: Vec<String>)
        requires
            self.wf(),
        ensures
            lines_view(lines@) == self@.footer_lines(),
    {
        let mut lines: Vec<String> = Vec::new();
        match self.horizontal_rule(
            self.charset.get(TableChar::UpRight),
            self.charset.get(TableChar::UpHorizontal),
            self.charset.get(TableChar::Horizontal),
            self.charset.get(TableChar::UpLeft),
        ) {
            Some(line) => {
                lines.push(line);
            },
            None => {},
        }
        assert(lines_view(lines@) =~= self@.footer_lines());
        lines
    }

    /// The line of values.
    pub fn print_values(&self) -> (line: String)
        requires
            self.wf(),
        ensures
            line@ == self@.values_line(),
    {
        let vline = self.charset.get(TableChar::VerticalInner);
        let mut line = String::new();
        push_cells(&mut line, vline, self.vertical_padding.as_str(), self.values.as_slice(), self.column_width);
        push_str(&mut line, vline);
        assert(line@ =~= self@.values_line());
        line
    }

    /// Calculate the column width, and resize the table if columns grew or
    /// shrank by more than the tolerance.
    pub fn resize(&mut self) -> (w: usize)
        requires
            old(self).wf(),
            old(self)@.can_resize(),
        ensures
            final(self).wf(),
            w == old(self)@.needed_width(),
            final(self)@ == old(self)@.resized(),
    {
        let ghost v = self@;
        let subtitle_count = self.subtitles.len();
        let sep_len = 2 * VERTICAL_PADDING + 1;
        let sep_count = subtitle_count - 1;
        assert(sep_len == 1);
        let all_sep_len = sep_len * sep_count;
        assert(all_sep_len == sep_count);
        let ghost tw = v.titles.map_values(|s: Seq<char>| title_column_width(s, subtitle_count as nat));
        let ghost sw = v.subtitles.map_values(|s: SubTitle| subtitle_width(s));
        let ghost vw = v.values.map_values(|s: Seq<char>| blen(s) as nat);
        proof {
            lemma_seq_max_bounds(0, tw);
            lemma_seq_max_bounds(seq_max(0, tw), sw);
            lemma_seq_max_bounds(seq_max(seq_max(0, tw), sw), vw);
            assert(tw.take(0) =~= Seq::<nat>::empty());
        }
        let mut column_width: usize = 0;
        let mut i: usize = 0;
        while i < self.titles.len()
            invariant
                v == self@,
                v.can_resize(),
                subtitle_count == v.subtitles.len(),
                all_sep_len == subtitle_count - 1,
                tw == v.titles.map_values(|s: Seq<char>| title_column_width(s, subtitle_count as nat)),
                0 <= i <= self.titles.len(),
                column_width == seq_max(0, tw.take(i as int)),
                forall|j: int| 0 <= j < tw.len() ==> tw[j] <= v.needed_width(),
            decreases self.titles.len() - i,
        {
            let title = self.titles[i].as_str();
            assert(v.titles[i as int] == title@);
            let (quotient, remainder) = divide(title.len() - all_sep_len, subtitle_count);
            assert(tw[i as int] <= v.needed_width());
            assert(v.needed_width() <= usize::MAX) by (nonlinear_arith)
                requires
                    v.needed_width() * subtitle_count + subtitle_count - 1 <= usize::MAX,
                    subtitle_count > 0,
            ;
            let min_col_width = quotient + if remainder > 0 { 1 } else { 0 };
            if min_col_width > column_width {
                column_width = min_col_width;
            }
            proof { lemma_seq_max_step(0, tw, i as int); }
            i = i + 1;
        }
        assert(tw.take(self.titles.len() as int) =~= tw);
        let ghost w1 = column_width as nat;
        assert(sw.take(0) =~= Seq::<nat>::empty());
        let mut k: usize = 0;
        while k < self.subtitles.len()
            invariant
                v == self@,
                sw == v.subtitles.map_values(|s: SubTitle| subtitle_width(s)),
                w1 == seq_max(0, tw),
                0 <= k <= self.subtitles.len(),
                column_width == seq_max(w1, sw.take(k as int)),
            decreases self.subtitles.len() - k,
        {
            let subtitle = &self.subtitles[k];
            let slen = match subtitle.short_name {
                Some(name) => name.len(),
                None => subtitle.name.len(),
            };
            if slen > column_width {
                column_width = slen;
            }
            proof { lemma_seq_max_step(w1, sw, k as int); }
            k = k + 1;
        }
        assert(sw.take(self.subtitles.len() as int) =~= sw);
        let ghost w2 = column_width as nat;
        assert(vw.take(0) =~= Seq::<nat>::empty());
        let mut m: usize = 0;
        while m < self.values.len()
            invariant
                v == self@,
                vw == v.values.map_values(|s: Seq<char>| blen(s) as nat),
                w2 == seq_max(w1, sw),
                w1 == seq_max(0, tw),
                0 <= m <= self.values.len(),
                column_width == seq_max(w2, vw.take(m as int)),
            decreases self.values.len() - m,
        {
            let value = self.values[m].as_str();
            assert(v.values[m as int] == value@);
            if value.len() > column_width {
                column_width = value.len();
            }
            proof { lemma_seq_max_step(w2, vw, m as int); }
            m = m + 1;
        }
        assert(vw.take(self.values.len() as int) =~= vw);
        assert(column_width == v.needed_width());
        assert(column_width * subtitle_count + all_sep_len <= usize::MAX);
        let title_width = column_width * subtitle_count + all_sep_len;
        if column_width > self.column_width || self.column_width - column_width > RESIZE_IF_COLUMNS_SHRINK {
            self.column_width = column_width;
            self.title_width = title_width;
            self.repeat = 0;
        }
        assert(self@ =~= v.resized());
        column_width
    }
}

/// Append the cells of the sub-titles for columns of the given width.
fn push_subtitle_cells(s: &mut String, vline: &str, pad: &str, subtitles: &[SubTitle], column_width: usize)
    requires
        forall|i: int| 0 <= i < subtitles@.len() && blen(#[trigger] subtitles@[i].name@) > column_width
            ==> subtitles@[i].short_name is Some,
    ensures
        final(s)@ == old(s)@ + cells(vline@, pad@, subtitle_texts(subtitles@, column_width as nat), column_width as nat),
{
    let ghost st = subtitle_texts(subtitles@, column_width as nat);
    let mut i: usize = 0;
    assert(st.take(0) =~= Seq::<Seq<char>>::empty());
    assert(old(s)@ + Seq::<char>::empty() =~= old(s)@);
    while i < subtitles.len()
        invariant
            0 <= i <= subtitles.len(),
            st == subtitle_texts(subtitles@, column_width as nat),
            s@ == old(s)@ + cells(vline@, pad@, st.take(i as int), column_width as nat),
            forall|j: int| 0 <= j < subtitles@.len() && blen(#[trigger] subtitles@[j].name@) > column_width
                ==> subtitles@[j].short_name is Some,
        decreases subtitles.len() - i,
    {
        let subtitle = &subtitles[i];
        let text = if subtitle.name.len() > column_width {
            match subtitle.short_name {
                Some(short) => short,
                None => subtitle.name,
            }
        } else {
            subtitle.name
        };
        assert(text@ == st[i as int]);
        push_str(s, vline);
        push_str(s, pad);
        push_centered(s, text, column_width);
        push_str(s, pad);
        assert(st.take(i + 1).drop_last() =~= st.take(i as int));
        assert(s@ =~= old(s)@ + cells(vline@, pad@, st.take(i + 1), column_width as nat));
        i = i + 1;
    }
    assert(st.take(subtitles.len() as int) =~= st);
}

impl Table {
    /// Draw the header: close the previous table, then a rule, the titles,
    /// a rule and the sub-titles under each title.
    pub fn print_header(&mut self, column_width: usize) -> (lines: Vec<String>)
        requires
            old(self).wf(),
            old(self)@.can_print_header(),
        ensures
            final(self).wf(),
            final(self)@ == old(self)@.with_header(column_width as nat),
            lines_view(lines@) == old(self)@.header_lines(column_width as nat),
    {
        let ghost v = self@;
        let mut lines = self.print_footer();
        self.title_count = self.titles.len();
        let (_, column_rule) = self.charset.inner_horizontal_line(column_width + 2 * VERTICAL_PADDING);
        self.hrule = Some(HorizontalRule {
            title_count: self.title_count,
            subtitle_count: self.subtitles.len(),
            column_rule,
        });
        assert(self@ =~= v.with_header(column_width as nat));
        let ghost t = self@;
        let ghost h = t.hrule.unwrap();
        let top = self.horizontal_rule(
            self.charset.get(TableChar::DownRight),
            self.charset.get(TableChar::DownHorizontal),
            self.charset.get(TableChar::Horizontal),
            self.charset.get(TableChar::DownLeft),
        );
        let vline = self.charset.get(TableChar::VerticalInner);
        let mut titles_line = String::new();
        push_cells(&mut titles_line, vline, self.vertical_padding.as_str(), self.titles.as_slice(), self.title_width);
        push_str(&mut titles_line, vline);
        let middle = self.horizontal_rule(
            self.charset.get(TableChar::VerticalRight),
            self.charset.get(TableChar::VerticalHorizontal),
            self.charset.get(TableChar::DownHorizontal),
            self.charset.get(TableChar::VerticalLeft),
        );
        let mut row = String::new();
        push_subtitle_cells(&mut row, vline, self.vertical_padding.as_str(), self.subtitles.as_slice(), self.column_width);
        let mut subtitles_line = String::new();
        let mut n: usize = 0;
        while n < self.title_count
            invariant
                0 <= n <= self.title_count,
                subtitles_line@ == repeat_seq(row@, n as nat),
            decreases self.title_count - n,
        {
            push_str(&mut subtitles_line, row.as_str());
            n = n + 1;
        }
        push_str(&mut subtitles_line, vline);
        let ghost before = lines_view(lines@);
        match top {
            Some(line) => {
                proof { lemma_texts_push(lines@, line); }
                lines.push(line);
            },
            None => {},
        }
        proof { lemma_texts_push(lines@, titles_line); }
        lines.push(titles_line);
        match middle {
            Some(line) => {
                proof { lemma_texts_push(lines@, line); }
                lines.push(line);
            },
            None => {},
        }
        proof { lemma_texts_push(lines@, subtitles_line); }
        lines.push(subtitles_line);
        assert(lines_view(lines@) =~= v.header_lines(column_width as nat));
        lines
    }

    /// Print the values as a line of the table, with the header first when
    /// asked for or when it is due.
    pub fn print(&mut self, with_header: bool) -> (lines: Vec<String>)
        requires
            old(self).wf(),
            old(self)@.can_resize(),
            old(self)@.titles.len() * old(self)@.subtitles.len() <= usize::MAX,
        ensures
            final(self).wf(),
            final(self)@ == old(self)@.printed(with_header),
            lines_view(lines@) == old(self)@.printed_lines(with_header),
    {
        let ghost v = self@;
        let column_width = self.resize();
        let ghost r = self@;
        let mut lines: Vec<String> = if with_header || self.repeat == 0 {
            proof {
                let sw = v.subtitles.map_values(|s: SubTitle| subtitle_width(s));
                let tw = v.titles.map_values(|s: Seq<char>| title_column_width(s, v.subtitles.len()));
                lemma_seq_max_bounds(0, tw);
                lemma_seq_max_bounds(seq_max(0, tw), sw);
                lemma_seq_max_bounds(seq_max(seq_max(0, tw), sw), v.values.map_values(|s: Seq<char>| blen(s) as nat));
                assert forall|i: int| 0 <= i < r.subtitles.len() && blen(#[trigger] r.subtitles[i].name@) > r.column_width
                    implies r.subtitles[i].short_name is Some by {
                    assert(sw[i] == subtitle_width(r.subtitles[i]));
                }
            }
            self.print_header(column_width)
        } else {
            Vec::new()
        };
        let ghost t = self@;
        let values = self.print_values();
        proof { lemma_texts_push(lines@, values); }
        lines.push(values);
        self.repeat = self.repeat + 1;
        if self.repeat >= REPEAT_HEADER_EVERY {
            self.repeat = 0;
        }
        assert(self@ =~= v.printed(with_header));
        assert(lines_view(lines@) =~= v.printed_lines(with_header));
        lines
    }
}

/// Label of an aggregation column under its metric.
pub open spec fn aggregation_label(ag: Aggregation) -> Seq<char> {
    match ag {
        Aggregation::Raw => "none"@,
        Aggregation::Min => "min"@,
        Aggregation::Max => "max"@,
        Aggregation::Ratio => "ratio"@,
    }
}

/// The sub-title of an aggregation column is the name by which the
/// aggregation is asked for in a metric specification, `none` for the raw
/// value; distinct aggregations are labelled differently.
pub proof fn law_aggregation_labels_name_them(a: Aggregation, b: Aggregation)
    ensures
        a != Aggregation::Raw ==> aggregation_label(a) == crate::agg::aggregation_name(a),
        aggregation_label(Aggregation::Raw) == seq!['n', 'o', 'n', 'e'],
        a != b ==> aggregation_label(a) != aggregation_label(b),
{
    reveal_strlit("none");
    reveal_strlit("min");
    reveal_strlit("max");
    reveal_strlit("ratio");
    if a != b && aggregation_label(a) == aggregation_label(b) {
        assert(aggregation_label(a).len() == aggregation_label(b).len());
        assert(aggregation_label(a)[1] == aggregation_label(b)[1]);
    }
}

/// Name and short name of a sub-title.
pub open spec fn subtitle_view(s: SubTitle) -> (Seq<char>, Option<Seq<char>>) {
    (s.name@, match s.short_name { Some(n) => Some(n@), None => None })
}

/// Sub-titles of the columns: the metric's name for its first column, the
/// aggregation for the next ones.
pub open spec fn column_subtitles(columns: Seq<(MetricId, Aggregation)>) -> Seq<(Seq<char>, Option<Seq<char>>)>
    decreases columns.len(),
{
    if columns.len() == 0 {
        Seq::empty()
    } else {
        let prev = columns.drop_last();
        let (id, ag) = columns.last();
        column_subtitles(prev).push(
            if prev.len() == 0 || prev.last().0 != id {
                (metric_name(id), Some(metric_short_name(id)))
            } else {
                (aggregation_label(ag), None)
            },
        )
    }
}

/// A process as the text display shows it: its name, its pid and the
/// values of its samples.
pub struct ProcessLine {
    pub name: String,
    pub pid: i32,
    pub values: Vec<String>,
}

/// Decimal representation of a signed number.
pub open spec fn signed_decimal(n: int) -> Seq<char> {
    if n < 0 {
        seq!['-'] + decimal((-n) as nat)
    } else {
        decimal(n as nat)
    }
}

/// Title of a process: `name [pid]`.
pub open spec fn process_title(name: Seq<char>, pid: int) -> Seq<char> {
    name + seq![' ', '['] + signed_decimal(pid) + seq![']']
}

/// Titles of the processes.
pub open spec fn process_titles(ps: Seq<ProcessLine>) -> Seq<Seq<char>> {
    ps.map_values(|p: ProcessLine| process_title(p.name@, p.pid as int))
}

/// Values of the processes, one after the other.
pub open spec fn process_values(ps: Seq<ProcessLine>) -> Seq<Seq<char>>
    decreases ps.len(),
{
    if ps.len() == 0 {
        Seq::empty()
    } else {
        process_values(ps.drop_last()) + texts(ps.last().values@)
    }
}

fn process_name(p: &ProcessLine) -> (s: String)
    ensures
        s@ == process_title(p.name@, p.pid as int),
{
    let mut s = p.name.clone();
    push_char(&mut s, ' ');
    push_char(&mut s, '[');
    if p.pid < 0 {
        push_char(&mut s, '-');
        let magnitude: u64 = (0i64 - p.pid as i64) as u64;
        push_decimal(&mut s, magnitude);
    } else {
        push_decimal(&mut s, p.pid as u64);
    }
    push_char(&mut s, ']');
    assert(s@ =~= process_title(p.name@, p.pid as int));
    s
}

/// Print on standard output as a table.
pub struct TextDevice {
    pub table: Table,
}

impl TextDevice {
    /// A device whose table is drawn with UTF-8 box characters if `unicode`.
    pub fn new(unicode: bool) -> (d: TextDevice)
        ensures
            d.table.wf(),
            d.table@.unicode == unicode,
            d.table@.titles.len() == 0,
            d.table@.subtitles.len() == 0,
            d.table@.values.len() == 0,
            d.table@.repeat == 0,
            d.table@.column_width == 0,
            d.table@.hrule is None,
    {
        TextDevice { table: Table::new(TableCharSet::new(unicode)) }
    }

    /// Add a sub-title for each computed value of the metrics.
    pub fn open(&mut self, metrics: &[FormattedMetric])
        requires
            old(self).table.wf(),
        ensures
            final(self).table.wf(),
            final(self).table@ == (TableView {
                subtitles: final(self).table@.subtitles,
                ..old(self).table@
            }),
            final(self).table@.subtitles.map_values(|s: SubTitle| subtitle_view(s))
                == old(self).table@.subtitles.map_values(|s: SubTitle| subtitle_view(s))
                + column_subtitles(spec_computed_metrics(metric_views(metrics@))),
    {
        let columns = computed_metrics(metrics);
        let ghost start = self.table@;
        let mut last_id: Option<MetricId> = None;
        let mut i: usize = 0;
        assert(columns@.take(0) =~= Seq::<(MetricId, Aggregation)>::empty());
        assert(start.subtitles.map_values(|s: SubTitle| subtitle_view(s)) + Seq::empty()
            =~= start.subtitles.map_values(|s: SubTitle| subtitle_view(s)));
        while i < columns.len()
            invariant
                0 <= i <= columns.len(),
                self.table.wf(),
                self.table@ == (TableView { subtitles: self.table@.subtitles, ..start }),
                self.table@.subtitles.map_values(|s: SubTitle| subtitle_view(s))
                    == start.subtitles.map_values(|s: SubTitle| subtitle_view(s)) + column_subtitles(columns@.take(i as int)),
                last_id == (if i == 0 { None } else { Some(columns@[i - 1].0) }),
            decreases columns.len() - i,
        {
            let (id, ag) = columns[i];
            let ghost prev = self.table@.subtitles;
            let first = match last_id {
                None => true,
                Some(l) => l != id,
            };
            if first {
                last_id = Some(id);
                self.table.push_subtitle(id.as_str(), id.to_short_str());
            } else {
                let subtitle = match ag {
                    Aggregation::Raw => "none",
                    Aggregation::Min => "min",
                    Aggregation::Max => "max",
                    Aggregation::Ratio => "ratio",
                };
                self.table.push_subtitle(subtitle, None);
            }
            proof {
                assert(columns@.take(i + 1).drop_last() =~= columns@.take(i as int));
                assert(prev.push(self.table@.subtitles.last()).map_values(|s: SubTitle| subtitle_view(s))
                    =~= prev.map_values(|s: SubTitle| subtitle_view(s)).push(subtitle_view(self.table@.subtitles.last())));
                assert(self.table@.subtitles =~= prev.push(self.table@.subtitles.last()));
            }
            assert(self.table@.subtitles.map_values(|s: SubTitle| subtitle_view(s))
                =~= start.subtitles.map_values(|s: SubTitle| subtitle_view(s)) + column_subtitles(columns@.take(i + 1)));
            i = i + 1;
        }
        assert(columns@.take(columns.len() as int) =~= columns@);
    }

    /// Close the table: the lines of its last rule.
    pub fn close(&mut self) -> (lines: Vec<String>)
        requires
            old(self).table.wf(),
        ensures
            *final(self) == *old(self),
            lines_view(lines@) == old(self).table@.footer_lines(),
    {
        self.table.print_footer()
    }

    /// Render the processes: one title per process and its values, printed
    /// as a line of the table. Nothing is rendered when there is no process.
    pub fn render(&mut self, processes: &[ProcessLine], redraw: bool) -> (lines: Vec<String>)
        requires
            old(self).table.wf(),
            processes@.len() > 0 ==> (TableView {
                titles: process_titles(processes@),
                values: process_values(processes@),
                ..old(self).table@
            }).can_resize(),
            processes@.len() * old(self).table@.subtitles.len() <= usize::MAX,
        ensures
            final(self).table.wf(),
            processes@.len() == 0 ==> *final(self) == *old(self) && lines@.len() == 0,
            processes@.len() > 0 ==> {
                let t = TableView {
                    titles: process_titles(processes@),
                    values: process_values(processes@),
                    ..old(self).table@
                };
                &&& final(self).table@ == t.printed(redraw)
                &&& lines_view(lines@) == t.printed_lines(redraw)
            },
    {
        if processes.len() == 0 {
            return Vec::new();
        }
        let ghost start = self.table@;
        self.table.clear_titles();
        self.table.clear_values();
        let mut i: usize = 0;
        assert(processes@.take(0) =~= Seq::<ProcessLine>::empty());
        assert(process_titles(processes@.take(0)) =~= Seq::<Seq<char>>::empty());
        while i < processes.len()
            invariant
                0 <= i <= processes.len(),
                self.table.wf(),
                self.table@ == (TableView {
                    titles: process_titles(processes@.take(i as int)),
                    values: process_values(processes@.take(i as int)),
                    ..start
                }),
            decreases processes.len() - i,
        {
            let p = &processes[i];
            self.table.push_title(process_name(p));
            let ghost before = self.table@.values;
            let mut k: usize = 0;
            assert(p.values@.take(0) =~= Seq::<String>::empty());
            assert(before + texts(p.values@.take(0)) =~= before);
            while k < p.values.len()
                invariant
                    0 <= k <= p.values.len(),
                    self.table.wf(),
                    self.table@ == (TableView {
                        titles: process_titles(processes@.take(i + 1)),
                        values: before + texts(p.values@.take(k as int)),
                        ..start
                    }),
                decreases p.values.len() - k,
            {
                self.table.push_value(p.values[k].as_str());
                assert(p.values@.take(k + 1) =~= p.values@.take(k as int).push(p.values@[k as int]));
                assert(before + texts(p.values@.take(k + 1)) =~= (before + texts(p.values@.take(k as int))).push(p.values@[k as int]@));
                k = k + 1;
            }
            assert(p.values@.take(p.values.len() as int) =~= p.values@);
            assert(processes@.take(i + 1).drop_last() =~= processes@.take(i as int));
            assert(processes@.take(i + 1).last() == *p);
            i = i + 1;
        }
        assert(processes@.take(processes.len() as int) =~= processes@);
        self.table.print(redraw)
    }
}

} // verus!
