//! Geometry of the panes of the terminal: which part of a big table is
//! visible, where the selection moves, and the widths of the columns.
//! Drawing is left to the terminal library; these functions compute what it
//! is given.

use vstd::prelude::*;
use crate::display::term::types::{resolved_position, Area, Motion, Scroll};
use crate::strings::{
    byte_prefix, byte_suffix, byte_take, lines_of, spec_trim, str_chars, str_len, str_prefix,
    str_suffix, str_take, string_from_chars, strings_view, text_lines, trim, utf8_len,
};

verus! {

/// Size of the borders around a pane.
pub const BORDER_SIZE: u16 = 1;

/// A rectangle on the screen.
#[derive(Clone, Copy, Debug, PartialEq, Eq, Structural)]
pub struct Rect {
    pub x: u16,
    pub y: u16,
    pub width: u16,
    pub height: u16,
}

/// Width of a column.
#[derive(Clone, Copy, Debug, PartialEq, Eq, Structural)]
pub enum Constraint {
    Length(u16),
}

/// A scroll bar: the length of the content that can be scrolled, the
/// position in it and the visible length.
#[derive(Clone, Copy, Debug, PartialEq, Eq, Structural)]
pub struct ScrollbarState {
    pub content_length: usize,
    pub position: usize,
    pub viewport_content_length: usize,
}

/// Visible part of an element in one direction.
#[derive(Clone, Copy, Debug, Default, PartialEq, Eq, Structural)]
pub struct Zoom {
    pub position: usize,
    pub visible_length: usize,
    pub total_length: usize,
}

impl Zoom {
    /// A zoom whose position is at most the total length.
    pub fn new(position: usize, visible_length: usize, total_length: usize) -> (z: Self)
        ensures
            z.position == (if position < total_length { position } else { total_length }),
            z.visible_length == visible_length,
            z.total_length == total_length,
    {
        let position = if position < total_length { position } else { total_length };
        Zoom { position, visible_length, total_length }
    }

    pub fn with_position(position: usize) -> (z: Self)
        ensures
            z == (Zoom { position: 0, visible_length: 0, total_length: 0 }),
    {
        Self::new(position, 0, 0)
    }

    /// A scroll bar when the content is not all visible.
    pub fn scrollbar_state(&self) -> (r: Option<ScrollbarState>)
        ensures
            (self.position > 0 || self.visible_length < self.total_length) ==> r == Some(ScrollbarState {
                content_length: (if self.total_length >= self.visible_length { self.total_length - self.visible_length } else { 0 }) as usize,
                position: self.position,
                viewport_content_length: self.visible_length,
            }),
            !(self.position > 0 || self.visible_length < self.total_length) ==> r is None,
    {
        if self.position > 0 || self.visible_length < self.total_length {
            Some(ScrollbarState {
                content_length: self.total_length.saturating_sub(self.visible_length),
                position: self.position,
                viewport_content_length: self.visible_length,
            })
        } else {
            None
        }
    }
}

/// Whether a position can move by a scroll without overflow.
pub open spec fn can_move(position: usize, page_length: usize, scroll: Scroll) -> bool {
    &&& scroll == Scroll::NextPosition ==> position + 1 <= usize::MAX
    &&& scroll == Scroll::NextPage ==> position + page_length <= usize::MAX
}

/// Move a position by a scroll, not beyond the last position.
pub fn move_position(position: usize, last_position: usize, page_length: usize, scroll: Scroll) -> (p: usize)
    requires
        can_move(position, page_length, scroll),
    ensures
        p == resolved_position(Motion { position, scroll }, last_position, page_length),
{
    match scroll {
        Scroll::CurrentPosition => position,
        Scroll::FirstPosition => 0,
        Scroll::LastPosition => last_position,
        Scroll::PreviousPosition => position.saturating_sub(1),
        Scroll::NextPosition => {
            let n = position + 1;
            if last_position < n { last_position } else { n }
        },
        Scroll::PreviousPage => position.saturating_sub(page_length),
        Scroll::NextPage => {
            let n = position + page_length;
            if last_position < n { last_position } else { n }
        },
        Scroll::Up => position,
    }
}

/// Half a length, rounded up: the length of a page.
pub open spec fn half_up(n: nat) -> nat {
    (n + 1) / 2
}

/// Subtraction that stops at zero.
pub open spec fn minus(a: int, b: int) -> nat {
    if a >= b { (a - b) as nat } else { 0 }
}

/// The selected position and the visible part after a motion.
///
/// With a selected position, it moves, and the visible part follows it when
/// it goes out of sight. Without one, the visible part moves, and a
/// selection starts at its first or last line when moving by one line.
/// A selection is never before `min_position`.
pub open spec fn spec_new_zoom(
    position: Option<usize>,
    min_position: usize,
    motion: Motion,
    visible_length: u16,
    total_length: u16,
) -> (Option<usize>, Zoom) {
    let visible = visible_length as nat;
    let total = total_length as nat;
    let page = half_up(visible);
    let (pos, top) = match position {
        Some(p) => {
            let last = minus(total as int, 1);
            let moved = resolved_position(Motion { position: p, scroll: motion.scroll }, last as usize, page as usize);
            let top = if moved < motion.position || moved >= motion.position + visible {
                minus(moved, page as int) as int
            } else {
                motion.position as int
            };
            (Some(moved), top)
        },
        None => {
            let top = motion.position as int;
            if motion.scroll == Scroll::PreviousPosition {
                (Some(top + minus(visible as int, 1)), top)
            } else if motion.scroll == Scroll::NextPosition {
                (Some(if top > min_position { top } else { min_position as int }), top)
            } else {
                let last = minus(total as int, visible as int);
                (None, resolved_position(Motion { position: motion.position, scroll: motion.scroll }, last as usize, page as usize))
            }
        },
    };
    (
        match pos {
            Some(p) => Some((if p > min_position { p } else { min_position as int }) as usize),
            None => None,
        },
        Zoom {
            position: (if top < total { top } else { total as int }) as usize,
            visible_length: visible as usize,
            total_length: total as usize,
        },
    )
}

/// Whether a motion of a table can be computed without overflow.
pub open spec fn zoom_fits(position: Option<usize>, motion: Motion, visible_length: u16) -> bool {
    &&& motion.position + visible_length <= usize::MAX
    &&& position is Some ==> can_move(position.unwrap(), half_up(visible_length as nat) as usize, motion.scroll)
    &&& position is None ==> can_move(motion.position, half_up(visible_length as nat) as usize, motion.scroll)
}

/// Move the position and adapt the zoom so that the position is visible.
pub fn new_zoom(
    position: Option<usize>,
    min_position: usize,
    motion: &Motion,
    visible_length: u16,
    total_length: u16,
) -> (r: (Option<usize>, Zoom))
    requires
        zoom_fits(position, *motion, visible_length),
    ensures
        r == spec_new_zoom(position, min_position, *motion, visible_length, total_length),
{
    let visible = visible_length as usize;
    let total = total_length as usize;
    let page = (visible + 1) / 2;
    let (pos, top) = match position {
        Some(p) => {
            let last = total.saturating_sub(1);
            let moved = move_position(p, last, page, motion.scroll);
            let top = if moved < motion.position || moved >= motion.position + visible {
                moved.saturating_sub(page)
            } else {
                motion.position
            };
            (Some(moved), top)
        },
        None => {
            let top = motion.position;
            match motion.scroll {
                Scroll::PreviousPosition => (Some(top + visible.saturating_sub(1)), top),
                Scroll::NextPosition => (Some(if top > min_position { top } else { min_position }), top),
                _ => {
                    let last = total.saturating_sub(visible);
                    (None, move_position(top, last, page, motion.scroll))
                },
            }
        },
    };
    (
        match pos {
            Some(p) => Some(if p > min_position { p } else { min_position }),
            None => None,
        },
        Zoom::new(top, visible, total),
    )
}

/// Total width of some columns including the space between them.
pub open spec fn spec_range_widths(widths: Seq<u16>, spacing: u16) -> int
    decreases widths.len(),
{
    if widths.len() == 0 {
        0
    } else {
        spec_range_widths(widths.drop_last(), spacing) + widths.last()
            + if widths.len() > 1 { spacing as int } else { 0int }
    }
}

/// Width of a range of columns including the space between them.
pub fn range_widths(widths: &[u16], start: usize, end: usize, spacing: u16) -> (w: u16)
    requires
        start <= end <= widths.len(),
        forall|k: int| start <= k <= end ==> #[trigger] spec_range_widths(widths@.subrange(start as int, k), spacing) <= u16::MAX,
    ensures
        w == spec_range_widths(widths@.subrange(start as int, end as int), spacing),
{
    let mut w: u16 = 0;
    let mut i: usize = start;
    while i < end
        invariant
            start <= i <= end <= widths.len(),
            forall|k: int| start <= k <= end ==> #[trigger] spec_range_widths(widths@.subrange(start as int, k), spacing) <= u16::MAX,
            w == spec_range_widths(widths@.subrange(start as int, i as int), spacing),
        decreases end - i,
    {
        assert(widths@.subrange(start as int, i + 1).drop_last() =~= widths@.subrange(start as int, i as int));
        assert(spec_range_widths(widths@.subrange(start as int, i + 1), spacing) <= u16::MAX);
        if i > start {
            w = w + spacing;
        }
        w = w + widths[i];
        i = i + 1;
    }
    w
}

/// Columns of a table that fit on the screen: the widths of those that fit
/// entirely, then, if it leaves more than the spacing, the remaining width
/// of the next one; and the width they take.
pub open spec fn spec_width_constraints(screen: int, widths: Seq<u16>, spacing: int, i: nat, total: int, current_spacing: int) -> (int, Seq<u16>)
    decreases widths.len() - i,
{
    if i >= widths.len() {
        (total, Seq::empty())
    } else {
        let new_total = total + current_spacing + widths[i as int];
        if new_total < screen {
            let rest = spec_width_constraints(screen, widths, spacing, i + 1, new_total, spacing);
            (rest.0, seq![widths[i as int]] + rest.1)
        } else if screen - total > spacing {
            (screen, seq![(screen - total - spacing) as u16])
        } else {
            (total, Seq::empty())
        }
    }
}

/// Widths of the columns to avoid an overflow of the screen.
pub fn width_constraints(screen_width: u16, column_widths: &[u16], column_spacing: u16) -> (r: (u16, Vec<Constraint>))
    ensures
        r.0 == spec_width_constraints(screen_width as int, column_widths@, column_spacing as int, 0, 0, 0).0,
        r.1@ == spec_width_constraints(screen_width as int, column_widths@, column_spacing as int, 0, 0, 0).1
            .map_values(|w: u16| Constraint::Length(w)),
{
    let ghost sw = screen_width as int;
    let ghost spacing = column_spacing as int;
    let mut total: u32 = 0;
    let mut constraints: Vec<Constraint> = Vec::new();
    let mut current_spacing: u32 = 0;
    let mut i: usize = 0;
    let ghost mut done: Seq<u16> = Seq::empty();
    while i < column_widths.len()
        invariant_except_break
            i <= column_widths.len(),
            sw == screen_width as int,
            spacing == column_spacing as int,
            total < sw || (i == 0 && total == 0),
            current_spacing == (if i == 0 { 0 } else { spacing }),
            constraints@ == done.map_values(|w: u16| Constraint::Length(w)),
            ({
                let r = spec_width_constraints(sw, column_widths@, spacing, 0, 0, 0);
                let rest = spec_width_constraints(sw, column_widths@, spacing, i as nat, total as int, current_spacing as int);
                &&& r.0 == rest.0
                &&& r.1 == done + rest.1
            }),
        ensures
            total <= u16::MAX,
            ({
                let r = spec_width_constraints(sw, column_widths@, spacing, 0, 0, 0);
                &&& total == r.0
                &&& constraints@ == r.1.map_values(|w: u16| Constraint::Length(w))
            }),
        decreases column_widths.len() - i,
    {
        let col_width = column_widths[i] as u32;
        let new_total = total + current_spacing + col_width;
        if new_total < screen_width as u32 {
            constraints.push(Constraint::Length(column_widths[i]));
            proof {
                let old_done = done;
                done = done.push(column_widths@[i as int]);
                assert(constraints@ =~= done.map_values(|w: u16| Constraint::Length(w)));
                let rest = spec_width_constraints(sw, column_widths@, spacing, (i + 1) as nat, new_total as int, spacing);
                assert(old_done + (seq![column_widths@[i as int]] + rest.1) =~= done + rest.1);
            }
            total = new_total;
            current_spacing = column_spacing as u32;
            i = i + 1;
        } else {
            let remaining = screen_width as u32 - total;
            if remaining > column_spacing as u32 {
                constraints.push(Constraint::Length((remaining - column_spacing as u32) as u16));
                proof {
                    let old_done = done;
                    done = done.push((remaining - column_spacing as u32) as u16);
                    assert(constraints@ =~= done.map_values(|w: u16| Constraint::Length(w)));
                    assert(old_done + seq![(sw - total - spacing) as u16] =~= done);
                }
                total = screen_width as u32;
            } else {
                proof {
                    assert(done + Seq::<u16>::empty() =~= done);
                }
            }
            break;
        }
    }
    proof {
        if i >= column_widths.len() {
            assert(done + Seq::<u16>::empty() =~= done);
        }
    }
    (total as u16, constraints)
}


/// State of a big table: the motion asked for, the selected line, the
/// first line that can be selected and the visible part.
pub struct BigTableState {
    pub motion: Area<Motion>,
    pub selected_lineno: Option<usize>,
    pub min_lineno: usize,
    pub zoom: Area<Zoom>,
}

impl BigTableState {
    pub fn new(motion: &Area<Motion>, selected_lineno: Option<usize>, min_lineno: usize) -> (s: Self)
        ensures
            s.motion == *motion,
            s.selected_lineno == selected_lineno,
            s.min_lineno == min_lineno,
            s.zoom.horizontal == Zoom::default_spec(),
            s.zoom.vertical == Zoom::default_spec(),
    {
        let zoom = Area::new(Zoom::new(0, 0, 0), Zoom::new(0, 0, 0));
        BigTableState { motion: *motion, selected_lineno, min_lineno, zoom }
    }

    pub fn with_motion(motion: &Area<Motion>) -> (s: Self)
        ensures
            s.motion == *motion,
            s.selected_lineno is None,
            s.min_lineno == 0,
            s.zoom.horizontal == Zoom::default_spec(),
            s.zoom.vertical == Zoom::default_spec(),
    {
        Self::new(motion, None, 0)
    }
}

impl Zoom {
    /// The zoom of nothing.
    pub open spec fn default_spec() -> Zoom {
        Zoom { position: 0, visible_length: 0, total_length: 0 }
    }
}

/// Where each body column starts: after the previous ones and their spacing.
pub open spec fn column_start(body: Seq<u16>, spacing: int, k: nat) -> int
    decreases k,
{
    if k == 0 { 0 } else { column_start(body, spacing, (k - 1) as nat) + body[k - 1] + spacing }
}

proof fn lemma_column_start_grows(body: Seq<u16>, spacing: int, j: nat, k: nat)
    requires
        spacing >= 0,
        j <= k,
    ensures
        column_start(body, spacing, j) <= column_start(body, spacing, k),
    decreases k - j,
{
    if j < k {
        lemma_column_start_grows(body, spacing, j, (k - 1) as nat);
    }
}

/// Visible width of each body column that is visible between `start` and
/// `end`, among the first ones.
pub open spec fn visible_widths(body: Seq<u16>, spacing: int, start: int, end: int, n: nat) -> Seq<u16>
    decreases n,
{
    if n == 0 {
        Seq::empty()
    } else {
        let rest = visible_widths(body, spacing, start, end, (n - 1) as nat);
        let rs = column_start(body, spacing, (n - 1) as nat);
        let re = rs + body[n - 1];
        if re > start && rs < end {
            rest.push(((if end < re { end } else { re }) - (if start > rs { start } else { rs })) as u16)
        } else {
            rest
        }
    }
}

fn copy_widths(v: &[u16]) -> (r: Vec<u16>)
    ensures
        r@ == v@,
{
    let mut r: Vec<u16> = Vec::new();
    let mut i: usize = 0;
    while i < v.len()
        invariant
            i <= v.len(),
            r@ == v@.take(i as int),
        decreases v.len() - i,
    {
        r.push(v[i]);
        assert(v@.take(i + 1) =~= v@.take(i as int).push(v@[i as int]));
        i = i + 1;
    }
    assert(v@.take(v.len() as int) =~= v@);
    r
}

/// The visible part of a big table: the widths of its columns and which
/// part of the body is visible.
pub struct TableClip {
    pub widths: Vec<u16>,
    pub nheadcols: usize,
    /// Start and end of each body column.
    pub ranges: Vec<(usize, usize)>,
    pub zoom: Area<Zoom>,
    pub selected_lineno: Option<usize>,
}

impl TableClip {
    /// The clip of a table whose first `nheadcols` columns are headers.
    pub fn new(state: &BigTableState, widths: &[u16], nheadcols: usize, column_spacing: u16) -> (c: Self)
        requires
            nheadcols <= widths.len(),
            column_start(widths@.skip(nheadcols as int), column_spacing as int, (widths.len() - nheadcols) as nat) <= usize::MAX,
        ensures
            c.widths@ == widths@,
            c.nheadcols == nheadcols,
            c.zoom == state.zoom,
            c.selected_lineno == state.selected_lineno,
            c.ranges@.len() == widths.len() - nheadcols,
            forall|k: int| 0 <= k < c.ranges@.len() ==> {
                let s = column_start(widths@.skip(nheadcols as int), column_spacing as int, k as nat);
                &&& (#[trigger] c.ranges@[k]).0 == s
                &&& c.ranges@[k].1 == s + widths@[nheadcols + k]
            },
    {
        let ghost body = widths@.skip(nheadcols as int);
        let ghost spacing = column_spacing as int;
        let mut ranges: Vec<(usize, usize)> = Vec::new();
        let mut start: usize = 0;
        let mut k: usize = nheadcols;
        while k < widths.len()
            invariant
                nheadcols <= k <= widths.len(),
                body == widths@.skip(nheadcols as int),
                spacing == column_spacing as int,
                column_start(body, spacing, (widths.len() - nheadcols) as nat) <= usize::MAX,
                start == column_start(body, spacing, (k - nheadcols) as nat),
                ranges@.len() == k - nheadcols,
                forall|j: int| 0 <= j < ranges@.len() ==> {
                    let s = column_start(body, spacing, j as nat);
                    &&& (#[trigger] ranges@[j]).0 == s
                    &&& ranges@[j].1 == s + widths@[nheadcols + j]
                },
            decreases widths.len() - k,
        {
            proof {
                lemma_column_start_grows(body, spacing, (k + 1 - nheadcols) as nat, (widths.len() - nheadcols) as nat);
                assert(body[(k - nheadcols) as int] == widths@[k as int]);
            }
            let end = start + widths[k] as usize;
            ranges.push((start, end));
            start = end + column_spacing as usize;
            k = k + 1;
        }
        TableClip { widths: copy_widths(widths), nheadcols, ranges, zoom: state.zoom, selected_lineno: state.selected_lineno }
    }
}


/// Visible width of each column range that is visible between `start` and
/// `end`, among the first `n`.
pub open spec fn visible_lengths(ranges: Seq<(usize, usize)>, start: int, end: int, n: nat) -> Seq<u16>
    decreases n,
{
    if n == 0 {
        Seq::empty()
    } else {
        let rest = visible_lengths(ranges, start, end, (n - 1) as nat);
        let r = ranges[n - 1];
        if r.1 > start && r.0 < end {
            rest.push(((if end < r.1 { end } else { r.1 as int }) - (if start > r.0 { start } else { r.0 as int })) as u16)
        } else {
            rest
        }
    }
}

impl TableClip {
    /// Widths of the visible columns: the headers, then the visible part of
    /// each body column that can be seen.
    pub fn constraints(&self) -> (r: Vec<Constraint>)
        requires
            self.nheadcols <= self.widths@.len(),
            self.zoom.horizontal.position + self.zoom.horizontal.visible_length <= usize::MAX,
            forall|k: int| 0 <= k < self.ranges@.len() ==> (#[trigger] self.ranges@[k]).0 <= self.ranges@[k].1,
        ensures
            r@ == (self.widths@.take(self.nheadcols as int) + visible_lengths(self.ranges@,
                self.zoom.horizontal.position as int,
                self.zoom.horizontal.position + self.zoom.horizontal.visible_length,
                self.ranges@.len())).map_values(|w: u16| Constraint::Length(w)),
    {
        let ghost heads = self.widths@.take(self.nheadcols as int);
        let mut r: Vec<Constraint> = Vec::new();
        let mut i: usize = 0;
        while i < self.nheadcols
            invariant
                i <= self.nheadcols <= self.widths@.len(),
                heads == self.widths@.take(self.nheadcols as int),
                r@ == heads.take(i as int).map_values(|w: u16| Constraint::Length(w)),
            decreases self.nheadcols - i,
        {
            r.push(Constraint::Length(self.widths[i]));
            assert(heads.take(i + 1).map_values(|w: u16| Constraint::Length(w))
                =~= heads.take(i as int).map_values(|w: u16| Constraint::Length(w)).push(Constraint::Length(self.widths@[i as int])));
            i = i + 1;
        }
        assert(heads.take(self.nheadcols as int) =~= heads);
        let start = self.zoom.horizontal.position;
        let end = self.zoom.horizontal.position + self.zoom.horizontal.visible_length;
        let mut k: usize = 0;
        while k < self.ranges.len()
            invariant
                k <= self.ranges.len(),
                start == self.zoom.horizontal.position,
                end == self.zoom.horizontal.position + self.zoom.horizontal.visible_length,
                forall|j: int| 0 <= j < self.ranges@.len() ==> (#[trigger] self.ranges@[j]).0 <= self.ranges@[j].1,
                r@ == (heads + visible_lengths(self.ranges@, start as int, end as int, k as nat)).map_values(|w: u16| Constraint::Length(w)),
            decreases self.ranges.len() - k,
        {
            let (rs, re) = self.ranges[k];
            let ghost before = heads + visible_lengths(self.ranges@, start as int, end as int, k as nat);
            if re > start && rs < end {
                let hi = if end < re { end } else { re };
                let lo = if start > rs { start } else { rs };
                assert(self.ranges@[k as int].0 <= self.ranges@[k as int].1);
                let len = #[verifier::truncate] ((hi - lo) as u16);
                r.push(Constraint::Length(len));
                assert(heads + visible_lengths(self.ranges@, start as int, end as int, (k + 1) as nat) =~= before.push(len));
            } else {
                assert(heads + visible_lengths(self.ranges@, start as int, end as int, (k + 1) as nat) =~= before);
            }
            k = k + 1;
        }
        r
    }
}


/// What a big table is drawn with: the visible part, the widths of the
/// visible columns, the width of the headers and the scroll bars with the
/// area each one takes.
pub struct TableLayout {
    pub clip: TableClip,
    pub constraints: Vec<Constraint>,
    pub headers_width: u16,
    pub horizontal_bar: Option<(Rect, ScrollbarState)>,
    pub vertical_bar: Option<(Rect, ScrollbarState)>,
}

/// Whether the partial sums of the widths of some columns fit.
pub open spec fn widths_fit(widths: Seq<u16>, start: int, end: int, spacing: u16, extra: int) -> bool {
    forall|k: int| start <= k <= end ==> #[trigger] spec_range_widths(widths.subrange(start, k), spacing) + extra <= u16::MAX
}

/// Width of the headers of a table, with the space after them.
pub open spec fn headers_width(widths: Seq<u16>, nheadcols: int, spacing: u16) -> int {
    spec_range_widths(widths.subrange(0, nheadcols), spacing) + spacing
}

/// Width of the body of a table.
pub open spec fn body_width(widths: Seq<u16>, nheadcols: int, spacing: u16) -> int {
    spec_range_widths(widths.subrange(nheadcols, widths.len() as int), spacing)
}

/// Visible width of the body in an area.
pub open spec fn visible_body_width(area: Rect, widths: Seq<u16>, nheadcols: int, spacing: u16) -> nat {
    minus(minus(area.width as int, 2 * BORDER_SIZE) as int, headers_width(widths, nheadcols, spacing))
}

/// Visible height of the body in an area.
pub open spec fn visible_body_height(area: Rect, nheadrows: usize) -> nat {
    minus(minus(area.height as int, 2 * BORDER_SIZE) as int, (nheadrows as u16) as int)
}

/// The horizontal part of the body that is visible after a motion.
pub open spec fn horizontal_zoom(motion: Motion, visible: nat, total: int) -> Zoom {
    let p = resolved_position(Motion { position: motion.position, scroll: motion.scroll },
        minus(total, visible as int) as usize, half_up(visible) as usize);
    Zoom { position: (if p < total { p } else { total }) as usize, visible_length: visible as usize, total_length: total as usize }
}

impl BigTableState {
    /// Compute what the table is drawn with in an area: the visible parts
    /// follow the motion asked for and the selection, and the motion is done.
    pub fn layout(&mut self, area: Rect, widths: &[u16], nheadcols: usize, nheadrows: usize, column_spacing: u16, body_row_count: usize) -> (r: TableLayout)
        requires
            nheadcols <= widths.len(),
            widths_fit(widths@, 0, nheadcols as int, column_spacing, column_spacing as int),
            widths_fit(widths@, nheadcols as int, widths.len() as int, column_spacing, 0),
            column_start(widths@.skip(nheadcols as int), column_spacing as int, (widths.len() - nheadcols) as nat) <= usize::MAX,
            can_move(old(self).motion.horizontal.position,
                half_up(visible_body_width(area, widths@, nheadcols as int, column_spacing)) as usize,
                old(self).motion.horizontal.scroll),
            zoom_fits(old(self).selected_lineno, old(self).motion.vertical, visible_body_height(area, nheadrows) as u16),
            area.x + 2 * BORDER_SIZE + headers_width(widths@, nheadcols as int, column_spacing) <= u16::MAX,
            area.y + BORDER_SIZE + (nheadrows as u16) <= u16::MAX,
        ensures
            r.headers_width == headers_width(widths@, nheadcols as int, column_spacing),
            final(self).zoom.horizontal == horizontal_zoom(old(self).motion.horizontal,
                visible_body_width(area, widths@, nheadcols as int, column_spacing),
                body_width(widths@, nheadcols as int, column_spacing)),
            (final(self).selected_lineno, final(self).zoom.vertical) == spec_new_zoom(old(self).selected_lineno,
                old(self).min_lineno, old(self).motion.vertical, visible_body_height(area, nheadrows) as u16,
                body_row_count as u16),
            final(self).min_lineno == old(self).min_lineno,
            final(self).motion.horizontal == (Motion { position: final(self).zoom.horizontal.position, scroll: Scroll::CurrentPosition }),
            final(self).motion.vertical == (Motion { position: final(self).zoom.vertical.position, scroll: Scroll::CurrentPosition }),
            r.clip.zoom == final(self).zoom,
            r.clip.widths@ == widths@,
            r.clip.nheadcols == nheadcols,
            r.constraints@ == (widths@.take(nheadcols as int) + visible_lengths(r.clip.ranges@,
                final(self).zoom.horizontal.position as int,
                final(self).zoom.horizontal.position + final(self).zoom.horizontal.visible_length,
                r.clip.ranges@.len())).map_values(|w: u16| Constraint::Length(w)),
            r.clip.ranges@.len() == widths.len() - nheadcols,
            forall|k: int| 0 <= k < r.clip.ranges@.len() ==> {
                let s = column_start(widths@.skip(nheadcols as int), column_spacing as int, k as nat);
                &&& (#[trigger] r.clip.ranges@[k]).0 == s
                &&& r.clip.ranges@[k].1 == s + widths@[nheadcols + k]
            },
            match final(self).zoom.horizontal.scrollbar_state_spec() {
                Some(bar) => r.horizontal_bar == Some((Rect {
                    x: (area.x + BORDER_SIZE + r.headers_width) as u16,
                    y: area.y,
                    width: minus(area.width as int, area.x + BORDER_SIZE + r.headers_width + BORDER_SIZE) as u16,
                    height: area.height,
                }, bar)),
                None => r.horizontal_bar is None,
            },
            match final(self).zoom.vertical.scrollbar_state_spec() {
                Some(bar) => if final(self).zoom.vertical.total_length > 0 {
                    r.vertical_bar == Some((Rect {
                        x: area.x,
                        y: (area.y + BORDER_SIZE + (nheadrows as u16)) as u16,
                        width: area.width,
                        height: final(self).zoom.vertical.visible_length as u16,
                    }, bar))
                } else {
                    r.vertical_bar is None
                },
                None => r.vertical_bar is None,
            },
    {
        let borders = BORDER_SIZE * 2;
        let headers_width = range_widths(widths, 0, nheadcols, column_spacing) + column_spacing;
        let body_width = range_widths(widths, nheadcols, widths.len(), column_spacing);
        let visible_width = area.width.saturating_sub(borders).saturating_sub(headers_width);
        let body_height = #[verifier::truncate] (body_row_count as u16);
        let visible_height = area.height.saturating_sub(borders).saturating_sub(#[verifier::truncate] (nheadrows as u16));
        let hposition = move_position(
            self.motion.horizontal.position,
            body_width.saturating_sub(visible_width) as usize,
            ((visible_width as usize) + 1) / 2,
            self.motion.horizontal.scroll,
        );
        let hzoom = Zoom::new(hposition, visible_width as usize, body_width as usize);
        self.zoom.horizontal = hzoom;
        let (selected_lineno, vzoom) = new_zoom(self.selected_lineno, self.min_lineno, &self.motion.vertical, visible_height, body_height);
        self.selected_lineno = selected_lineno;
        self.zoom.vertical = vzoom;
        proof {
            assert(hzoom.position + hzoom.visible_length <= usize::MAX);
        }
        let clip = TableClip::new(self, widths, nheadcols, column_spacing);
        let constraints = clip.constraints();
        let horizontal_bar = match hzoom.scrollbar_state() {
            Some(bar) => {
                let x = area.x + BORDER_SIZE + headers_width;
                let width = area.width.saturating_sub(x + BORDER_SIZE);
                Some((Rect { x, y: area.y, width, height: area.height }, bar))
            },
            None => None,
        };
        let vertical_bar = match vzoom.scrollbar_state() {
            Some(bar) => {
                if vzoom.total_length > 0 {
                    let y = area.y + BORDER_SIZE + #[verifier::truncate] (nheadrows as u16);
                    let height = #[verifier::truncate] (vzoom.visible_length as u16);
                    Some((Rect { x: area.x, y, width: area.width, height }, bar))
                } else {
                    None
                }
            },
            None => None,
        };
        self.motion.horizontal.move_to(hzoom.position);
        self.motion.vertical.move_to(vzoom.position);
        TableLayout { clip, constraints, headers_width, horizontal_bar, vertical_bar }
    }
}

impl Zoom {
    /// The scroll bar of a zoom, in specifications.
    pub open spec fn scrollbar_state_spec(self) -> Option<ScrollbarState> {
        if self.position > 0 || self.visible_length < self.total_length {
            Some(ScrollbarState {
                content_length: (if self.total_length >= self.visible_length { self.total_length - self.visible_length } else { 0 }) as usize,
                position: self.position,
                viewport_content_length: self.visible_length,
            })
        } else {
            None
        }
    }
}


/// Pane with a main scrollable area on top and widgets of fixed height
/// stacked at the bottom; the last one added is the lowest.
pub struct SingleScrollablePane {
    pub area: Rect,
    pub rects: Vec<Rect>,
}

/// A widget area after a widget of a given height is pushed below it: it
/// moves up, and loses what would go above the top of the screen.
pub open spec fn lifted(r: Rect, height: u16) -> Rect {
    if r.y < height {
        Rect { y: 0, height: (r.height - (height - r.y)) as u16, ..r }
    } else {
        Rect { y: (r.y - height) as u16, ..r }
    }
}

/// The main area of a pane after a widget of a given height is pushed below
/// it.
pub open spec fn shrunk(r: Rect, height: u16) -> Rect {
    Rect { height: minus(r.height as int, height as int) as u16, ..r }
}

/// Whether a widget area keeps a height when a widget of a given height is
/// pushed below it.
pub open spec fn can_lift(r: Rect, height: u16) -> bool {
    r.y < height ==> height - r.y <= r.height
}

/// The area of each widget of a pane, none for an empty one.
pub open spec fn shown_rects(rects: Seq<Rect>) -> Seq<Option<Rect>> {
    rects.map_values(|r: Rect| if r.height == 0 { None } else { Some(r) })
}

impl SingleScrollablePane {
    pub fn new(area: Rect) -> (p: Self)
        ensures
            p.area == area,
            p.rects@ == seq![area],
    {
        let mut rects = Vec::new();
        rects.push(area);
        SingleScrollablePane { area, rects }
    }

    /// Push a widget of a given height at the bottom.
    pub fn with(self, height: u16) -> (p: Self)
        requires
            self.rects@.len() > 0,
            forall|i: int| 1 <= i < self.rects@.len() ==> can_lift(#[trigger] self.rects@[i], height),
        ensures
            p.area == self.area,
            p.rects@.len() == self.rects@.len() + 1,
            p.rects@[0] == shrunk(self.rects@[0], height),
            forall|i: int| 1 <= i < self.rects@.len() ==> p.rects@[i] == lifted(#[trigger] self.rects@[i], height),
            p.rects@.last() == (Rect {
                x: self.area.x,
                y: minus(self.area.height as int, height as int) as u16,
                width: self.area.width,
                height,
            }),
    {
        let mut p = self;
        let main = p.rects[0];
        p.rects.set(0, Rect { height: main.height.saturating_sub(height), ..main });
        let mut i: usize = 1;
        while i < p.rects.len()
            invariant
                1 <= i <= p.rects@.len(),
                p.area == self.area,
                p.rects@.len() == self.rects@.len(),
                p.rects@[0] == shrunk(self.rects@[0], height),
                forall|j: int| 1 <= j < i ==> p.rects@[j] == lifted(#[trigger] self.rects@[j], height),
                forall|j: int| i <= j < p.rects@.len() ==> p.rects@[j] == self.rects@[j],
                forall|j: int| 1 <= j < self.rects@.len() ==> can_lift(#[trigger] self.rects@[j], height),
            decreases p.rects@.len() - i,
        {
            let r = p.rects[i];
            assert(can_lift(self.rects@[i as int], height));
            let moved = if r.y < height {
                Rect { y: 0, height: r.height - (height - r.y), ..r }
            } else {
                Rect { y: r.y - height, ..r }
            };
            p.rects.set(i, moved);
            i = i + 1;
        }
        let bottom = Rect { x: p.area.x, y: p.area.height.saturating_sub(height), width: p.area.width, height };
        let ghost before = p.rects@;
        p.rects.push(bottom);
        assert(forall|j: int| 0 <= j < before.len() ==> p.rects@[j] == before[j]);
        p
    }

    /// The area of each widget, none for those of no height.
    pub fn build(&self) -> (r: Vec<Option<Rect>>)
        ensures
            r@ == shown_rects(self.rects@),
    {
        let mut r: Vec<Option<Rect>> = Vec::new();
        let mut i: usize = 0;
        while i < self.rects.len()
            invariant
                i <= self.rects@.len(),
                r@ == shown_rects(self.rects@.take(i as int)),
            decreases self.rects@.len() - i,
        {
            let rect = self.rects[i];
            r.push(if rect.height == 0 { None } else { Some(rect) });
            assert(shown_rects(self.rects@.take(i + 1)) =~= shown_rects(self.rects@.take(i as int)).push(
                if rect.height == 0 { None } else { Some(rect) }));
            i = i + 1;
        }
        assert(self.rects@.take(self.rects@.len() as int) =~= self.rects@);
        r
    }
}

/// Share of a row given to a widget: a percentage of the width, or what is
/// left.
#[derive(Clone, Copy, Debug, PartialEq, Eq, Structural)]
pub enum RowConstraint {
    Percentage(u16),
    Fill(u16),
}

/// Whether an area lies within a row: same top and height, and its left and
/// right edges between those of the row.
pub open spec fn rect_within_row(r: Rect, row: Rect) -> bool {
    &&& r.y == row.y
    &&& r.height == row.height
    &&& row.x <= r.x
    &&& r.x + r.width <= row.x + row.width
}

/// Whether areas are `n` areas within a row.
pub open spec fn split_within(split: Seq<Rect>, row: Rect, n: nat) -> bool {
    &&& split.len() == n
    &&& forall|i: int| 0 <= i < split.len() ==> #[trigger] rect_within_row(split[i], row)
}

/// `ratatui::layout::Layout::horizontal(constraints).split(area)`: one area
/// per constraint, each within the given area. The areas are built by
/// `changes_to_rects` with the top and height of the area, and left and
/// right edges rounded from solver variables that constraints of required
/// strength keep between the area's edges; nothing required keeps one area
/// from reaching into the next, so that is not stated. `split` stops the
/// program when the solver refuses a constraint: the required ones it adds
/// (the area's edges, each variable within them, each area's start before
/// its end) can always be met, percentages and fills are added at weaker
/// strengths, and each constraint is a new one; a failure inside the solver
/// itself (`InternalSolverError`) is the case left unstated.
#[verifier::external_body]
fn split_horizontally(constraints: &[RowConstraint], area: Rect) -> (r: Vec<Rect>)
    ensures
        split_within(r@, area, constraints@.len()),
{
    let cs: Vec<ratatui::layout::Constraint> = constraints.iter().map(|c| match c {
        RowConstraint::Percentage(p) => ratatui::layout::Constraint::Percentage(*p),
        RowConstraint::Fill(f) => ratatui::layout::Constraint::Fill(*f),
    }).collect();
    let area = ratatui::layout::Rect { x: area.x, y: area.y, width: area.width, height: area.height };
    let rects = ratatui::layout::Layout::horizontal(cs).split(area);
    rects.iter().map(|r| Rect { x: r.x, y: r.y, width: r.width, height: r.height }).collect()
}

/// A line of a grid: a row of widgets with its height, the space that is
/// left, or a widget on a line of its own at the bottom.
#[derive(Clone, Copy, Debug, PartialEq, Eq, Structural)]
pub enum GridLine {
    Row(usize, u16),
    Fill,
    Line(u16),
}

/// Pane where the widgets of a row are evenly distributed; rows are
/// truncated when the screen is too small; the widgets at the bottom are
/// one per line and always displayed.
pub struct GridPane {
    pub area: Rect,
    pub lines: Vec<GridLine>,
}

/// Constraints of a row of widgets: an even share each, the last one takes
/// what is left.
pub open spec fn row_constraints(ratio: u16, ncols: nat) -> Seq<RowConstraint> {
    Seq::new((ncols - 1) as nat, |i: int| RowConstraint::Percentage(ratio)).push(RowConstraint::Fill(1))
}

/// Total height of the lines at the bottom.
pub open spec fn bottom_height(lines: Seq<GridLine>) -> int
    decreases lines.len(),
{
    if lines.len() == 0 {
        0
    } else {
        bottom_height(lines.drop_last()) + match lines.last() {
            GridLine::Line(h) => h as int,
            _ => 0int,
        }
    }
}

/// Where the areas of a grid are: the top of the next one, the height left
/// for the rows, the height left for the bottom lines, and the areas, none
/// for a widget that is not shown.
pub struct GridState {
    pub y: int,
    pub body: int,
    pub bottom: int,
    pub rects: Seq<Option<Rect>>,
}

/// Areas of no widget.
pub open spec fn nones(n: nat) -> Seq<Option<Rect>> {
    Seq::new(n, |i: int| None::<Rect>)
}

/// The area of a row of widgets: the width of the grid, the height of the
/// row as far as the space left allows.
pub open spec fn row_area(area: Rect, st: GridState, h: u16) -> Rect {
    let height = if st.body < h { st.body } else { h as int };
    Rect { x: area.x, y: st.y as u16, width: area.width, height: height as u16 }
}

/// The areas after one more line of a grid, where `split` is what the
/// layout solver gave the widgets of a row.
pub open spec fn grid_step(area: Rect, st: GridState, line: GridLine, split: Seq<Rect>) -> GridState {
    match line {
        GridLine::Row(ncols, h) => if st.body > 0 {
            let height = if st.body < h { st.body } else { h as int };
            let ratio = (100u16 / (ncols as u16)) as int;
            if ratio == 0 {
                GridState { rects: st.rects + nones(ncols as nat), ..st }
            } else {
                GridState {
                    y: st.y + height,
                    body: st.body - height,
                    rects: st.rects + split.map_values(|r: Rect| Some(r)),
                    ..st
                }
            }
        } else {
            GridState { rects: st.rects + nones(ncols as nat), ..st }
        },
        GridLine::Fill => if st.body > 0 {
            GridState {
                y: st.y + st.body,
                body: 0,
                rects: st.rects.push(Some(Rect { x: area.x, y: st.y as u16, width: area.width, height: st.body as u16 })),
                ..st
            }
        } else {
            GridState { rects: st.rects.push(None), ..st }
        },
        GridLine::Line(h) => if h <= st.bottom {
            GridState {
                y: st.y + h,
                bottom: st.bottom - h,
                rects: st.rects.push(Some(Rect { x: area.x, y: st.y as u16, width: area.width, height: h })),
                ..st
            }
        } else {
            GridState { rects: st.rects.push(None), ..st }
        },
    }
}

/// The areas of the first lines of a grid, where `splits[k]` is what the
/// layout solver gave the widgets of line `k` if it is a row.
pub open spec fn grid_areas(area: Rect, lines: Seq<GridLine>, n: nat, splits: Seq<Seq<Rect>>) -> GridState
    decreases n,
{
    if n == 0 {
        let bottom = bottom_height(lines);
        GridState { y: area.y as int, body: minus(area.height as int, bottom) as int, bottom, rects: Seq::empty() }
    } else {
        grid_step(area, grid_areas(area, lines, (n - 1) as nat, splits), lines[n - 1], splits[n - 1])
    }
}

/// Whether what the solver gave a line, if it is a row that is shown, is one
/// area per widget within the row.
pub open spec fn row_split_ok(area: Rect, st: GridState, line: GridLine, split: Seq<Rect>) -> bool {
    match line {
        GridLine::Row(ncols, h) => st.body > 0 && 100u16 / (ncols as u16) != 0 ==> split_within(split, row_area(area, st, h), ncols as nat),
        _ => true,
    }
}

/// Whether what the solver gave each of the first lines of a grid is as it
/// promises.
pub open spec fn grid_splits_ok(area: Rect, lines: Seq<GridLine>, n: nat, splits: Seq<Seq<Rect>>) -> bool
    decreases n,
{
    if n == 0 {
        true
    } else {
        grid_splits_ok(area, lines, (n - 1) as nat, splits)
            && row_split_ok(area, grid_areas(area, lines, (n - 1) as nat, splits), lines[n - 1], splits[n - 1])
    }
}

/// Whether areas are those of the widgets of a grid, for some areas that the
/// solver may give the widgets of each row.
pub open spec fn is_grid_layout(area: Rect, lines: Seq<GridLine>, rects: Seq<Option<Rect>>) -> bool {
    exists|splits: Seq<Seq<Rect>>|
        splits.len() == lines.len() && #[trigger] grid_splits_ok(area, lines, lines.len(), splits)
            && rects == grid_areas(area, lines, lines.len(), splits).rects
}

proof fn lemma_grid_prefix(area: Rect, lines: Seq<GridLine>, n: nat, splits: Seq<Seq<Rect>>, more: Seq<Rect>)
    requires
        n <= splits.len(),
    ensures
        grid_areas(area, lines, n, splits.push(more)) == grid_areas(area, lines, n, splits),
        grid_splits_ok(area, lines, n, splits.push(more)) == grid_splits_ok(area, lines, n, splits),
    decreases n,
{
    if n > 0 {
        lemma_grid_prefix(area, lines, (n - 1) as nat, splits, more);
        assert(splits.push(more)[n - 1] == splits[n - 1]);
    }
}

/// Whether the lines of a grid can be laid out: rows have widgets and the
/// heights add up within the screen coordinates.
pub open spec fn grid_fits(area: Rect, lines: Seq<GridLine>) -> bool {
    &&& forall|i: int| 0 <= i < lines.len() ==> (#[trigger] lines[i] matches GridLine::Row(n, _) ==> 0 < n && n <= u16::MAX)
    &&& bottom_height(lines) <= u16::MAX
    &&& area.y + (if area.height < bottom_height(lines) { bottom_height(lines) } else { area.height as int }) <= u16::MAX
}

proof fn lemma_bottom_grows(lines: Seq<GridLine>, j: int, k: int)
    requires
        0 <= j <= k <= lines.len(),
    ensures
        bottom_height(lines.take(j)) <= bottom_height(lines.take(k)),
    decreases k - j,
{
    if j < k {
        lemma_bottom_grows(lines, j, k - 1);
        assert(lines.take(k).drop_last() =~= lines.take(k - 1));
    }
}

impl GridPane {
    pub fn new(area: Rect) -> (g: Self)
        ensures
            g.area == area,
            g.lines@.len() == 0,
    {
        GridPane { area, lines: Vec::new() }
    }

    /// Add a row of widgets of given heights; it is as high as the highest.
    pub fn with_row(self, heights: &[u16]) -> (g: Self)
        requires
            self.lines@.len() > 0 ==> self.lines@.last() is Row,
        ensures
            g.area == self.area,
            g.lines@ == self.lines@.push(GridLine::Row(heights@.len() as usize, max_height(heights@))),
    {
        let mut height: u16 = 0;
        let mut i: usize = 0;
        while i < heights.len()
            invariant
                i <= heights.len(),
                height == max_height(heights@.take(i as int)),
            decreases heights.len() - i,
        {
            assert(heights@.take(i + 1).drop_last() =~= heights@.take(i as int));
            if heights[i] > height {
                height = heights[i];
            }
            i = i + 1;
        }
        assert(heights@.take(heights.len() as int) =~= heights@);
        let mut g = self;
        g.lines.push(GridLine::Row(heights.len(), height));
        g
    }

    /// Add a row of widgets if a condition holds.
    pub fn with_row_if(self, heights: &[u16], cond: bool) -> (g: Self)
        requires
            cond && self.lines@.len() > 0 ==> self.lines@.last() is Row,
        ensures
            g.area == self.area,
            g.lines@ == if cond { self.lines@.push(GridLine::Row(heights@.len() as usize, max_height(heights@))) } else { self.lines@ },
    {
        if cond { self.with_row(heights) } else { self }
    }

    /// Add a widget of a given height on a line of its own at the bottom;
    /// the rows above take the space that is left.
    pub fn with_line(self, height: u16) -> (g: Self)
        ensures
            g.area == self.area,
            g.lines@ == if self.lines@.len() > 0 && self.lines@.last() is Row {
                self.lines@.push(GridLine::Fill).push(GridLine::Line(height))
            } else {
                self.lines@.push(GridLine::Line(height))
            },
    {
        let mut g = self;
        let after_row = g.lines.len() > 0 && matches!(g.lines[g.lines.len() - 1], GridLine::Row(_, _));
        if after_row {
            g.lines.push(GridLine::Fill);
        }
        g.lines.push(GridLine::Line(height));
        g
    }

    /// The area of each widget, none for those that are not shown.
    pub fn build(&self) -> (r: Vec<Option<Rect>>)
        requires
            grid_fits(self.area, self.lines@),
        ensures
            is_grid_layout(self.area, self.lines@, r@),
    {
        let ghost lines = self.lines@;
        let area = self.area;
        let mut bottom: u16 = 0;
        let mut i: usize = 0;
        while i < self.lines.len()
            invariant
                i <= self.lines.len(),
                lines == self.lines@,
                grid_fits(area, lines),
                bottom == bottom_height(lines.take(i as int)),
            decreases self.lines.len() - i,
        {
            assert(lines.take(i + 1).drop_last() =~= lines.take(i as int));
            assert(bottom_height(lines.take(i + 1)) <= u16::MAX) by {
                lemma_bottom_grows(lines, i + 1, lines.len() as int);
                assert(lines.take(lines.len() as int) =~= lines);
            }
            match self.lines[i] {
                GridLine::Line(h) => bottom = bottom + h,
                _ => {},
            }
            i = i + 1;
        }
        assert(lines.take(lines.len() as int) =~= lines);
        let ghost total_bottom = bottom as int;
        let mut y: u16 = area.y;
        let mut body: u16 = area.height.saturating_sub(bottom);
        let mut rects: Vec<Option<Rect>> = Vec::new();
        let ghost mut splits: Seq<Seq<Rect>> = Seq::empty();
        let mut k: usize = 0;
        while k < self.lines.len()
            invariant
                k <= self.lines.len(),
                lines == self.lines@,
                area == self.area,
                grid_fits(area, lines),
                total_bottom == bottom_height(lines),
                splits.len() == k,
                grid_splits_ok(area, lines, k as nat, splits),
                ({
                    let st = grid_areas(area, lines, k as nat, splits);
                    &&& st.y == y
                    &&& st.body == body
                    &&& st.bottom == bottom
                    &&& st.rects == rects@
                }),
                y + body + bottom <= area.y + (if area.height < total_bottom { total_bottom } else { area.height as int }),
            decreases self.lines.len() - k,
        {
            let ghost before = rects@;
            let ghost mut cur: Seq<Rect> = Seq::empty();
            match self.lines[k] {
                GridLine::Row(ncols, h) => {
                    assert(lines[k as int] matches GridLine::Row(n, _) ==> 0 < n && n <= u16::MAX);
                    if body > 0 {
                        let height = if body < h { body } else { h };
                        let ratio = 100 / (ncols as u16);
                        if ratio == 0 {
                            push_nones(&mut rects, ncols);
                        } else {
                            let rect = Rect { x: area.x, y, width: area.width, height };
                            let mut constraints: Vec<RowConstraint> = Vec::new();
                            let mut c: usize = 0;
                            while c + 1 < ncols
                                invariant
                                    c + 1 <= ncols,
                                    constraints@ == Seq::new(c as nat, |i: int| RowConstraint::Percentage(ratio)),
                                decreases ncols - c,
                            {
                                constraints.push(RowConstraint::Percentage(ratio));
                                assert(constraints@ =~= Seq::new((c + 1) as nat, |i: int| RowConstraint::Percentage(ratio)));
                                c = c + 1;
                            }
                            constraints.push(RowConstraint::Fill(1));
                            assert(constraints@ =~= row_constraints(ratio, ncols as nat));
                            let split = split_horizontally(constraints.as_slice(), rect);
                            proof {
                                cur = split@;
                            }
                            let mut j: usize = 0;
                            while j < split.len()
                                invariant
                                    j <= split.len(),
                                    rects@ == before + split@.take(j as int).map_values(|r: Rect| Some(r)),
                                decreases split.len() - j,
                            {
                                rects.push(Some(split[j]));
                                assert(split@.take(j + 1).map_values(|r: Rect| Some(r))
                                    =~= split@.take(j as int).map_values(|r: Rect| Some(r)).push(Some(split@[j as int])));
                                j = j + 1;
                            }
                            assert(split@.take(split.len() as int) =~= split@);
                            body = body - height;
                            y = y + height;
                        }
                    } else {
                        push_nones(&mut rects, ncols);
                    }
                },
                GridLine::Fill => {
                    if body > 0 {
                        rects.push(Some(Rect { x: area.x, y, width: area.width, height: body }));
                        y = y + body;
                        body = 0;
                    } else {
                        rects.push(None);
                    }
                },
                GridLine::Line(h) => {
                    if h <= bottom {
                        rects.push(Some(Rect { x: area.x, y, width: area.width, height: h }));
                        y = y + h;
                        bottom = bottom - h;
                    } else {
                        rects.push(None);
                    }
                },
            }
            proof {
                lemma_grid_prefix(area, lines, k as nat, splits, cur);
                splits = splits.push(cur);
            }
            k = k + 1;
        }
        assert(grid_splits_ok(area, lines, lines.len(), splits));
        rects
    }
}

/// Highest of some heights, 0 for none.
pub open spec fn max_height(heights: Seq<u16>) -> u16
    decreases heights.len(),
{
    if heights.len() == 0 {
        0
    } else {
        let m = max_height(heights.drop_last());
        if heights.last() > m { heights.last() } else { m }
    }
}

fn push_nones(rects: &mut Vec<Option<Rect>>, n: usize)
    ensures
        final(rects)@ == old(rects)@ + nones(n as nat),
{
    let mut i: usize = 0;
    while i < n
        invariant
            i <= n,
            rects@ == old(rects)@ + nones(i as nat),
        decreases n - i,
    {
        rects.push(None);
        assert(old(rects)@ + nones((i + 1) as nat) =~= (old(rects)@ + nones(i as nat)).push(None));
        i = i + 1;
    }
}

/// Horizontal alignment of a text in a cell.
#[derive(Clone, Copy, Debug, PartialEq, Eq, Structural)]
pub enum Alignment {
    Left,
    Center,
    Right,
}

/// The visible lines of a cell and their alignment.
pub struct CellText {
    pub lines: Vec<String>,
    pub alignment: Alignment,
}

/// The lines of a text made of one string: a single empty line for an
/// empty string.
pub open spec fn raw_text(s: Seq<char>) -> Seq<Seq<char>> {
    if s.len() == 0 {
        seq![Seq::empty()]
    } else {
        text_lines(s)
    }
}

/// A run of spaces.
pub open spec fn spaces(n: nat) -> Seq<char> {
    Seq::new(n, |i: int| ' ')
}

/// A line centered in `width` bytes, padded on the side given by `align`
/// as a formatter pads to a number of characters, cut to what is left
/// after `truncation` bytes, without white space at either end.
pub open spec fn centered_cut(l: Seq<char>, truncation: int, width: int, align: Alignment) -> Seq<char> {
    let llen = utf8_len(l);
    let indent = if width >= llen { (width - llen) / 2 } else { 0 };
    let fill = spaces(minus(llen + indent, l.len() as int));
    let padded = if align == Alignment::Left { l + fill } else { fill + l };
    spec_trim(byte_prefix(padded, width - truncation))
}

impl TableClip {
    /// Whether the first `n` body columns can be clipped: they have a range
    /// and a width, each range is no wider than its column, and the end of
    /// the visible part can be computed.
    pub open spec fn clip_ready(self, n: int) -> bool {
        &&& n <= self.ranges@.len()
        &&& self.nheadcols + n <= self.widths.len()
        &&& forall|c: int| 0 <= c < n ==> (#[trigger] self.ranges@[c]).0 <= self.ranges@[c].1
            && self.ranges@[c].1 <= self.ranges@[c].0 + self.widths@[self.nheadcols + c]
        &&& self.zoom.horizontal.position + self.zoom.horizontal.visible_length <= usize::MAX
    }

    /// The visible part of the text of body column `colnum` and its
    /// alignment, none when the column cannot be seen.
    pub open spec fn clipped(self, colnum: int, value: Seq<char>, alignment: Alignment) -> Option<(Seq<Seq<char>>, Alignment)> {
        let range = self.ranges@[colnum];
        let width = self.widths@[self.nheadcols + colnum] as int;
        let start = self.zoom.horizontal.position as int;
        let end = start + self.zoom.horizontal.visible_length;
        if range.1 <= start || range.0 >= end {
            None
        } else if range.0 < start {
            let truncation = start - range.0;
            match alignment {
                Alignment::Left => Some((text_lines(value).map_values(|l: Seq<char>| byte_suffix(l, truncation)), Alignment::Left)),
                Alignment::Right => Some((text_lines(value).map_values(
                    |l: Seq<char>| byte_suffix(l, minus(truncation + utf8_len(l), width) as int)), Alignment::Right)),
                Alignment::Center => Some((text_lines(value).map_values(
                    |l: Seq<char>| centered_cut(l, truncation, width, Alignment::Left)), Alignment::Left)),
            }
        } else if range.1 > end {
            let truncation = range.1 - end;
            match alignment {
                Alignment::Left => Some((text_lines(value).map_values(|l: Seq<char>| byte_prefix(l, width - truncation)), Alignment::Left)),
                Alignment::Right => Some((raw_text(byte_take(value, minus(utf8_len(value), truncation) as int)), Alignment::Right)),
                Alignment::Center => Some((text_lines(value).map_values(
                    |l: Seq<char>| centered_cut(l, truncation, width, Alignment::Right)), Alignment::Right)),
            }
        } else {
            Some((raw_text(value), alignment))
        }
    }

    /// The visible part of a cell of body column `colnum` (the first column
    /// after the headers is 0), none when the column cannot be seen.
    pub fn clip_cell(&self, colnum: usize, value: &str, alignment: Alignment) -> (r: Option<CellText>)
        requires
            colnum < self.ranges@.len(),
            self.nheadcols + colnum < self.widths.len(),
            self.ranges@[colnum as int].0 <= self.ranges@[colnum as int].1,
            self.ranges@[colnum as int].1 <= self.ranges@[colnum as int].0 + self.widths@[self.nheadcols + colnum],
            self.zoom.horizontal.position + self.zoom.horizontal.visible_length <= usize::MAX,
        ensures
            match self.clipped(colnum as int, value@, alignment) {
                Some((lines, a)) => r matches Some(t) && strings_view(t.lines@) == lines && t.alignment == a,
                None => r is None,
            },
    {
        let (rstart, rend) = self.ranges[colnum];
        let width = self.widths[self.nheadcols + colnum] as usize;
        let start = self.zoom.horizontal.position;
        let end = start + self.zoom.horizontal.visible_length;
        if rend <= start || rstart >= end {
            None
        } else if rstart < start {
            let truncation = start - rstart;
            match alignment {
                Alignment::Left => Some(CellText { lines: suffix_lines(value, truncation), alignment: Alignment::Left }),
                Alignment::Right => Some(CellText { lines: right_suffix_lines(value, truncation, width), alignment: Alignment::Right }),
                Alignment::Center => Some(CellText {
                    lines: centered_lines(value, truncation, width, Alignment::Left),
                    alignment: Alignment::Left,
                }),
            }
        } else if rend > end {
            let truncation = rend - end;
            match alignment {
                Alignment::Left => Some(CellText { lines: prefix_lines(value, width - truncation), alignment: Alignment::Left }),
                Alignment::Right => {
                    let vlen = str_len(value);
                    let len = if vlen > truncation { vlen - truncation } else { 0 };
                    let kept = str_take(value, len);
                    Some(CellText { lines: raw_lines(kept.as_str()), alignment: Alignment::Right })
                },
                Alignment::Center => Some(CellText {
                    lines: centered_lines(value, truncation, width, Alignment::Right),
                    alignment: Alignment::Right,
                }),
            }
        } else {
            Some(CellText { lines: raw_lines(value), alignment })
        }
    }
}

/// The lines of a text made of one string.
pub fn raw_lines(s: &str) -> (r: Vec<String>)
    ensures
        strings_view(r@) == raw_text(s@),
{
    if str_len(s) == 0 {
        proof {
            broadcast use vstd::utf8::encode_utf8_decode_utf8;
            assert(s@ == vstd::utf8::decode_utf8(vstd::utf8::encode_utf8(s@)));
            assert(s@ =~= Seq::<char>::empty());
        }
        let r = vec![String::new()];
        assert(strings_view(r@) =~= seq![Seq::<char>::empty()]);
        r
    } else {
        assert(s@.len() != 0) by {
            if s@.len() == 0 {
                assert(s@ =~= Seq::<char>::empty());
                assert(vstd::utf8::encode_utf8(s@) =~= Seq::<u8>::empty());
            }
        }
        lines_of(s)
    }
}

/// The lines of a text, each without its first `offset` bytes.
fn suffix_lines(value: &str, offset: usize) -> (r: Vec<String>)
    ensures
        strings_view(r@) == text_lines(value@).map_values(|l: Seq<char>| byte_suffix(l, offset as int)),
{
    let lines = lines_of(value);
    let ghost src = text_lines(value@);
    let mut r: Vec<String> = Vec::new();
    let mut i: usize = 0;
    while i < lines.len()
        invariant
            i <= lines@.len(),
            strings_view(lines@) == src,
            strings_view(r@) == src.take(i as int).map_values(|l: Seq<char>| byte_suffix(l, offset as int)),
        decreases lines@.len() - i,
    {
        assert(lines@[i as int]@ == src[i as int]);
        let cut = str_suffix(lines[i].as_str(), offset);
        let ghost before = r@;
        r.push(cut);
        assert(strings_view(r@) =~= strings_view(before).push(cut@));
        assert(src.take(i + 1).map_values(|l: Seq<char>| byte_suffix(l, offset as int))
            =~= src.take(i as int).map_values(|l: Seq<char>| byte_suffix(l, offset as int)).push(cut@));
        assert(strings_view(r@) =~= src.take(i + 1).map_values(|l: Seq<char>| byte_suffix(l, offset as int)));
        i = i + 1;
    }
    assert(src.take(lines@.len() as int) =~= src);
    r
}

/// The lines of a text, each cut to at most `len` bytes.
fn prefix_lines(value: &str, len: usize) -> (r: Vec<String>)
    ensures
        strings_view(r@) == text_lines(value@).map_values(|l: Seq<char>| byte_prefix(l, len as int)),
{
    let lines = lines_of(value);
    let ghost src = text_lines(value@);
    let mut r: Vec<String> = Vec::new();
    let mut i: usize = 0;
    while i < lines.len()
        invariant
            i <= lines@.len(),
            strings_view(lines@) == src,
            strings_view(r@) == src.take(i as int).map_values(|l: Seq<char>| byte_prefix(l, len as int)),
        decreases lines@.len() - i,
    {
        assert(lines@[i as int]@ == src[i as int]);
        let cut = str_prefix(lines[i].as_str(), len);
        let ghost before = r@;
        r.push(cut);
        assert(strings_view(r@) =~= strings_view(before).push(cut@));
        assert(src.take(i + 1).map_values(|l: Seq<char>| byte_prefix(l, len as int))
            =~= src.take(i as int).map_values(|l: Seq<char>| byte_prefix(l, len as int)).push(cut@));
        assert(strings_view(r@) =~= src.take(i + 1).map_values(|l: Seq<char>| byte_prefix(l, len as int)));
        i = i + 1;
    }
    assert(src.take(lines@.len() as int) =~= src);
    r
}

/// A line right-aligned in `width` bytes, without the first `truncation`
/// bytes of the column.
fn right_suffix(l: &str, truncation: usize, width: usize) -> (r: String)
    ensures
        r@ == byte_suffix(l@, minus(truncation + utf8_len(l@), width as int) as int),
{
    broadcast use vstd::utf8::encode_utf8_valid_utf8;
    let llen = str_len(l);
    if llen >= width {
        if llen - width > usize::MAX - truncation {
            proof {
                let b = vstd::utf8::encode_utf8(l@);
                let off = minus(truncation + utf8_len(l@), width as int) as int;
                assert(b.len() < off);
                assert(!vstd::utf8::is_char_boundary(b, off));
            }
            String::new()
        } else {
            str_suffix(l, llen - width + truncation)
        }
    } else if truncation > width - llen {
        str_suffix(l, truncation - (width - llen))
    } else {
        str_suffix(l, 0)
    }
}

/// The lines of a text right-aligned in `width` bytes, without the first
/// `truncation` bytes of the column.
fn right_suffix_lines(value: &str, truncation: usize, width: usize) -> (r: Vec<String>)
    ensures
        strings_view(r@) == text_lines(value@).map_values(
            |l: Seq<char>| byte_suffix(l, minus(truncation + utf8_len(l), width as int) as int)),
{
    let lines = lines_of(value);
    let ghost src = text_lines(value@);
    let mut r: Vec<String> = Vec::new();
    let mut i: usize = 0;
    while i < lines.len()
        invariant
            i <= lines@.len(),
            strings_view(lines@) == src,
            strings_view(r@) == src.take(i as int).map_values(
                |l: Seq<char>| byte_suffix(l, minus(truncation + utf8_len(l), width as int) as int)),
        decreases lines@.len() - i,
    {
        assert(lines@[i as int]@ == src[i as int]);
        let cut = right_suffix(lines[i].as_str(), truncation, width);
        let ghost before = r@;
        r.push(cut);
        assert(strings_view(r@) =~= strings_view(before).push(cut@));
        assert(src.take(i + 1).map_values(|l: Seq<char>| byte_suffix(l, minus(truncation + utf8_len(l), width as int) as int))
            =~= src.take(i as int).map_values(|l: Seq<char>| byte_suffix(l, minus(truncation + utf8_len(l), width as int) as int)).push(cut@));
        assert(strings_view(r@) =~= src.take(i + 1).map_values(
            |l: Seq<char>| byte_suffix(l, minus(truncation + utf8_len(l), width as int) as int)));
        i = i + 1;
    }
    assert(src.take(lines@.len() as int) =~= src);
    r
}

/// Add `n` spaces.
fn push_spaces(v: &mut Vec<char>, n: usize)
    ensures
        final(v)@ == old(v)@ + spaces(n as nat),
{
    let mut i: usize = 0;
    while i < n
        invariant
            i <= n,
            v@ == old(v)@ + spaces(i as nat),
        decreases n - i,
    {
        v.push(' ');
        assert(old(v)@ + spaces((i + 1) as nat) =~= (old(v)@ + spaces(i as nat)).push(' '));
        i = i + 1;
    }
}

/// A line centered in `width` bytes and cut on one side.
fn centered_line(l: &str, truncation: usize, width: usize, align: Alignment) -> (r: String)
    requires
        truncation <= width,
        align != Alignment::Center,
    ensures
        r@ == centered_cut(l@, truncation as int, width as int, align),
{
    let llen = str_len(l);
    let indent = if width >= llen { (width - llen) / 2 } else { 0 };
    let chars = str_chars(l);
    let charlen = chars.len();
    let mut fill: Vec<char> = Vec::new();
    if llen >= charlen {
        push_spaces(&mut fill, indent);
        push_spaces(&mut fill, llen - charlen);
        assert(fill@ =~= spaces(minus(llen + indent, charlen as int)));
    } else if indent > charlen - llen {
        push_spaces(&mut fill, indent - (charlen - llen));
        assert(fill@ =~= spaces(minus(llen + indent, charlen as int)));
    } else {
        assert(fill@ =~= spaces(minus(llen + indent, charlen as int)));
    }
    let mut padded: Vec<char> = Vec::new();
    if align == Alignment::Left {
        padded = chars;
        padded.append(&mut fill);
    } else {
        padded = fill;
        let mut rest = chars;
        padded.append(&mut rest);
    }
    let s = string_from_chars(padded.as_slice());
    let cut = str_prefix(s.as_str(), width - truncation);
    trim(cut.as_str())
}

/// The lines of a text centered in `width` bytes and cut on one side.
fn centered_lines(value: &str, truncation: usize, width: usize, align: Alignment) -> (r: Vec<String>)
    requires
        truncation <= width,
        align != Alignment::Center,
    ensures
        strings_view(r@) == text_lines(value@).map_values(
            |l: Seq<char>| centered_cut(l, truncation as int, width as int, align)),
{
    let lines = lines_of(value);
    let ghost src = text_lines(value@);
    let mut r: Vec<String> = Vec::new();
    let mut i: usize = 0;
    while i < lines.len()
        invariant
            i <= lines@.len(),
            truncation <= width,
            align != Alignment::Center,
            strings_view(lines@) == src,
            strings_view(r@) == src.take(i as int).map_values(
                |l: Seq<char>| centered_cut(l, truncation as int, width as int, align)),
        decreases lines@.len() - i,
    {
        assert(lines@[i as int]@ == src[i as int]);
        let cut = centered_line(lines[i].as_str(), truncation, width, align);
        let ghost before = r@;
        r.push(cut);
        assert(strings_view(r@) =~= strings_view(before).push(cut@));
        assert(src.take(i + 1).map_values(|l: Seq<char>| centered_cut(l, truncation as int, width as int, align))
            =~= src.take(i as int).map_values(|l: Seq<char>| centered_cut(l, truncation as int, width as int, align)).push(cut@));
        assert(strings_view(r@) =~= src.take(i + 1).map_values(
            |l: Seq<char>| centered_cut(l, truncation as int, width as int, align)));
        i = i + 1;
    }
    assert(src.take(lines@.len() as int) =~= src);
    r
}

} // verus!
