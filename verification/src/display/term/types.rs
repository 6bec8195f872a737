//! Small geometric types of the terminal display.

use vstd::prelude::*;
use vstd::string::StringSliceAdditionalSpecFns;

verus! {

/// Properties applied to a 2-dimensions area.
#[derive(Clone, Copy, Debug, Default, PartialEq)]
pub struct Area<T> {
    pub horizontal: T,
    pub vertical: T,
}

impl<T> Area<T> {
    pub fn new(horizontal: T, vertical: T) -> (a: Self)
        ensures
            a.horizontal == horizontal,
            a.vertical == vertical,
    {
        Self { horizontal, vertical }
    }
}

/// Length of a string in bytes, as a column width.
pub open spec fn byte_len(s: &str) -> usize {
    s.spec_bytes().len() as usize
}

/// Compute the maximum length of strings
#[derive(Clone, Copy, Debug, Default)]
pub struct MaxLength(pub u16);

/// Largest truncated length of a list of strings, at least `start`.
pub open spec fn max_truncated_len(start: u16, items: Seq<&str>) -> u16
    decreases items.len(),
{
    if items.len() == 0 {
        start
    } else {
        let rest = max_truncated_len(start, items.drop_last());
        let l = byte_len(items.last()) as u16;
        if l > rest { l } else { rest }
    }
}

impl MaxLength {
    /// Maximum length of the given lines.
    pub fn with_lines(items: &[&str]) -> (m: Self)
        ensures
            m.0 == max_truncated_len(0, items@),
    {
        let mut ml = Self(0);
        ml.check_lines(items);
        ml
    }

    /// The length.
    pub fn len(&self) -> (l: u16)
        ensures
            l == self.0,
    {
        let Self(length) = self;
        *length
    }

    /// Count the maximun length of a string
    pub fn check(&mut self, s: &str)
        ensures
            final(self).0 == if (byte_len(s) as u16) > old(self).0 { byte_len(s) as u16 } else { old(self).0 },
    {
        self.set_min(s.len());
    }

    /// The larger of two lengths.
    pub fn max(self, other: Self) -> (m: Self)
        ensures
            m.0 == if self.0 < other.0 { other.0 } else { self.0 },
    {
        if self.0 < other.0 {
            other
        } else {
            self
        }
    }

    /// Check the length of each lines.
    pub fn check_lines(&mut self, items: &[&str])
        ensures
            final(self).0 == max_truncated_len(old(self).0, items@),
    {
        let ghost start = self.0;
        let mut i: usize = 0;
        while i < items.len()
            invariant
                0 <= i <= items.len(),
                self.0 == max_truncated_len(start, items@.take(i as int)),
            decreases items.len() - i,
        {
            assert(items@.take(i + 1).drop_last() =~= items@.take(i as int));
            assert(items@.take(i + 1).last() == items@[i as int]);
            self.check(items[i]);
            i = i + 1;
        }
        assert(items@.take(items.len() as int) =~= items@);
    }

    /// Ensure a minimum length
    pub fn set_min(&mut self, l: usize)
        ensures
            final(self).0 == if (l as u16) > old(self).0 { l as u16 } else { old(self).0 },
    {
        let l = l as u16;
        if l > self.0 {
            self.0 = l
        }
    }
}

impl vstd::std_specs::convert::FromSpecImpl<usize> for MaxLength {
    open spec fn obeys_from_spec() -> bool {
        true
    }

    open spec fn from_spec(value: usize) -> MaxLength {
        MaxLength(value as u16)
    }
}

impl From<usize> for MaxLength {
    fn from(value: usize) -> (m: Self) {
        Self(value as u16)
    }
}

/// Horizontal or vertical scrolling.
///
/// The position is a number of characters horizontally or lines vertically.
/// The page depends on the rendered component.
#[derive(Debug, Clone, Copy, PartialEq, Eq, Structural)]
pub enum Scroll {
    /// No move
    CurrentPosition,
    /// First position.
    FirstPosition,
    /// Last position.
    LastPosition,
    /// Previous position from the current one.
    PreviousPosition,
    /// Next position from the current one.
    NextPosition,
    /// Previous page from the current one.
    PreviousPage,
    /// Next page from the current one.
    NextPage,
    /// Up in a hierarchy
    Up,
}

impl Default for Scroll {
    fn default() -> (s: Self)
        ensures
            s == Scroll::CurrentPosition,
    {
        Scroll::CurrentPosition
    }
}

/// A position and the pending scroll from it.
#[derive(Debug, Clone, Copy)]
pub struct Motion {
    pub position: usize,
    pub scroll: Scroll,
}

/// Position reached by a scroll, given the last position and the page length.
pub open spec fn resolved_position(m: Motion, last_position: usize, page_length: usize) -> int {
    match m.scroll {
        Scroll::CurrentPosition => m.position as int,
        Scroll::FirstPosition => 0,
        Scroll::LastPosition => last_position as int,
        Scroll::PreviousPosition => if m.position >= 1 { m.position - 1 } else { 0 },
        Scroll::NextPosition => if last_position < m.position + 1 { last_position as int } else { m.position + 1 },
        Scroll::PreviousPage => if m.position >= page_length { m.position - page_length } else { 0 },
        Scroll::NextPage => if last_position < m.position + page_length { last_position as int } else { m.position + page_length },
        Scroll::Up => m.position as int,
    }
}

/// Whether a motion can be resolved without overflow or hierarchy.
pub open spec fn resolvable(m: Motion, page_length: usize) -> bool {
    &&& m.scroll != Scroll::Up
    &&& m.scroll == Scroll::NextPosition ==> m.position + 1 <= usize::MAX
    &&& m.scroll == Scroll::NextPage ==> m.position + page_length <= usize::MAX
}

impl Default for Motion {
    fn default() -> (m: Self)
        ensures
            m.position == 0,
            m.scroll == Scroll::CurrentPosition,
    {
        Motion { position: 0, scroll: Scroll::CurrentPosition }
    }
}

impl Motion {
    /// New motion with same scroll but different position.
    pub fn with_position(&self, position: usize) -> (m: Self)
        ensures
            m.position == position,
            m.scroll == self.scroll,
    {
        let scroll = self.scroll;
        Self { position, scroll }
    }

    /// Move to a position and clear the scroll.
    pub fn move_to(&mut self, position: usize)
        ensures
            final(self).position == position,
            final(self).scroll == Scroll::CurrentPosition,
    {
        self.position = position;
        self.current();
    }

    pub fn current(&mut self)
        ensures
            final(self).position == old(self).position,
            final(self).scroll == Scroll::CurrentPosition,
    {
        self.scroll = Scroll::CurrentPosition;
    }

    pub fn first(&mut self)
        ensures
            final(self).position == old(self).position,
            final(self).scroll == Scroll::FirstPosition,
    {
        self.scroll = Scroll::FirstPosition;
    }

    pub fn last(&mut self)
        ensures
            final(self).position == old(self).position,
            final(self).scroll == Scroll::LastPosition,
    {
        self.scroll = Scroll::LastPosition;
    }

    pub fn previous(&mut self)
        ensures
            final(self).position == old(self).position,
            final(self).scroll == Scroll::PreviousPosition,
    {
        self.scroll = Scroll::PreviousPosition;
    }

    pub fn next(&mut self)
        ensures
            final(self).position == old(self).position,
            final(self).scroll == Scroll::NextPosition,
    {
        self.scroll = Scroll::NextPosition;
    }

    pub fn previous_page(&mut self)
        ensures
            final(self).position == old(self).position,
            final(self).scroll == Scroll::PreviousPage,
    {
        self.scroll = Scroll::PreviousPage;
    }

    pub fn next_page(&mut self)
        ensures
            final(self).position == old(self).position,
            final(self).scroll == Scroll::NextPage,
    {
        self.scroll = Scroll::NextPage;
    }

    pub fn up(&mut self)
        ensures
            final(self).position == old(self).position,
            final(self).scroll == Scroll::Up,
    {
        self.scroll = Scroll::Up;
    }

    /// Resolve the position according to the last position and total_length.
    pub fn resolve(&self, last_position: usize, page_length: usize) -> (p: usize)
        requires
            resolvable(*self, page_length),
        ensures
            p == resolved_position(*self, last_position, page_length),
    {
        match self.scroll {
            Scroll::CurrentPosition => self.position,
            Scroll::FirstPosition => 0,
            Scroll::LastPosition => last_position,
            Scroll::PreviousPosition => self.position.saturating_sub(1),
            Scroll::NextPosition => {
                let n = self.position + 1;
                if last_position < n { last_position } else { n }
            },
            Scroll::PreviousPage => self.position.saturating_sub(page_length),
            Scroll::NextPage => {
                let n = self.position + page_length;
                if last_position < n { last_position } else { n }
            },
            Scroll::Up => self.position,
        }
    }

    /// Resolve the position according to the last position and total_length.
    pub fn update(&mut self, last_position: usize, page_length: usize)
        requires
            resolvable(*old(self), page_length),
        ensures
            final(self).position == resolved_position(*old(self), last_position, page_length),
            final(self).scroll == Scroll::CurrentPosition,
    {
        let p = self.resolve(last_position, page_length);
        self.move_to(p);
    }
}

/// A resolved position never exceeds the last position unless the motion
/// keeps or lowers the current one.
pub proof fn law_resolve_bounded(m: Motion, last_position: usize, page_length: usize)
    requires
        resolvable(m, page_length),
        m.position <= last_position,
    ensures
        resolved_position(m, last_position, page_length) <= last_position,
        resolved_position(m, last_position, page_length) >= 0,
{
}

} // verus!
