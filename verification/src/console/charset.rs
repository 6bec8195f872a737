//! Characters to draw tables, in ASCII or in UTF-8.

use vstd::prelude::*;
use vstd::string::StringSliceAdditionalSpecFns;
use crate::strings::push_str;

verus! {

/// Character types to draw a table
#[derive(Clone, Copy, Debug, PartialEq, Eq, Structural)]
pub enum TableChar {
    Horizontal,
    _Vertical,
    DownRight,
    DownLeft,
    UpRight,
    UpLeft,
    VerticalRight,
    VerticalLeft,
    DownHorizontal,
    UpHorizontal,
    HorizontalInner,
    VerticalInner,
    VerticalHorizontal,
}

/// Character drawing a table part.
pub open spec fn table_char(unicode: bool, kind: TableChar) -> &'static str {
    if unicode {
        match kind {
            TableChar::Horizontal => "─",
            TableChar::_Vertical => "│",
            TableChar::DownRight => "┌",
            TableChar::DownLeft => "┐",
            TableChar::UpRight => "└",
            TableChar::UpLeft => "┘",
            TableChar::VerticalRight => "├",
            TableChar::VerticalLeft => "┤",
            TableChar::DownHorizontal => "┬",
            TableChar::UpHorizontal => "┴",
            TableChar::HorizontalInner => "─",
            TableChar::VerticalInner => "│",
            TableChar::VerticalHorizontal => "┼",
        }
    } else {
        match kind {
            TableChar::Horizontal => "-",
            TableChar::_Vertical => "|",
            TableChar::DownRight => "+",
            TableChar::DownLeft => "+",
            TableChar::UpRight => "+",
            TableChar::UpLeft => "+",
            TableChar::VerticalRight => "+",
            TableChar::VerticalLeft => "+",
            TableChar::DownHorizontal => "-",
            TableChar::UpHorizontal => "-",
            TableChar::HorizontalInner => "-",
            TableChar::VerticalInner => "|",
            TableChar::VerticalHorizontal => "+",
        }
    }
}

/// A sequence repeated `n` times.
pub open spec fn repeat_seq(s: Seq<char>, n: nat) -> Seq<char>
    decreases n,
{
    if n == 0 {
        Seq::empty()
    } else {
        repeat_seq(s, (n - 1) as nat) + s
    }
}

/// Characters to draw a table.
pub struct TableCharSet {
    unicode: bool,
}

impl TableCharSet {
    /// Whether the set draws with UTF-8 box characters.
    pub closed spec fn is_unicode(&self) -> bool {
        self.unicode
    }

    /// Characters for a terminal, in UTF-8 if the terminal accepts it.
    pub fn new(unicode: bool) -> (c: TableCharSet)
        ensures
            c.is_unicode() == unicode,
    {
        TableCharSet { unicode }
    }

    /// Get a specific character to draw a table
    pub fn get(&self, kind: TableChar) -> (s: &'static str)
        ensures
            s == table_char(self.is_unicode(), kind),
    {
        if self.unicode {
            match kind {
                TableChar::Horizontal => "─",
                TableChar::_Vertical => "│",
                TableChar::DownRight => "┌",
                TableChar::DownLeft => "┐",
                TableChar::UpRight => "└",
                TableChar::UpLeft => "┘",
                TableChar::VerticalRight => "├",
                TableChar::VerticalLeft => "┤",
                TableChar::DownHorizontal => "┬",
                TableChar::UpHorizontal => "┴",
                TableChar::HorizontalInner => "─",
                TableChar::VerticalInner => "│",
                TableChar::VerticalHorizontal => "┼",
            }
        } else {
            match kind {
                TableChar::Horizontal => "-",
                TableChar::_Vertical => "|",
                TableChar::DownRight => "+",
                TableChar::DownLeft => "+",
                TableChar::UpRight => "+",
                TableChar::UpLeft => "+",
                TableChar::VerticalRight => "+",
                TableChar::VerticalLeft => "+",
                TableChar::DownHorizontal => "-",
                TableChar::UpHorizontal => "-",
                TableChar::HorizontalInner => "-",
                TableChar::VerticalInner => "|",
                TableChar::VerticalHorizontal => "+",
            }
        }
    }

    /// Strings made of the same character multiple times.
    pub fn repeat(&self, kind: TableChar, count: usize) -> (r: (usize, String))
        ensures
            r.0 == table_char(self.is_unicode(), kind).spec_bytes().len() as usize,
            r.1@ == repeat_seq(table_char(self.is_unicode(), kind)@, count as nat),
    {
        let unit = self.get(kind);
        let mut s = String::new();
        let mut i: usize = 0;
        while i < count
            invariant
                0 <= i <= count,
                unit == table_char(self.is_unicode(), kind),
                s@ == repeat_seq(unit@, i as nat),
            decreases count - i,
        {
            push_str(&mut s, unit);
            i = i + 1;
        }
        (unit.len(), s)
    }

    /// An inner horizontal line of a given size.
    pub fn inner_horizontal_line(&self, count: usize) -> (r: (usize, String))
        ensures
            r.0 == table_char(self.is_unicode(), TableChar::HorizontalInner).spec_bytes().len() as usize,
            r.1@ == repeat_seq(table_char(self.is_unicode(), TableChar::HorizontalInner)@, count as nat),
    {
        self.repeat(TableChar::HorizontalInner, count)
    }
}

} // verus!
