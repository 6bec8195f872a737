//! Column widths of a table.

use vstd::prelude::*;
use vstd::string::StringSliceAdditionalSpecFns;

verus! {

/// Leftmost changed column after a change at `index`.
pub open spec fn merge_change(changed_from: Option<usize>, index: usize) -> Option<usize> {
    match changed_from {
        Some(c) if c <= index => Some(c),
        _ => Some(index),
    }
}

/// Widths padded with zeros up to `index` columns.
pub open spec fn padded(widths: Seq<usize>, index: int) -> Seq<usize> {
    if index > widths.len() {
        widths + Seq::new((index - widths.len()) as nat, |_i: int| 0usize)
    } else {
        widths
    }
}

/// Whether a new width replaces the current one: it grows, or it shrinks by
/// more than the elasticity.
pub open spec fn replaces(current: usize, width: usize, elasticity: usize) -> bool {
    width > current || (current >= elasticity && width < current - elasticity)
}

/// Leftmost column that a write at `index` changes: the first column added
/// as padding when the table is shorter, the written column otherwise.
pub open spec fn first_changed(len: nat, index: usize) -> usize {
    if index > len { len as usize } else { index }
}

/// Widths after `overwrite(index, width)`, and whether a column changed.
pub open spec fn spec_overwrite(widths: Seq<usize>, elasticity: usize, index: usize, width: usize) -> (Seq<usize>, bool) {
    let p = padded(widths, index as int);
    if index < p.len() {
        if replaces(p[index as int], width, elasticity) {
            (p.update(index as int, width), true)
        } else {
            (p, false)
        }
    } else {
        (p.push(width), true)
    }
}

/// Largest byte length of a list of strings, zero if empty.
pub open spec fn max_len(column: Seq<&str>) -> usize
    decreases column.len(),
{
    if column.len() == 0 {
        0
    } else {
        let rest = max_len(column.drop_last());
        let l = column.last().spec_bytes().len() as usize;
        if rest < l { l } else { rest }
    }
}

/// Compute column widths of a table.
///
/// Widths of columns may be directly written or calculated from the column
/// content. The leftmost column to redraw is returned when calling freeze.
pub struct ColumnSizer {
    elasticity: usize,
    widths: Vec<usize>,
    changed_from: Option<usize>,
}

impl ColumnSizer {
    /// Elasticity: shrinking by this amount or less is ignored.
    pub closed spec fn spec_elasticity(&self) -> usize {
        self.elasticity
    }

    /// Width of each column.
    pub closed spec fn spec_widths(&self) -> Seq<usize> {
        self.widths@
    }

    /// Leftmost column changed since the last freeze.
    pub closed spec fn spec_changed_from(&self) -> Option<usize> {
        self.changed_from
    }

    pub fn new(elasticity: usize) -> (s: ColumnSizer)
        ensures
            s.spec_elasticity() == elasticity,
            s.spec_widths() == Seq::<usize>::empty(),
            s.spec_changed_from() is None,
    {
        ColumnSizer { elasticity, widths: Vec::new(), changed_from: None }
    }

    /// Number of columns.
    pub fn len(&self) -> (n: usize)
        ensures
            n == self.spec_widths().len(),
    {
        self.widths.len()
    }

    /// Column width.
    pub fn width(&self, index: usize) -> (w: Option<usize>)
        ensures
            index < self.spec_widths().len() ==> w == Some(self.spec_widths()[index as int]),
            index >= self.spec_widths().len() ==> w is None,
    {
        if index < self.widths.len() {
            Some(self.widths[index])
        } else {
            None
        }
    }

    /// Column width or zero if the index is out of range.
    pub fn width_or_zero(&self, index: usize) -> (w: usize)
        ensures
            w == if index < self.spec_widths().len() { self.spec_widths()[index as int] } else { 0 },
    {
        match self.width(index) {
            Some(w) => w,
            None => 0,
        }
    }

    /// Iterate over the columns width.
    pub fn iter(&self) -> (it: std::slice::Iter<'_, usize>)
        ensures
            vstd::std_specs::slice::into_iter_elts(it) == self.spec_widths(),
    {
        let it = self.widths.iter();
        proof {
            broadcast use vstd::std_specs::slice::axiom_spec_slice_iter;
            assert(self.widths@.as_ref().unref() =~= self.widths@);
        }
        it
    }

    /// Return the index of the leftmost column that has changed.
    /// If the leftmost change is a column removal, the index is the number of columns.
    pub fn freeze(&mut self) -> (c: Option<usize>)
        ensures
            c == old(self).spec_changed_from(),
            final(self).spec_changed_from() is None,
            final(self).spec_widths() == old(self).spec_widths(),
            final(self).spec_elasticity() == old(self).spec_elasticity(),
    {
        let changed_from = self.changed_from;
        self.changed_from = None;
        changed_from
    }

    fn set_change(&mut self, index: usize)
        ensures
            final(self).spec_changed_from() == merge_change(old(self).spec_changed_from(), index),
            final(self).spec_widths() == old(self).spec_widths(),
            final(self).spec_elasticity() == old(self).spec_elasticity(),
    {
        match self.changed_from {
            Some(c) if c <= index => {},
            _ => {
                self.changed_from = Some(index);
            },
        }
    }

    /// Replace the width of a given column or insert it.
    pub fn overwrite(&mut self, index: usize, width: usize)
        ensures
            final(self).spec_widths() == spec_overwrite(old(self).spec_widths(), old(self).spec_elasticity(), index, width).0,
            final(self).spec_changed_from() == if spec_overwrite(
                old(self).spec_widths(),
                old(self).spec_elasticity(),
                index,
                width,
            ).1 {
                merge_change(old(self).spec_changed_from(), first_changed(old(self).spec_widths().len(), index))
            } else {
                old(self).spec_changed_from()
            },
            final(self).spec_elasticity() == old(self).spec_elasticity(),
    {
        let ghost w0 = self.widths@;
        let first = if index > self.widths.len() { self.widths.len() } else { index };
        while index > self.widths.len()
            invariant
                self.widths@.len() <= index || self.widths@.len() == w0.len(),
                w0.len() <= self.widths@.len(),
                self.widths@ == w0 + Seq::new((self.widths@.len() - w0.len()) as nat, |_i: int| 0usize),
                self.elasticity == old(self).elasticity,
                self.changed_from == old(self).changed_from,
            decreases index - self.widths.len(),
        {
            let ghost before = self.widths@;
            self.widths.push(0);
            assert(self.widths@ =~= w0 + Seq::new((self.widths@.len() - w0.len()) as nat, |_i: int| 0usize));
        }
        assert(self.widths@ =~= padded(w0, index as int));
        let mut changed = false;
        if index < self.widths.len() {
            let current_width = self.widths[index];
            if width > current_width || (current_width >= self.elasticity && width < current_width
                - self.elasticity) {
                self.widths.set(index, width);
                changed = true;
            }
        } else {
            self.widths.push(width);
            changed = true;
        }
        if changed {
            self.set_change(first);
        }
    }

    /// Set the minimun width of a given column or insert it.
    pub fn overwrite_min(&mut self, index: usize, width: usize)
        ensures
            final(self).spec_widths() == spec_overwrite(
                old(self).spec_widths(),
                old(self).spec_elasticity(),
                index,
                if index < old(self).spec_widths().len() && old(self).spec_widths()[index as int] > width {
                    old(self).spec_widths()[index as int]
                } else {
                    width
                },
            ).0,
            final(self).spec_elasticity() == old(self).spec_elasticity(),
    {
        let current = self.width_or_zero(index);
        let w = if width >= current { width } else { current };
        self.overwrite(index, w);
    }

    /// Truncate the columns
    pub fn truncate(&mut self, len: usize)
        ensures
            final(self).spec_widths() == if len < old(self).spec_widths().len() {
                old(self).spec_widths().take(len as int)
            } else {
                old(self).spec_widths()
            },
            final(self).spec_changed_from() == merge_change(
                old(self).spec_changed_from(),
                final(self).spec_widths().len() as usize,
            ),
            final(self).spec_elasticity() == old(self).spec_elasticity(),
    {
        self.widths.truncate(len);
        let n = self.widths.len();
        self.set_change(n);
    }

    /// Largest length in bytes of the strings of a column.
    pub fn max_width(column: &[&str]) -> (m: usize)
        ensures
            m == max_len(column@),
    {
        let mut acc: usize = 0;
        let mut i: usize = 0;
        while i < column.len()
            invariant
                0 <= i <= column.len(),
                acc == max_len(column@.take(i as int)),
            decreases column.len() - i,
        {
            assert(column@.take(i + 1).drop_last() =~= column@.take(i as int));
            let l = column[i].len();
            assert(column@.take(i + 1).last() == column@[i as int]);
            if acc < l {
                acc = l;
            }
            i = i + 1;
        }
        assert(column@.take(column.len() as int) =~= column@);
        acc
    }
}

/// A shrink within the elasticity leaves the width unchanged and does not
/// mark the column as changed; growing always replaces it.
pub proof fn law_overwrite_elasticity(widths: Seq<usize>, elasticity: usize, index: usize, width: usize)
    requires
        index < widths.len(),
    ensures
        width > widths[index as int] ==> spec_overwrite(widths, elasticity, index, width)
            == (widths.update(index as int, width), true),
        width <= widths[index as int] && widths[index as int] <= width + elasticity
            ==> spec_overwrite(widths, elasticity, index, width) == (widths, false),
{
}

/// Overwriting a column never changes the other columns and never shortens
/// the table.
pub proof fn law_overwrite_frame(widths: Seq<usize>, elasticity: usize, index: usize, width: usize, j: int)
    requires
        0 <= j < widths.len(),
        j != index,
    ensures
        spec_overwrite(widths, elasticity, index, width).0[j] == widths[j],
        spec_overwrite(widths, elasticity, index, width).0.len() >= widths.len(),
        spec_overwrite(widths, elasticity, index, width).0.len() > index,
{
}

} // verus!
