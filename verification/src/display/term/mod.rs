//! Terminal display: table geometry, input handling, menus, and the
//! decisions the terminal device takes on each user action.

use std::collections::BTreeSet;
use std::time::Duration;
use vstd::prelude::*;
use vstd::std_specs::iter::IteratorSpec;
use crate::clock::{
    as_nanos, duration_checked_div, duration_checked_mul, duration_nanos,
    max_duration_nanos, Timer,
};
use crate::display::{DataKind, PaneKind};
use crate::process::managers::ProcessFilter;
use input::{search_chars, state_chars, Action, BookmarkAction, Bookmarks, SearchEdit};
use types::{Area, Motion, Scroll};
use panes::{bottom_height, grid_fits, is_grid_layout, max_height, GridLine, GridPane, Rect};
use widgets::{wrapped_height, DetailsWidgets, OneLineWidget};
use crate::format::spec_duration_human;
use crate::process::format::human_duration;
use crate::strings::{decimal, push_char, push_decimal, push_str, str_chars, strings_view, to_string};
use crate::agg::Aggregation;
use crate::metrics::{metric_name, MetricId};

pub mod input;
pub mod sizer;
pub mod types;
pub mod tables;
pub mod panes;
pub mod widgets;

verus! {

broadcast use {vstd::laws_cmp::group_laws_cmp, vstd::std_specs::btree::group_btree_axioms};

/// Set of key bindings in use.
#[derive(Clone, Copy, Debug, PartialEq, Eq, Structural)]
pub enum KeyMap {
    Main,
    Filters,
    IncrementalSearch,
    Help,
    Details,
    Process,
}

/// User action that has an impact on the application.
pub enum Interaction {
    NoInteraction,
    Filter(ProcessFilter),
    SwitchBack,
    SwitchToHelp,
    SwitchTo(DataKind),
    SelectPid(i32),
    SelectParent,
    SelectRootPid(Option<i32>),
    Narrow(Vec<i32>),
    Wide,
    Quit,
}

impl Interaction {
    /// Interaction of the actions that have a one to one correspondence.
    pub fn from_action(action: &Action) -> (r: Option<Interaction>)
        ensures
            match *action {
                Action::SelectParent => r matches Some(Interaction::SelectParent),
                Action::SwitchToHelp => r matches Some(Interaction::SwitchToHelp),
                Action::SwitchBack => r matches Some(Interaction::SwitchBack),
                Action::Quit => r matches Some(Interaction::Quit),
                _ => r is None,
            },
    {
        match action {
            Action::SelectParent => Some(Interaction::SelectParent),
            Action::SwitchToHelp => Some(Interaction::SwitchToHelp),
            Action::SwitchBack => Some(Interaction::SwitchBack),
            Action::Quit => Some(Interaction::Quit),
            _ => None,
        }
    }
}

/// Longest delay between two updates, in seconds.
pub const MAX_TIMEOUT_SECS: u64 = 86400;

/// Shortest delay between two updates, in milliseconds.
pub const MIN_TIMEOUT_MSECS: u128 = 1;

/// The decisions of the terminal device: where it stands in each pane,
/// which processes it shows, which keys it listens to and what is selected
/// or searched.
pub struct TerminalDevice {
    /// Interval between screen updates.
    pub every: Duration,
    /// Position in the panes; the last one is the visible pane's.
    pub motions: Vec<Area<Motion>>,
    /// Filter on processes.
    pub filter: ProcessFilter,
    /// Visible pane.
    pub pane_kind: PaneKind,
    /// Key bindings in use.
    pub keymap: KeyMap,
    /// Selection, search and marks.
    pub bookmarks: Bookmarks,
}

/// Scroll of a motion after a scrolling action, if the action scrolls.
pub open spec fn action_scroll(action: Action) -> Option<(bool, Scroll)> {
    match action {
        Action::ScrollLeft => Some((true, Scroll::PreviousPosition)),
        Action::ScrollRight => Some((true, Scroll::NextPosition)),
        Action::ScrollPageLeft => Some((true, Scroll::PreviousPage)),
        Action::ScrollPageRight => Some((true, Scroll::NextPage)),
        Action::ScrollPageUp => Some((false, Scroll::PreviousPage)),
        Action::ScrollPageDown => Some((false, Scroll::NextPage)),
        Action::ScrollLineUp => Some((false, Scroll::PreviousPosition)),
        Action::ScrollLineDown => Some((false, Scroll::NextPosition)),
        Action::GotoTableTop => Some((false, Scroll::FirstPosition)),
        Action::GotoTableBottom => Some((false, Scroll::LastPosition)),
        Action::GotoTableLeft => Some((true, Scroll::FirstPosition)),
        Action::GotoTableRight => Some((true, Scroll::LastPosition)),
        _ => None,
    }
}

/// Filter chosen by an action, if it chooses one.
pub open spec fn action_filter(action: Action) -> Option<ProcessFilter> {
    match action {
        Action::FilterNone => Some(ProcessFilter::NoFilter),
        Action::FilterUsers => Some(ProcessFilter::UserLand),
        Action::FilterActive => Some(ProcessFilter::Active),
        Action::FilterCurrentUser => Some(ProcessFilter::CurrentUser),
        _ => None,
    }
}

/// Key bindings after an action.
pub open spec fn action_keymap(keymap: KeyMap, action: Action) -> KeyMap {
    match action {
        Action::FilterNone | Action::FilterUsers | Action::FilterActive | Action::FilterCurrentUser => KeyMap::Main,
        Action::SearchEnter => KeyMap::IncrementalSearch,
        Action::SearchExit => KeyMap::Main,
        _ => keymap,
    }
}

/// Bookmark action of an action, if it has one.
pub open spec fn action_bookmark(action: Action) -> Option<BookmarkAction> {
    match action {
        Action::SelectPrevious => Some(BookmarkAction::Previous),
        Action::SelectNext => Some(BookmarkAction::Next),
        Action::ToggleMarks => Some(BookmarkAction::ToggleMarks),
        _ => None,
    }
}

/// A motion with its scroll replaced.
pub open spec fn scrolled(m: Area<Motion>, horizontal: bool, scroll: Scroll) -> Area<Motion> {
    if horizontal {
        Area { horizontal: Motion { scroll, ..m.horizontal }, ..m }
    } else {
        Area { vertical: Motion { scroll, ..m.vertical }, ..m }
    }
}

/// Whether the bookmarks are the same in every respect the contracts see.
pub open spec fn same_bookmarks(a: Bookmarks, b: Bookmarks) -> bool {
    &&& a.spec_selected_pid() == b.spec_selected_pid()
    &&& a.spec_search() == b.spec_search()
    &&& a.spec_marks() == b.spec_marks()
    &&& a.spec_action() == b.spec_action()
}

/// Whole seconds of a duration.
pub open spec fn duration_secs(d: Duration) -> int {
    duration_nanos(d) as int / 1_000_000_000
}

/// Whole milliseconds of a duration.
pub open spec fn duration_millis(d: Duration) -> int {
    duration_nanos(d) as int / 1_000_000
}

impl TerminalDevice {
    /// A device on the main pane, at the top, with the default filter.
    pub fn new(every: Duration) -> (d: TerminalDevice)
        ensures
            d.every == every,
            d.motions@.len() == 1,
            d.motions@[0].horizontal.position == 0 && d.motions@[0].vertical.position == 0,
            d.filter == ProcessFilter::UserLand,
            d.pane_kind == PaneKind::Main,
            d.keymap == KeyMap::Main,
            d.bookmarks.spec_search() is None,
            d.bookmarks.spec_marks() == Set::<i32>::empty(),
    {
        TerminalDevice {
            every,
            motions: vec![Area::new(Motion::default(), Motion::default())],
            filter: ProcessFilter::default(),
            pane_kind: PaneKind::Main,
            keymap: KeyMap::Main,
            bookmarks: Bookmarks::default(),
        }
    }

    /// Set the key bindings.
    pub fn set_keymap(&mut self, keymap: KeyMap)
        ensures
            final(self).keymap == keymap,
            final(self).every == old(self).every,
            final(self).motions == old(self).motions,
            final(self).filter == old(self).filter,
            final(self).pane_kind == old(self).pane_kind,
            final(self).bookmarks == old(self).bookmarks,
    {
        if self.keymap != keymap {
            self.keymap = keymap;
        }
    }

    /// Clear the search, or the marks if there is no search.
    pub fn clear_bookmarks(&mut self)
        ensures
            old(self).bookmarks.spec_search() is Some ==> final(self).bookmarks.spec_search() is None
                && final(self).bookmarks.spec_marks() == old(self).bookmarks.spec_marks(),
            old(self).bookmarks.spec_search() is None ==> final(self).bookmarks.spec_search() is None
                && final(self).bookmarks.spec_marks() == Set::<i32>::empty(),
            final(self).bookmarks.spec_selected_pid() == old(self).bookmarks.spec_selected_pid(),
            final(self).bookmarks.spec_action() == old(self).bookmarks.spec_action(),
            final(self).every == old(self).every,
            final(self).motions == old(self).motions,
            final(self).filter == old(self).filter,
            final(self).pane_kind == old(self).pane_kind,
            final(self).keymap == old(self).keymap,
    {
        if !self.bookmarks.clear_search() {
            self.bookmarks.clear_marks();
        }
    }

    /// Change the scroll of the visible pane.
    fn scroll(&mut self, horizontal: bool, scroll: Scroll)
        requires
            old(self).motions@.len() > 0,
        ensures
            final(self).motions@ == old(self).motions@.update(
                old(self).motions@.len() - 1,
                scrolled(old(self).motions@.last(), horizontal, scroll),
            ),
            final(self).every == old(self).every,
            final(self).filter == old(self).filter,
            final(self).pane_kind == old(self).pane_kind,
            final(self).keymap == old(self).keymap,
            final(self).bookmarks == old(self).bookmarks,
    {
        let n = self.motions.len() - 1;
        let mut area = self.motions[n];
        if horizontal {
            area.horizontal.scroll = scroll;
        } else {
            area.vertical.scroll = scroll;
        }
        self.motions.set(n, area);
    }

    /// Multiply the delay between updates, unless it would exceed a day.
    pub fn multiply_delay(&mut self, timer: &mut Timer, factor: u16)
        requires
            duration_secs(old(timer).delay) * factor <= u64::MAX,
        ensures
            ({
                let d = old(timer).delay;
                if duration_secs(d) * factor < MAX_TIMEOUT_SECS && duration_nanos(d) * factor <= max_duration_nanos() {
                    &&& duration_nanos(final(timer).delay) == duration_nanos(d) * factor
                    &&& final(self).every == final(timer).delay
                    &&& final(timer).stop_watch == old(timer).stop_watch
                    &&& crate::clock::opt_nanos(final(timer).remaining) == crate::clock::remaining_after_delay_change(
                        crate::clock::opt_nanos(old(timer).remaining), duration_nanos(d) as int,
                        duration_nanos(final(timer).delay) as int)
                } else {
                    &&& *final(timer) == *old(timer)
                    &&& final(self).every == old(self).every
                }
            }),
            final(self).motions == old(self).motions,
            final(self).filter == old(self).filter,
            final(self).pane_kind == old(self).pane_kind,
            final(self).keymap == old(self).keymap,
            final(self).bookmarks == old(self).bookmarks,
    {
        let delay = timer.get_delay();
        let secs = (as_nanos(delay) / 1_000_000_000) as u64;
        if secs * (factor as u64) < MAX_TIMEOUT_SECS {
            match duration_checked_mul(delay, factor as u32) {
                Some(delay) => {
                    timer.set_delay(delay);
                    self.every = delay;
                },
                None => {},
            }
        }
    }

    /// Divide the delay between updates, unless it would drop to a
    /// millisecond.
    pub fn divide_delay(&mut self, timer: &mut Timer, factor: u16)
        requires
            factor > 0,
        ensures
            ({
                let d = old(timer).delay;
                if duration_millis(d) / (factor as int) > MIN_TIMEOUT_MSECS {
                    &&& duration_nanos(final(timer).delay) == (duration_nanos(d) as int) / (factor as int)
                    &&& final(self).every == final(timer).delay
                    &&& final(timer).stop_watch == old(timer).stop_watch
                    &&& crate::clock::opt_nanos(final(timer).remaining) == crate::clock::remaining_after_delay_change(
                        crate::clock::opt_nanos(old(timer).remaining), duration_nanos(d) as int,
                        duration_nanos(final(timer).delay) as int)
                } else {
                    &&& *final(timer) == *old(timer)
                    &&& final(self).every == old(self).every
                }
            }),
            final(self).motions == old(self).motions,
            final(self).filter == old(self).filter,
            final(self).pane_kind == old(self).pane_kind,
            final(self).keymap == old(self).keymap,
            final(self).bookmarks == old(self).bookmarks,
    {
        let delay = timer.get_delay();
        let millis = as_nanos(delay) / 1_000_000;
        if millis / (factor as u128) > MIN_TIMEOUT_MSECS {
            match duration_checked_div(delay, factor as u32) {
                Some(delay) => {
                    timer.set_delay(delay);
                    self.every = delay;
                },
                None => {},
            }
        }
    }
}

/// How the bookmarks change with an action.
pub open spec fn bookmarks_reacted(old: Bookmarks, new: Bookmarks, action: Action) -> bool {
    let others_kept = new.spec_selected_pid() == old.spec_selected_pid() && new.spec_marks() == old.spec_marks()
        && new.spec_action() == old.spec_action();
    match action {
        Action::SearchEnter => {
            &&& new.spec_search() matches Some(s) && s.state is Incremental
            &&& search_chars(new.spec_search()) == match search_chars(old.spec_search()) {
                Some(p) => Some(p),
                None => Some(Seq::<char>::empty()),
            }
            &&& others_kept
        },
        Action::SearchExit => {
            &&& match search_chars(old.spec_search()) {
                Some(p) => if p.len() > 0 {
                    new.spec_search() matches Some(s) && s.state is Fixed && state_chars(&s.state) == p
                } else {
                    new.spec_search() is None
                },
                None => new.spec_search() is None,
            }
            &&& others_kept
        },
        Action::PushChar(c) => {
            &&& search_chars(new.spec_search()) == match search_chars(old.spec_search()) {
                Some(p) => Some(p.push(c)),
                None => None,
            }
            &&& new.spec_search() matches Some(s) ==> s.state is Incremental
            &&& others_kept
        },
        Action::PopChar => {
            &&& search_chars(new.spec_search()) == match search_chars(old.spec_search()) {
                Some(p) => Some(if p.len() > 0 { p.drop_last() } else { p }),
                None => None,
            }
            &&& new.spec_search() matches Some(s) ==> s.state is Incremental
            &&& others_kept
        },
        Action::SearchCancel => new.spec_search() is None && others_kept,
        Action::ClearMarks => {
            &&& new.spec_search() is None
            &&& new.spec_marks() == (if old.spec_search() is Some { old.spec_marks() } else { Set::<i32>::empty() })
            &&& new.spec_selected_pid() == old.spec_selected_pid()
            &&& new.spec_action() == old.spec_action()
        },
        Action::SelectPrevious | Action::SelectNext | Action::ToggleMarks => {
            &&& new.spec_action() == action_bookmark(action).unwrap()
            &&& new.spec_selected_pid() == old.spec_selected_pid()
            &&& new.spec_search() == old.spec_search()
            &&& new.spec_marks() == old.spec_marks()
        },
        _ => same_bookmarks(old, new),
    }
}

/// What an action asks of the device: a visible pane, a delay that can be
/// multiplied, a factor to divide by, a search to edit.
pub open spec fn can_react(d: TerminalDevice, timer: Timer, action: Action) -> bool {
    &&& d.motions@.len() > 0
    &&& action matches Action::MultiplyTimeout(f) ==> duration_secs(timer.delay) * f <= u64::MAX
    &&& action matches Action::DivideTimeout(f) ==> f > 0
    &&& (action is PushChar || action is PopChar) ==> (d.bookmarks.spec_search() matches Some(s) ==> s.state is Incremental)
}

impl TerminalDevice {
    fn goto_top(&mut self)
        requires
            old(self).motions@.len() > 0,
        ensures
            final(self).motions@ == old(self).motions@.update(old(self).motions@.len() - 1,
                scrolled(old(self).motions@.last(), false, Scroll::FirstPosition)),
            final(self).bookmarks == old(self).bookmarks,
            final(self).every == old(self).every,
            final(self).filter == old(self).filter,
            final(self).pane_kind == old(self).pane_kind,
            final(self).keymap == old(self).keymap,
    {
        self.scroll(false, Scroll::FirstPosition);
    }

    fn goto_bottom(&mut self)
        requires
            old(self).motions@.len() > 0,
        ensures
            final(self).motions@ == old(self).motions@.update(old(self).motions@.len() - 1,
                scrolled(old(self).motions@.last(), false, Scroll::LastPosition)),
            final(self).bookmarks == old(self).bookmarks,
            final(self).every == old(self).every,
            final(self).filter == old(self).filter,
            final(self).pane_kind == old(self).pane_kind,
            final(self).keymap == old(self).keymap,
    {
        self.scroll(false, Scroll::LastPosition);
    }

    fn goto_left(&mut self)
        requires
            old(self).motions@.len() > 0,
        ensures
            final(self).motions@ == old(self).motions@.update(old(self).motions@.len() - 1,
                scrolled(old(self).motions@.last(), true, Scroll::FirstPosition)),
            final(self).bookmarks == old(self).bookmarks,
            final(self).every == old(self).every,
            final(self).filter == old(self).filter,
            final(self).pane_kind == old(self).pane_kind,
            final(self).keymap == old(self).keymap,
    {
        self.scroll(true, Scroll::FirstPosition);
    }

    fn goto_right(&mut self)
        requires
            old(self).motions@.len() > 0,
        ensures
            final(self).motions@ == old(self).motions@.update(old(self).motions@.len() - 1,
                scrolled(old(self).motions@.last(), true, Scroll::LastPosition)),
            final(self).bookmarks == old(self).bookmarks,
            final(self).every == old(self).every,
            final(self).filter == old(self).filter,
            final(self).pane_kind == old(self).pane_kind,
            final(self).keymap == old(self).keymap,
    {
        self.scroll(true, Scroll::LastPosition);
    }

    /// Execute an interactive action and return it.
    ///
    /// Scrolling actions set the scroll of the visible pane, filter actions
    /// choose the filter and go back to the main key bindings, timeouts
    /// change the delay, search and selection actions go to the bookmarks.
    pub fn react(&mut self, action: Action, timer: &mut Timer) -> (r: Action)
        requires
            can_react(*old(self), *old(timer), action),
        ensures
            r == action,
            final(self).filter == match action_filter(action) {
                Some(f) => f,
                None => old(self).filter,
            },
            final(self).keymap == action_keymap(old(self).keymap, action),
            final(self).pane_kind == old(self).pane_kind,
            final(self).motions@ == match action_scroll(action) {
                Some((horizontal, scroll)) => old(self).motions@.update(old(self).motions@.len() - 1,
                    scrolled(old(self).motions@.last(), horizontal, scroll)),
                None => old(self).motions@,
            },
            bookmarks_reacted(old(self).bookmarks, final(self).bookmarks, action),
            !(action is MultiplyTimeout || action is DivideTimeout) ==> *final(timer) == *old(timer)
                && final(self).every == old(self).every,
            action matches Action::MultiplyTimeout(f) ==> ({
                let d = old(timer).delay;
                if duration_secs(d) * f < MAX_TIMEOUT_SECS && duration_nanos(d) * f <= max_duration_nanos() {
                    duration_nanos(final(timer).delay) == duration_nanos(d) * f && final(self).every == final(timer).delay
                } else {
                    *final(timer) == *old(timer) && final(self).every == old(self).every
                }
            }),
            action matches Action::DivideTimeout(f) ==> ({
                let d = old(timer).delay;
                if duration_millis(d) / (f as int) > MIN_TIMEOUT_MSECS {
                    duration_nanos(final(timer).delay) == (duration_nanos(d) as int) / (f as int) && final(self).every == final(timer).delay
                } else {
                    *final(timer) == *old(timer) && final(self).every == old(self).every
                }
            }),
    {
        match action {
            Action::FilterNone => {
                self.filter = ProcessFilter::NoFilter;
                self.set_keymap(KeyMap::Main);
            },
            Action::FilterUsers => {
                self.filter = ProcessFilter::UserLand;
                self.set_keymap(KeyMap::Main);
            },
            Action::FilterActive => {
                self.filter = ProcessFilter::Active;
                self.set_keymap(KeyMap::Main);
            },
            Action::FilterCurrentUser => {
                self.filter = ProcessFilter::CurrentUser;
                self.set_keymap(KeyMap::Main);
            },
            Action::MultiplyTimeout(factor) => self.multiply_delay(timer, factor),
            Action::DivideTimeout(factor) => self.divide_delay(timer, factor),
            Action::ScrollLeft => self.scroll(true, Scroll::PreviousPosition),
            Action::ScrollRight => self.scroll(true, Scroll::NextPosition),
            Action::ScrollPageLeft => self.scroll(true, Scroll::PreviousPage),
            Action::ScrollPageRight => self.scroll(true, Scroll::NextPage),
            Action::ScrollPageUp => self.scroll(false, Scroll::PreviousPage),
            Action::ScrollPageDown => self.scroll(false, Scroll::NextPage),
            Action::ScrollLineUp => self.scroll(false, Scroll::PreviousPosition),
            Action::ScrollLineDown => self.scroll(false, Scroll::NextPosition),
            Action::GotoTableTop => self.goto_top(),
            Action::GotoTableBottom => self.goto_bottom(),
            Action::GotoTableLeft => self.goto_left(),
            Action::GotoTableRight => self.goto_right(),
            Action::SearchEnter => {
                self.bookmarks.incremental_search();
                self.set_keymap(KeyMap::IncrementalSearch);
            },
            Action::SearchExit => {
                self.bookmarks.fixed_search();
                self.set_keymap(KeyMap::Main);
            },
            Action::PushChar(c) => self.bookmarks.edit_search(SearchEdit::Push(c)),
            Action::PopChar => self.bookmarks.edit_search(SearchEdit::Pop),
            Action::SearchCancel => {
                let _ = self.bookmarks.clear_search();
            },
            Action::SelectPrevious => {
                let _ = self.bookmarks.set_action(BookmarkAction::Previous);
            },
            Action::SelectNext => {
                let _ = self.bookmarks.set_action(BookmarkAction::Next);
            },
            Action::ClearMarks => self.clear_bookmarks(),
            Action::ToggleMarks => {
                let _ = self.bookmarks.set_action(BookmarkAction::ToggleMarks);
            },
            _ => {},
        }
        action
    }
}

/// The marked pids, each once, in the order of the set.
pub fn marked_pids(marks: &BTreeSet<i32>) -> (v: Vec<i32>)
    ensures
        v@.to_set() == marks@,
        v@.no_duplicates(),
{
    let mut v: Vec<i32> = Vec::new();
    let ghost all = vstd::std_specs::btree::spec_btree_keys_iter(marks).remaining();
    for p in it: marks.iter()
        invariant
            it.seq() == all,
            v@ == all.take(it.index() as int).unref(),
            v@.len() == it.index(),
    {
        v.push(*p);
        assert(all.take(it.index() + 1).unref() =~= all.take(it.index() as int).unref().push(*p));
    }
    assert(all.take(v@.len() as int) =~= all);
    v
}


/// Whether an incremental search is going on.
pub open spec fn searching(b: Bookmarks) -> bool {
    b.spec_search() matches Some(s) && s.state is Incremental
}

/// The key bindings the main pane should have, if the current ones are
/// wrong: incremental search keys during an incremental search, main keys
/// otherwise; the filter keys are always right.
pub open spec fn main_keymap_fix(keymap: KeyMap, is_incremental_search: bool) -> Option<KeyMap> {
    match keymap {
        KeyMap::IncrementalSearch if is_incremental_search => None,
        KeyMap::Main if !is_incremental_search => None,
        KeyMap::Filters => None,
        _ => if is_incremental_search { Some(KeyMap::IncrementalSearch) } else { Some(KeyMap::Main) },
    }
}

/// Whether a kind of process data is shown in a pane below the details.
pub open spec fn is_detail_list(k: DataKind) -> bool {
    k == DataKind::Environment || k == DataKind::Files || k == DataKind::_Maps
}

/// Change of key bindings and of pane positions when moving from one pane
/// to another: the new key bindings if they change, and 1 to push a new
/// position, -1 to go back to the previous one, 0 to stay. A move that
/// makes no sense changes nothing.
pub open spec fn transition_plan(current: PaneKind, kind: PaneKind, main_fix: Option<KeyMap>) -> (Option<KeyMap>, int) {
    match current {
        PaneKind::Main => match kind {
            PaneKind::Main => (main_fix, 0),
            PaneKind::Help => (Some(KeyMap::Help), 1),
            PaneKind::Process(DataKind::Details) => (Some(KeyMap::Details), 1),
            _ => (None, 0),
        },
        PaneKind::Help => match kind {
            PaneKind::Main => (Some(KeyMap::Main), -1),
            _ => (None, 0),
        },
        PaneKind::Process(DataKind::Details) => match kind {
            PaneKind::Process(k) => if is_detail_list(k) { (Some(KeyMap::Process), 1) } else { (None, 0) },
            PaneKind::Main => (Some(KeyMap::Main), -1),
            _ => (None, 0),
        },
        PaneKind::Process(DataKind::Limits) => match kind {
            PaneKind::Process(DataKind::Details) => (Some(KeyMap::Details), -1),
            _ => (None, 0),
        },
        PaneKind::Process(c) => match kind {
            PaneKind::Process(DataKind::Details) => if is_detail_list(c) { (Some(KeyMap::Details), -1) } else { (None, 0) },
            _ => (None, 0),
        },
    }
}

impl TerminalDevice {
    /// Check if the key bindings of the main pane are right.
    pub fn fix_main_keymap(&self) -> (r: Option<KeyMap>)
        ensures
            r == main_keymap_fix(self.keymap, searching(self.bookmarks)),
    {
        let is_incremental_search = self.bookmarks.is_incremental_search();
        match self.keymap {
            KeyMap::IncrementalSearch if is_incremental_search => None,
            KeyMap::Main if !is_incremental_search => None,
            KeyMap::Filters => None,
            _ => if is_incremental_search {
                Some(KeyMap::IncrementalSearch)
            } else {
                Some(KeyMap::Main)
            },
        }
    }

    /// Move to another pane: change the key bindings and push or pop the
    /// position if necessary.
    pub fn transition(&mut self, kind: PaneKind)
        requires
            old(self).pane_kind != PaneKind::Process(DataKind::_Threads),
        ensures
            ({
                let (keymap, direction) = transition_plan(old(self).pane_kind, kind,
                    main_keymap_fix(old(self).keymap, searching(old(self).bookmarks)));
                &&& final(self).keymap == match keymap { Some(k) => k, None => old(self).keymap }
                &&& final(self).motions@ == if direction == 1 {
                    old(self).motions@.push(Area { horizontal: Motion { position: 0, scroll: Scroll::CurrentPosition },
                        vertical: Motion { position: 0, scroll: Scroll::CurrentPosition } })
                } else if direction == -1 && old(self).motions@.len() > 0 {
                    old(self).motions@.drop_last()
                } else {
                    old(self).motions@
                }
            }),
            final(self).pane_kind == kind,
            final(self).every == old(self).every,
            final(self).filter == old(self).filter,
            final(self).bookmarks == old(self).bookmarks,
    {
        let main_fix = self.fix_main_keymap();
        let (keymap, direction): (Option<KeyMap>, i8) = match self.pane_kind {
            PaneKind::Main => match kind {
                PaneKind::Main => (main_fix, 0),
                PaneKind::Help => (Some(KeyMap::Help), 1),
                PaneKind::Process(DataKind::Details) => (Some(KeyMap::Details), 1),
                _ => (None, 0),
            },
            PaneKind::Help => match kind {
                PaneKind::Help => (None, 0),
                PaneKind::Main => (Some(KeyMap::Main), -1),
                _ => (None, 0),
            },
            PaneKind::Process(DataKind::Details) => match kind {
                PaneKind::Process(DataKind::Details) => (None, 0),
                PaneKind::Process(DataKind::Environment | DataKind::Files | DataKind::_Maps) => (Some(KeyMap::Process), 1),
                PaneKind::Main => (Some(KeyMap::Main), -1),
                _ => (None, 0),
            },
            PaneKind::Process(DataKind::Environment | DataKind::Files | DataKind::_Maps) => match kind {
                PaneKind::Process(DataKind::Environment | DataKind::Files | DataKind::_Maps) => (None, 0),
                PaneKind::Process(DataKind::Details) => (Some(KeyMap::Details), -1),
                _ => (None, 0),
            },
            PaneKind::Process(DataKind::Limits) => match kind {
                PaneKind::Process(DataKind::Limits) => (None, 0),
                PaneKind::Process(DataKind::Details) => (Some(KeyMap::Details), -1),
                _ => (None, 0),
            },
            PaneKind::Process(_) => (None, 0),
        };
        match keymap {
            Some(k) => self.set_keymap(k),
            None => {},
        }
        if direction == 1 {
            self.motions.push(Area::new(Motion::default(), Motion::default()));
        } else if direction == -1 {
            let _ = self.motions.pop();
        }
        self.pane_kind = kind;
    }

    /// The interaction an action asks of the application, given the filter,
    /// the selection and the marks. Narrowing to the marks clears them.
    pub fn interaction(&mut self, action: Action) -> (r: Interaction)
        ensures
            final(self).every == old(self).every,
            final(self).motions == old(self).motions,
            final(self).filter == old(self).filter,
            final(self).pane_kind == old(self).pane_kind,
            final(self).keymap == old(self).keymap,
            !(action is ChangeScope && old(self).bookmarks.spec_marks().len() > 0)
                ==> final(self).bookmarks == old(self).bookmarks,
            match action {
                Action::SelectParent => r is SelectParent,
                Action::SwitchToHelp => r is SwitchToHelp,
                Action::SwitchBack => r is SwitchBack,
                Action::Quit => r is Quit,
                Action::ChangeScope => if old(self).bookmarks.spec_marks().len() > 0 {
                    &&& r matches Interaction::Narrow(pids) && pids@.to_set() == old(self).bookmarks.spec_marks()
                        && pids@.no_duplicates()
                    &&& old(self).bookmarks.spec_search() is Some ==> final(self).bookmarks.spec_search() is None
                        && final(self).bookmarks.spec_marks() == old(self).bookmarks.spec_marks()
                    &&& old(self).bookmarks.spec_search() is None ==> final(self).bookmarks.spec_search() is None
                        && final(self).bookmarks.spec_marks() == Set::<i32>::empty()
                    &&& final(self).bookmarks.spec_selected_pid() == old(self).bookmarks.spec_selected_pid()
                    &&& final(self).bookmarks.spec_action() == old(self).bookmarks.spec_action()
                } else {
                    r is Wide
                },
                Action::FilterNone | Action::FilterUsers | Action::FilterActive | Action::FilterCurrentUser =>
                    r matches Interaction::Filter(f) && f == old(self).filter,
                Action::SelectRootPid => match old(self).bookmarks.spec_selected_pid() {
                    Some(p) => r matches Interaction::SelectRootPid(Some(q)) && q == p,
                    None => r is NoInteraction,
                },
                Action::UnselectRootPid => r matches Interaction::SelectRootPid(None),
                Action::SwitchToDetails => match old(self).bookmarks.spec_selected_pid() {
                    Some(p) => r matches Interaction::SelectPid(q) && q == p,
                    None => r is NoInteraction,
                },
                Action::SwitchToLimits => r matches Interaction::SwitchTo(DataKind::Limits),
                Action::SwitchToEnvironment => r matches Interaction::SwitchTo(DataKind::Environment),
                Action::SwitchToFiles => r matches Interaction::SwitchTo(DataKind::Files),
                Action::SwitchToMaps => r matches Interaction::SwitchTo(DataKind::_Maps),
                _ => r is NoInteraction,
            },
    {
        match Interaction::from_action(&action) {
            Some(i) => i,
            None => match action {
                Action::ChangeScope => {
                    if self.bookmarks.marks().len() > 0 {
                        let pids = marked_pids(self.bookmarks.marks());
                        self.clear_bookmarks();
                        Interaction::Narrow(pids)
                    } else {
                        Interaction::Wide
                    }
                },
                Action::FilterNone | Action::FilterUsers | Action::FilterActive | Action::FilterCurrentUser => {
                    Interaction::Filter(self.filter)
                },
                Action::SelectRootPid => match self.bookmarks.selected_pid() {
                    Some(selected) => Interaction::SelectRootPid(Some(*selected)),
                    None => Interaction::NoInteraction,
                },
                Action::UnselectRootPid => Interaction::SelectRootPid(None),
                Action::SwitchToDetails => match self.bookmarks.selected_pid() {
                    Some(selected) => Interaction::SelectPid(*selected),
                    None => Interaction::NoInteraction,
                },
                Action::SwitchToLimits => Interaction::SwitchTo(DataKind::Limits),
                Action::SwitchToEnvironment => Interaction::SwitchTo(DataKind::Environment),
                Action::SwitchToFiles => Interaction::SwitchTo(DataKind::Files),
                Action::SwitchToMaps => Interaction::SwitchTo(DataKind::_Maps),
                _ => Interaction::NoInteraction,
            },
        }
    }
}

/// Number of blocks of the details pane.
pub const DETAILS_BLOCK_COUNT: usize = 4;

/// Heights that the widgets of the details pane ask for.
#[derive(Clone, Copy, Debug, PartialEq, Eq, Structural)]
pub struct DetailsHeights {
    pub command: u16,
    pub directory: u16,
    pub process: u16,
    pub files: u16,
    pub time: u16,
    pub memory: u16,
    pub menu: u16,
}

/// Height of a box of fields in an area: one line per field and the
/// borders, within the area.
pub open spec fn fields_height(count: nat, area: Rect) -> u16 {
    if count + 2 < area.height { (count + 2) as u16 } else { area.height }
}

/// The heights that the widgets of the details pane ask for in an area.
pub open spec fn details_heights(w: DetailsWidgets, menu: OneLineWidget, area: Rect) -> DetailsHeights {
    DetailsHeights {
        command: wrapped_height(w.command.text_length, w.command.title, area.width) as u16,
        directory: wrapped_height(w.directory.text_length, w.directory.title, area.width) as u16,
        process: fields_height(w.process.lines@.len(), area),
        files: fields_height(w.files.lines@.len(), area),
        time: fields_height(w.time.lines@.len(), area),
        memory: fields_height(w.memory.lines@.len(), area),
        menu: wrapped_height(menu.text_length, menu.title, area.width) as u16,
    }
}

/// The lines of the details pane scrolled by `offset` blocks: the command,
/// the directory and the boxes of process and files go away one after the
/// other, the boxes of time and memory stay, and the menu is at the bottom.
pub open spec fn details_lines(offset: int, h: DetailsHeights) -> Seq<GridLine> {
    (if offset < 1 { seq![GridLine::Row(1, max_height(seq![h.command]))] } else { Seq::empty() })
        + (if offset < 2 { seq![GridLine::Row(1, max_height(seq![h.directory]))] } else { Seq::empty() })
        + (if offset < 3 { seq![GridLine::Row(2, max_height(seq![h.process, h.files]))] } else { Seq::empty() })
        + seq![GridLine::Row(2, max_height(seq![h.time, h.memory])), GridLine::Fill, GridLine::Line(h.menu)]
}

/// Where the widgets of the details pane go.
pub struct DetailsLayout {
    pub with_command: bool,
    pub with_directory: bool,
    pub with_process: bool,
    /// Areas of the widgets shown, in order, then of the menu.
    pub rects: Vec<Option<Rect>>,
}

impl TerminalDevice {
    /// Lay out the details pane according to the vertical position of the
    /// visible pane, and keep the horizontal position on the last block
    /// when the vertical one goes beyond the blocks.
    pub fn details_layout(&mut self, area: Rect, widgets: &DetailsWidgets, menu: &OneLineWidget) -> (l: DetailsLayout)
        requires
            old(self).motions@.len() > 0,
            widgets.command.fits(area),
            widgets.directory.fits(area),
            menu.fits(area),
            widgets.process.lines@.len() + 2 <= u16::MAX,
            widgets.files.lines@.len() + 2 <= u16::MAX,
            widgets.time.lines@.len() + 2 <= u16::MAX,
            widgets.memory.lines@.len() + 2 <= u16::MAX,
            area.y + area.height <= u16::MAX,
            area.y + wrapped_height(menu.text_length, menu.title, area.width) <= u16::MAX,
        ensures
            ({
                let offset = old(self).motions@.last().vertical.position as int;
                let lines = details_lines(offset, details_heights(*widgets, *menu, area));
                &&& l.with_command == (offset < 1)
                &&& l.with_directory == (offset < 2)
                &&& l.with_process == (offset < 3)
                &&& is_grid_layout(area, lines, l.rects@)
                &&& final(self).motions@ == if offset >= DETAILS_BLOCK_COUNT {
                    old(self).motions@.update(old(self).motions@.len() - 1, Area {
                        horizontal: Motion { position: (DETAILS_BLOCK_COUNT - 1) as usize, ..old(self).motions@.last().horizontal },
                        ..old(self).motions@.last()
                    })
                } else {
                    old(self).motions@
                }
            }),
            final(self).every == old(self).every,
            final(self).filter == old(self).filter,
            final(self).pane_kind == old(self).pane_kind,
            final(self).keymap == old(self).keymap,
            final(self).bookmarks == old(self).bookmarks,
    {
        let n = self.motions.len() - 1;
        let offset = self.motions[n].vertical.position;
        let heights = DetailsHeights {
            command: widgets.command.min_height(area),
            directory: widgets.directory.min_height(area),
            process: widgets.process.min_height(area),
            files: widgets.files.min_height(area),
            time: widgets.time.min_height(area),
            memory: widgets.memory.min_height(area),
            menu: menu.min_height(area),
        };
        assert(heights == details_heights(*widgets, *menu, area));
        let with_command = offset < 1;
        let with_directory = offset < 2;
        let with_process = offset < 3;
        let command_row = vec![heights.command];
        let directory_row = vec![heights.directory];
        let process_row = vec![heights.process, heights.files];
        let time_row = vec![heights.time, heights.memory];
        let pane = GridPane::new(area)
            .with_row_if(command_row.as_slice(), with_command)
            .with_row_if(directory_row.as_slice(), with_directory)
            .with_row_if(process_row.as_slice(), with_process)
            .with_row(time_row.as_slice())
            .with_line(heights.menu);
        let ghost prefix = (if with_command { seq![GridLine::Row(1, max_height(seq![heights.command]))] } else { Seq::empty() })
            + (if with_directory { seq![GridLine::Row(1, max_height(seq![heights.directory]))] } else { Seq::empty() })
            + (if with_process { seq![GridLine::Row(2, max_height(seq![heights.process, heights.files]))] } else { Seq::empty() });
        let ghost row = GridLine::Row(2, max_height(seq![heights.time, heights.memory]));
        let ghost lines = details_lines(offset as int, heights);
        proof {
            assert(command_row@ =~= seq![heights.command]);
            assert(directory_row@ =~= seq![heights.directory]);
            assert(process_row@ =~= seq![heights.process, heights.files]);
            assert(time_row@ =~= seq![heights.time, heights.memory]);
            assert(lines =~= prefix + seq![row, GridLine::Fill, GridLine::Line(heights.menu)]);
            assert(pane.lines@ =~= prefix.push(row).push(GridLine::Fill).push(GridLine::Line(heights.menu)));
            assert(pane.lines@ =~= lines);
            assert forall|i: int| 0 <= i < prefix.len() implies #[trigger] prefix[i] is Row by {}
            lemma_rows_have_no_bottom(prefix);
            lemma_rows_have_no_bottom(prefix.push(row));
            assert(lines.drop_last() =~= prefix.push(row).push(GridLine::Fill));
            assert(lines.drop_last().drop_last() =~= prefix.push(row));
            assert(bottom_height(lines.drop_last()) == bottom_height(prefix.push(row)));
            assert(bottom_height(lines) == heights.menu as int);
            assert(grid_fits(area, lines));
        }
        let rects = pane.build();
        assert(is_grid_layout(area, lines, rects@));
        if offset >= DETAILS_BLOCK_COUNT {
            let mut last = self.motions[n];
            last.horizontal.position = DETAILS_BLOCK_COUNT - 1;
            self.motions.set(n, last);
        }
        DetailsLayout { with_command, with_directory, with_process, rects }
    }
}

/// Rows leave no height for the bottom lines.
proof fn lemma_rows_have_no_bottom(lines: Seq<GridLine>)
    requires
        forall|i: int| 0 <= i < lines.len() ==> #[trigger] lines[i] is Row,
    ensures
        bottom_height(lines) == 0,
    decreases lines.len(),
{
    if lines.len() > 0 {
        lemma_rows_have_no_bottom(lines.drop_last());
    }
}

/// Name of a filter on the status bar.
pub open spec fn filter_name(filter: ProcessFilter) -> Seq<char> {
    match filter {
        ProcessFilter::NoFilter => "none"@,
        ProcessFilter::UserLand => "user"@,
        ProcessFilter::Active => "active"@,
        ProcessFilter::CurrentUser => "CurrentUser"@,
    }
}

/// Name of a filter.
pub fn filter_to_string(filter: ProcessFilter) -> (s: String)
    ensures
        s@ == filter_name(filter),
{
    match filter {
        ProcessFilter::NoFilter => to_string("none"),
        ProcessFilter::UserLand => to_string("user"),
        ProcessFilter::Active => to_string("active"),
        ProcessFilter::CurrentUser => to_string("CurrentUser"),
    }
}

/// The status bar: the time, the interval between updates, then the
/// number of matches of a search, or else of marks, or else the filter.
pub open spec fn status_text(time: Seq<char>, every_millis: nat, matches: nat, marks: nat, filter: ProcessFilter) -> Seq<char> {
    time + " -- interval:"@ + spec_duration_human(every_millis) + if matches > 0 {
        " -- matches:"@ + decimal(matches)
    } else if marks > 0 {
        " -- marks:"@ + decimal(marks)
    } else {
        " -- filter:"@ + filter_name(filter)
    }
}

impl TerminalDevice {
    /// Content of the status bar, when the interval between updates counts
    /// its milliseconds in 64 bits.
    pub fn try_status_bar(&self, time: &str, matches: usize) -> (r: Option<String>)
        ensures
            match r {
                Some(s) => duration_nanos(self.every) / 1_000_000 <= u64::MAX
                    && s@ == status_text(time@, (duration_nanos(self.every) / 1_000_000) as nat, matches as nat,
                        self.bookmarks.spec_marks().len(), self.filter),
                None => duration_nanos(self.every) / 1_000_000 > u64::MAX,
            },
    {
        if as_nanos(self.every) / 1_000_000 <= u64::MAX as u128 {
            Some(self.status_bar(time, matches))
        } else {
            None
        }
    }

    /// Content of the status bar at a given time of day, with the number of
    /// processes that match the search.
    pub fn status_bar(&self, time: &str, matches: usize) -> (s: String)
        requires
            duration_nanos(self.every) / 1_000_000 <= u64::MAX,
        ensures
            s@ == status_text(time@, (duration_nanos(self.every) / 1_000_000) as nat, matches as nat,
                self.bookmarks.spec_marks().len(), self.filter),
    {
        let delay = human_duration(self.every);
        let marks = self.bookmarks.marks().len();
        let mut s = to_string(time);
        push_str(&mut s, " -- interval:");
        push_str(&mut s, delay.as_str());
        if matches > 0 {
            push_str(&mut s, " -- matches:");
            push_decimal(&mut s, matches as u64);
        } else if marks > 0 {
            push_str(&mut s, " -- marks:");
            push_decimal(&mut s, marks as u64);
        } else {
            push_str(&mut s, " -- filter:");
            let name = filter_to_string(self.filter);
            push_str(&mut s, name.as_str());
        }
        proof {
            reveal_strlit(" -- interval:");
            reveal_strlit(" -- matches:");
            reveal_strlit(" -- marks:");
            reveal_strlit(" -- filter:");
        }
        assert(s@ =~= status_text(time@, (duration_nanos(self.every) / 1_000_000) as nat, matches as nat,
            self.bookmarks.spec_marks().len(), self.filter));
        s
    }
}

/// Label of an aggregation in a column header.
pub open spec fn aggregation_label(ag: Aggregation) -> Seq<char> {
    match ag {
        Aggregation::Raw => "none"@,
        Aggregation::Min => "min"@,
        Aggregation::Max => "max"@,
        Aggregation::Ratio => "%"@,
    }
}

/// A name with each colon turned into a line feed.
pub open spec fn colons_to_lines(name: Seq<char>) -> Seq<char> {
    name.map_values(|c: char| if c == ':' { '\n' } else { c })
}

/// Header of computed metric `i`: the parts of the metric's name on
/// separate lines; when the previous column shows the same metric, the
/// last part names the aggregation.
pub open spec fn metric_header(computed: Seq<(MetricId, Aggregation)>, i: int) -> Seq<char> {
    let (id, ag) = computed[i];
    colons_to_lines(metric_name(id)) + if i > 0 && computed[i - 1].0 == id {
        " ("@ + aggregation_label(ag) + ")"@
    } else {
        Seq::empty()
    }
}

/// Headers of the columns of the computed metrics, one per column.
pub fn metric_headers(computed: &[(MetricId, Aggregation)]) -> (r: Vec<String>)
    ensures
        strings_view(r@) == Seq::new(computed@.len(), |i: int| metric_header(computed@, i)),
{
    let mut r: Vec<String> = Vec::new();
    let mut i: usize = 0;
    while i < computed.len()
        invariant
            i <= computed@.len(),
            strings_view(r@) == Seq::new(i as nat, |k: int| metric_header(computed@, k)),
        decreases computed@.len() - i,
    {
        let (id, ag) = computed[i];
        let name = str_chars(id.as_str());
        let mut header = String::new();
        let mut k: usize = 0;
        while k < name.len()
            invariant
                k <= name@.len(),
                name@ == metric_name(id),
                header@ == colons_to_lines(name@.take(k as int)),
            decreases name@.len() - k,
        {
            push_char(&mut header, if name[k] == ':' { '\n' } else { name[k] });
            assert(colons_to_lines(name@.take(k + 1)) =~= colons_to_lines(name@.take(k as int)).push(
                if name@[k as int] == ':' { '\n' } else { name@[k as int] }));
            k = k + 1;
        }
        assert(name@.take(name@.len() as int) =~= name@);
        let repeated = i > 0 && computed[i - 1].0 == id;
        if repeated {
            push_str(&mut header, " (");
            push_str(&mut header, match ag {
                Aggregation::Raw => "none",
                Aggregation::Min => "min",
                Aggregation::Max => "max",
                Aggregation::Ratio => "%",
            });
            push_str(&mut header, ")");
        }
        proof {
            reveal_strlit(" (");
            reveal_strlit(")");
            reveal_strlit("none");
            reveal_strlit("min");
            reveal_strlit("max");
            reveal_strlit("%");
        }
        assert(header@ =~= metric_header(computed@, i as int));
        let ghost before = r@;
        r.push(header);
        assert(strings_view(r@) =~= strings_view(before).push(metric_header(computed@, i as int)));
        assert(strings_view(r@) =~= Seq::new((i + 1) as nat, |k: int| metric_header(computed@, k)));
        i = i + 1;
    }
    r
}

} // verus!
