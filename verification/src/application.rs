//! The decisions of the application: which display to use, when the main
//! loop stops, and how user interactions change what is shown.
//!
//! Devices, process managers and exporters do the outside work; the
//! functions here say what they are asked to do.

use std::time::Duration;
use vstd::prelude::*;
use crate::cfg::{DisplayMode, ExportSettings};
use crate::console::BuiltinTheme;
use crate::display::{DataKind, PaneKind};
use crate::display::term::Interaction;
use crate::metrics::FormattedMetric;
use crate::process::managers::ProcessFilter;

verus! {

/// Errors of the application.
#[derive(Clone, Copy, Debug, PartialEq, Eq, Structural)]
pub enum Error {
    /// No target specified in non-terminal mode.
    NoTargets,
    /// Terminal not available.
    TerminalNotAvailable,
}

/// The display mode and theme actually used for a requested mode.
pub open spec fn spec_display_mode(
    mode: DisplayMode,
    theme: Option<BuiltinTheme>,
    terminal_available: bool,
    guessed_theme: Option<BuiltinTheme>,
) -> Result<(DisplayMode, Option<BuiltinTheme>), Error> {
    match mode {
        DisplayMode::NoDisplay | DisplayMode::Text => Ok((mode, None)),
        _ => if terminal_available {
            Ok((DisplayMode::Terminal, match theme {
                Some(t) => Some(t),
                None => guessed_theme,
            }))
        } else if mode == DisplayMode::Terminal {
            Err(Error::TerminalNotAvailable)
        } else {
            Ok((DisplayMode::Text, None))
        },
    }
}

/// Return the best available display: the terminal when it is asked for
/// or for any display and a terminal is available, with the theme asked
/// for or else the guessed one; scrolling text for any display without a
/// terminal.
pub fn resolve_display_mode(
    mode: DisplayMode,
    theme: Option<BuiltinTheme>,
    terminal_available: bool,
    guessed_theme: Option<BuiltinTheme>,
) -> (r: Result<(DisplayMode, Option<BuiltinTheme>), Error>)
    ensures
        r == spec_display_mode(mode, theme, terminal_available, guessed_theme),
{
    match mode {
        DisplayMode::NoDisplay | DisplayMode::Text => Ok((mode, None)),
        _ => {
            if terminal_available {
                Ok((DisplayMode::Terminal, match theme {
                    Some(t) => Some(t),
                    None => guessed_theme,
                }))
            } else {
                match mode {
                    DisplayMode::Terminal => Err(Error::TerminalNotAvailable),
                    _ => Ok((DisplayMode::Text, None)),
                }
            }
        },
    }
}

/// A run needs targets unless it is interactive.
pub fn check_targets(has_targets: bool, is_interactive: bool) -> (r: Result<(), Error>)
    ensures
        r is Err <==> !has_targets && !is_interactive,
        r matches Err(e) ==> e == Error::NoTargets,
{
    if !has_targets && !is_interactive {
        Err(Error::NoTargets)
    } else {
        Ok(())
    }
}

/// Application displaying the details metrics.
pub struct Application {
    pub display_mode: DisplayMode,
    pub every: Duration,
    pub count: Option<u64>,
    pub metrics: Vec<FormattedMetric>,
    pub export_settings: ExportSettings,
    pub theme: Option<BuiltinTheme>,
    pub human_format: bool,
}

/// Counts the rounds of the main loop.
pub struct LoopCounter {
    /// Number of rounds to run, if limited.
    pub count: Option<u64>,
    /// Rounds run so far.
    pub loop_number: u64,
}

impl LoopCounter {
    /// No round run yet.
    pub fn new(count: Option<u64>) -> (c: LoopCounter)
        ensures
            c.count == count,
            c.loop_number == 0,
    {
        LoopCounter { count, loop_number: 0 }
    }

    /// Count a round; true when the loop must stop.
    pub fn round_done(&mut self) -> (stop: bool)
        requires
            old(self).loop_number < u64::MAX,
        ensures
            final(self).count == old(self).count,
            match old(self).count {
                Some(c) => final(self).loop_number == old(self).loop_number + 1
                    && stop == (final(self).loop_number >= c),
                None => final(self).loop_number == old(self).loop_number && !stop,
            },
    {
        match self.count {
            Some(count) => {
                self.loop_number = self.loop_number + 1;
                self.loop_number >= count
            },
            None => false,
        }
    }
}

/// What the application does for an interaction beside changing panes.
pub enum Effect {
    /// Nothing more.
    Nothing,
    /// Stop the application.
    Stop,
    /// Apply a new filter and refresh.
    SetFilter(ProcessFilter),
    /// Load the details of a process, then show them if they could be read.
    LoadDetails(i32),
    /// Load the details of the parent of the process shown, then show them.
    LoadParentDetails,
    /// Show the processes under a new root, or all of them, and refresh.
    SetRootPid(Option<i32>),
    /// Show only these processes and refresh.
    Narrow(Vec<i32>),
    /// Explore all the processes under the root and refresh.
    Wide,
}

/// What the application shows: its pane, the root of the process tree and
/// whether details of a process are loaded.
pub struct State {
    pub pane_kind: PaneKind,
    pub root_pid: Option<i32>,
    pub has_details: bool,
}

/// The pane shown after going back.
pub open spec fn pane_after_switch_back(pane_kind: PaneKind, has_details: bool) -> PaneKind {
    match (pane_kind, has_details) {
        (PaneKind::Process(DataKind::Details), true) => PaneKind::Main,
        (PaneKind::Help, true) | (PaneKind::Process(_), true) => PaneKind::Process(DataKind::Details),
        _ => PaneKind::Main,
    }
}

impl State {
    /// The main pane with no details loaded.
    pub fn new(root_pid: Option<i32>) -> (s: State)
        ensures
            s.pane_kind == PaneKind::Main,
            s.root_pid == root_pid,
            !s.has_details,
    {
        State { pane_kind: PaneKind::Main, root_pid, has_details: false }
    }

    /// Apply an interaction: change the pane where no outside work is
    /// needed, and say what outside work is needed.
    pub fn interact(&mut self, action: Interaction) -> (e: Effect)
        ensures
            match action {
                Interaction::Quit => e is Stop && *final(self) == *old(self),
                Interaction::Filter(f) => e matches Effect::SetFilter(g) && g == f && *final(self) == *old(self),
                Interaction::SwitchBack => e is Nothing
                    && final(self).pane_kind == pane_after_switch_back(old(self).pane_kind, old(self).has_details)
                    && final(self).has_details == (old(self).has_details && old(self).pane_kind != PaneKind::Process(DataKind::Details))
                    && final(self).root_pid == old(self).root_pid,
                Interaction::SwitchToHelp => e is Nothing && final(self).pane_kind == PaneKind::Help
                    && final(self).has_details == old(self).has_details && final(self).root_pid == old(self).root_pid,
                Interaction::SwitchTo(kind) => e is Nothing
                    && final(self).pane_kind == (if old(self).pane_kind is Process { PaneKind::Process(kind) } else { old(self).pane_kind })
                    && final(self).has_details == old(self).has_details && final(self).root_pid == old(self).root_pid,
                Interaction::SelectPid(pid) => e matches Effect::LoadDetails(p) && p == pid && *final(self) == *old(self),
                Interaction::SelectParent => e is LoadParentDetails && *final(self) == *old(self),
                Interaction::SelectRootPid(r) => e matches Effect::SetRootPid(q) && q == r
                    && final(self).root_pid == r && final(self).pane_kind == old(self).pane_kind
                    && final(self).has_details == old(self).has_details,
                Interaction::Narrow(pids) => e matches Effect::Narrow(p) && p@ == pids@ && *final(self) == *old(self),
                Interaction::Wide => e is Wide && *final(self) == *old(self),
                Interaction::NoInteraction => e is Nothing && *final(self) == *old(self),
            },
    {
        match action {
            Interaction::Quit => Effect::Stop,
            Interaction::Filter(filter) => Effect::SetFilter(filter),
            Interaction::SwitchBack => {
                match self.pane_kind {
                    PaneKind::Process(DataKind::Details) if self.has_details => {
                        self.has_details = false;
                        self.pane_kind = PaneKind::Main;
                    },
                    PaneKind::Help if self.has_details => {
                        self.pane_kind = PaneKind::Process(DataKind::Details);
                    },
                    PaneKind::Process(_) if self.has_details => {
                        self.pane_kind = PaneKind::Process(DataKind::Details);
                    },
                    _ => self.pane_kind = PaneKind::Main,
                }
                Effect::Nothing
            },
            Interaction::SwitchToHelp => {
                self.pane_kind = PaneKind::Help;
                Effect::Nothing
            },
            Interaction::SwitchTo(kind) => {
                if matches!(self.pane_kind, PaneKind::Process(_)) {
                    self.pane_kind = PaneKind::Process(kind);
                }
                Effect::Nothing
            },
            Interaction::SelectPid(pid) => Effect::LoadDetails(pid),
            Interaction::SelectParent => Effect::LoadParentDetails,
            Interaction::SelectRootPid(new_root_pid) => {
                self.root_pid = new_root_pid;
                Effect::SetRootPid(new_root_pid)
            },
            Interaction::Narrow(pids) => Effect::Narrow(pids),
            Interaction::Wide => Effect::Wide,
            Interaction::NoInteraction => Effect::Nothing,
        }
    }

    /// Record whether details could be loaded: they are shown if so.
    pub fn details_loaded(&mut self, loaded: bool)
        ensures
            final(self).has_details == loaded,
            final(self).pane_kind == (if loaded { PaneKind::Process(DataKind::Details) } else { old(self).pane_kind }),
            final(self).root_pid == old(self).root_pid,
    {
        self.has_details = loaded;
        if loaded {
            self.pane_kind = PaneKind::Process(DataKind::Details);
        }
    }

    /// Record whether the details shown could be refreshed: if not, they
    /// are dropped and the main pane is shown.
    pub fn refresh_details(&mut self, refresh_failed: bool)
        ensures
            old(self).has_details && refresh_failed ==> !final(self).has_details && final(self).pane_kind == PaneKind::Main,
            !(old(self).has_details && refresh_failed) ==> *final(self) == *old(self),
            final(self).root_pid == old(self).root_pid,
    {
        if self.has_details && refresh_failed {
            self.has_details = false;
            self.pane_kind = PaneKind::Main;
        }
    }
}

} // verus!
