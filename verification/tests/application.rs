use oprs::application::{
    check_targets, resolve_display_mode, Effect, Error, LoopCounter, State,
};
use oprs::cfg::DisplayMode;
use oprs::console::BuiltinTheme;
use oprs::display::term::Interaction;
use oprs::display::{DataKind, PaneKind};
use oprs::process::managers::ProcessFilter;

#[test]
fn display_mode_resolution() {
    assert_eq!(
        resolve_display_mode(DisplayMode::Text, Some(BuiltinTheme::Dark), true, None),
        Ok((DisplayMode::Text, None))
    );
    assert_eq!(
        resolve_display_mode(DisplayMode::Any, None, true, Some(BuiltinTheme::Light)),
        Ok((DisplayMode::Terminal, Some(BuiltinTheme::Light)))
    );
    assert_eq!(
        resolve_display_mode(DisplayMode::Terminal, Some(BuiltinTheme::Dark), true, Some(BuiltinTheme::Light)),
        Ok((DisplayMode::Terminal, Some(BuiltinTheme::Dark)))
    );
    assert_eq!(
        resolve_display_mode(DisplayMode::Any, None, false, None),
        Ok((DisplayMode::Text, None))
    );
    assert_eq!(
        resolve_display_mode(DisplayMode::Terminal, None, false, None),
        Err(Error::TerminalNotAvailable)
    );
}

#[test]
fn targets_are_needed_without_terminal() {
    assert_eq!(check_targets(false, false), Err(Error::NoTargets));
    assert_eq!(check_targets(false, true), Ok(()));
    assert_eq!(check_targets(true, false), Ok(()));
}

#[test]
fn loop_stops_after_count_rounds() {
    let mut counter = LoopCounter::new(Some(2));
    assert!(!counter.round_done());
    assert!(counter.round_done());
    let mut endless = LoopCounter::new(None);
    for _ in 0..5 {
        assert!(!endless.round_done());
    }
}

#[test]
fn interactions_change_panes() {
    let mut state = State::new(None);
    assert!(matches!(state.interact(Interaction::SelectPid(12)), Effect::LoadDetails(12)));
    state.details_loaded(true);
    assert_eq!(state.pane_kind, PaneKind::Process(DataKind::Details));
    state.interact(Interaction::SwitchTo(DataKind::Files));
    assert_eq!(state.pane_kind, PaneKind::Process(DataKind::Files));
    state.interact(Interaction::SwitchBack);
    assert_eq!(state.pane_kind, PaneKind::Process(DataKind::Details));
    state.interact(Interaction::SwitchBack);
    assert_eq!(state.pane_kind, PaneKind::Main);
    assert!(!state.has_details);
    // Switching to a process pane only works from a process pane.
    state.interact(Interaction::SwitchTo(DataKind::Files));
    assert_eq!(state.pane_kind, PaneKind::Main);
    assert!(matches!(state.interact(Interaction::Quit), Effect::Stop));
    assert!(matches!(
        state.interact(Interaction::Filter(ProcessFilter::Active)),
        Effect::SetFilter(ProcessFilter::Active)
    ));
    assert!(matches!(
        state.interact(Interaction::SelectRootPid(Some(1))),
        Effect::SetRootPid(Some(1))
    ));
    assert_eq!(state.root_pid, Some(1));
}

#[test]
fn failed_refresh_drops_details() {
    let mut state = State::new(None);
    state.details_loaded(true);
    state.refresh_details(true);
    assert!(!state.has_details);
    assert_eq!(state.pane_kind, PaneKind::Main);
}
