use std::time::Duration;

use oprs::clock::Timer;
use oprs::display::term::input::Action;
use oprs::display::term::types::Scroll;
use oprs::display::term::{Interaction, KeyMap, TerminalDevice};
use oprs::display::{DataKind, PaneKind};
use oprs::process::managers::ProcessFilter;

fn device() -> (TerminalDevice, Timer) {
    let every = Duration::new(5, 0);
    (TerminalDevice::new(every), Timer::new(every, false))
}

#[test]
fn scrolling_sets_the_scroll_of_the_visible_pane() {
    let (mut d, mut timer) = device();
    d.react(Action::ScrollLineDown, &mut timer);
    assert_eq!(d.motions[0].vertical.scroll, Scroll::NextPosition);
    d.react(Action::GotoTableRight, &mut timer);
    assert_eq!(d.motions[0].horizontal.scroll, Scroll::LastPosition);
    assert_eq!(d.motions[0].vertical.scroll, Scroll::NextPosition);
}

#[test]
fn filters_return_to_main_keys() {
    let (mut d, mut timer) = device();
    d.keymap = KeyMap::Filters;
    d.react(Action::FilterActive, &mut timer);
    assert_eq!(d.filter, ProcessFilter::Active);
    assert_eq!(d.keymap, KeyMap::Main);
    assert!(matches!(
        d.interaction(Action::FilterActive),
        Interaction::Filter(ProcessFilter::Active)
    ));
}

#[test]
fn timeouts_are_multiplied_and_divided() {
    let (mut d, mut timer) = device();
    d.react(Action::MultiplyTimeout(2), &mut timer);
    assert_eq!(timer.get_delay(), Duration::new(10, 0));
    assert_eq!(d.every, Duration::new(10, 0));
    d.react(Action::DivideTimeout(4), &mut timer);
    assert_eq!(timer.get_delay(), Duration::new(2, 500_000_000));
    // Not beyond a day.
    d.react(Action::MultiplyTimeout(50_000), &mut timer);
    assert_eq!(timer.get_delay(), Duration::new(2, 500_000_000));
}

#[test]
fn incremental_search_then_fixed() {
    let (mut d, mut timer) = device();
    d.react(Action::SearchEnter, &mut timer);
    assert_eq!(d.keymap, KeyMap::IncrementalSearch);
    d.react(Action::PushChar('a'), &mut timer);
    d.react(Action::PushChar('b'), &mut timer);
    d.react(Action::PopChar, &mut timer);
    assert_eq!(d.bookmarks.search_pattern(), Some("a".to_string()));
    d.react(Action::SearchExit, &mut timer);
    assert_eq!(d.keymap, KeyMap::Main);
    assert!(!d.bookmarks.is_incremental_search());
    assert_eq!(d.fix_main_keymap(), None);
    d.react(Action::ClearMarks, &mut timer);
    assert_eq!(d.bookmarks.search_pattern(), None);
}

#[test]
fn interactions_follow_the_selection() {
    let (mut d, _) = device();
    assert!(matches!(d.interaction(Action::SwitchToDetails), Interaction::NoInteraction));
    d.bookmarks.select_pid(42);
    assert!(matches!(d.interaction(Action::SwitchToDetails), Interaction::SelectPid(42)));
    assert!(matches!(d.interaction(Action::SelectRootPid), Interaction::SelectRootPid(Some(42))));
    assert!(matches!(d.interaction(Action::ChangeScope), Interaction::Wide));
    assert!(matches!(d.interaction(Action::Quit), Interaction::Quit));
    assert!(matches!(
        d.interaction(Action::SwitchToFiles),
        Interaction::SwitchTo(DataKind::Files)
    ));
}

#[test]
fn transitions_push_and_pop_positions() {
    let (mut d, _) = device();
    d.transition(PaneKind::Process(DataKind::Details));
    assert_eq!(d.keymap, KeyMap::Details);
    assert_eq!(d.motions.len(), 2);
    d.transition(PaneKind::Process(DataKind::Files));
    assert_eq!(d.keymap, KeyMap::Process);
    assert_eq!(d.motions.len(), 3);
    d.transition(PaneKind::Process(DataKind::Details));
    assert_eq!(d.motions.len(), 2);
    d.transition(PaneKind::Main);
    assert_eq!(d.keymap, KeyMap::Main);
    assert_eq!(d.motions.len(), 1);
    // Nonsense moves change nothing but the pane.
    d.transition(PaneKind::Help);
    d.transition(PaneKind::Process(DataKind::Limits));
    assert_eq!(d.keymap, KeyMap::Help);
    assert_eq!(d.motions.len(), 2);
}

#[test]
fn dividing_a_timeout_truncates_to_the_nanosecond() {
    let (mut d, mut timer) = device();
    d.react(Action::DivideTimeout(3), &mut timer);
    assert_eq!(timer.get_delay(), Duration::new(1, 666_666_666));
    assert_eq!(d.every, Duration::new(1, 666_666_666));
}
