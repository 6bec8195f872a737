use std::collections::BTreeSet;

use oprs::console::Key;
use oprs::display::term::input::{
    menu, Action, BookmarkAction, Bookmarks, LinePid, MenuBuilder, MenuTarget, SearchBar,
    SearchEdit,
};
use oprs::display::term::types::Scroll;

const KEY_HELP: Key = Key::Char('?');
const KEY_MENU_HELP: Key = Key::F(1);

#[test]
fn test_menu_not_found() {
    let menu = menu();
    let entry = menu.map_key(&Key::Null);
    assert!(entry.is_none());
}

#[test]
fn test_menu_action() {
    let menu = menu();
    match menu.map_key(&KEY_MENU_HELP).unwrap() {
        MenuTarget::Menu(menu_help) => {
            let entry = menu_help.map_key(&KEY_HELP);
            assert!(matches!(entry, Some(MenuTarget::Action(Action::SwitchToHelp))));
        }
        MenuTarget::Action(_) => panic!("got an action instead of a menu"),
    }
}

#[test]
fn test_menu_submenu() {
    let menu = menu();
    let entry = menu.map_key(&KEY_MENU_HELP);
    assert!(matches!(entry, Some(MenuTarget::Menu(_))));
}

#[test]
fn test_duplicate_menu() {
    // Create a menu with a submenu without self action
    let key_submenu_action_a = Key::Char('a');
    let submenu_wo_action = MenuBuilder::new("SubmenuNoAction")
        .with_action(key_submenu_action_a, "Action A", Action::ToggleMarks)
        .build();

    // Create a menu with a submenu with self action
    let key_submenu_action_b = Key::Char('b');
    let submenu_wi_action = MenuBuilder::new("SubmenuWithAction")
        .with_action(key_submenu_action_b, "Action B", Action::ClearMarks)
        .with_self_action(Action::SelectNext)
        .build();

    // Create a main menu with both submenus, an action, and a shortcut
    let key_menu_wo_action = Key::Char('1');
    let key_menu_wi_action = Key::Char('2');
    let key_action = Key::Char('c');
    let key_shortcut = Key::Char('s');
    let original_menu = MenuBuilder::new("OriginalMenu")
        .with_menu(key_menu_wo_action, submenu_wo_action)
        .with_menu(key_menu_wi_action, submenu_wi_action)
        .with_action(key_action, "Action C", Action::SelectPrevious)
        .with_shortcut(key_shortcut, Action::Quit)
        .build();

    // Create a duplicate menu with a different self action
    let duplicated_menu =
        MenuBuilder::duplicate("DuplicatedMenu", &original_menu, Action::ChangeScope);

    // Action is set
    assert!(matches!(duplicated_menu.action, Action::ChangeScope));

    // Menu without actions are ignored
    assert!(duplicated_menu.map_key(&key_menu_wo_action).is_none());

    // Menu with an action are kept as target
    match duplicated_menu.map_key(&key_menu_wi_action) {
        Some(MenuTarget::Menu(menu)) => {
            assert!(matches!(menu.action, Action::SelectNext))
        }
        Some(MenuTarget::Action(_)) => panic!("action instead of menu"),
        None => panic!("unknown key"),
    }

    // Actions are duplicated
    assert!(matches!(
        duplicated_menu.map_key(&key_action),
        Some(MenuTarget::Action(Action::SelectPrevious))
    ));

    // Shortcuts are duplicated
    assert!(matches!(
        duplicated_menu.map_key(&key_shortcut),
        Some(MenuTarget::Action(Action::Quit))
    ));

    // Sub-entries are not duplicated
    assert!(matches!(duplicated_menu.map_key(&key_submenu_action_a), None));
    assert!(matches!(duplicated_menu.map_key(&key_submenu_action_b), None));
}

#[test]
fn menu_entries_show_key_names() {
    let main = menu();
    let keys: Vec<String> = main.entries().map(|e| e.key().clone()).collect();
    assert_eq!(vec!["F1", "F2", "F3", "F5", "F6", "F7"], keys);
    let labels: Vec<&str> = main.entries().map(|e| *e.label()).collect();
    assert_eq!(vec!["Help", "Edit", "Navigate", "Search", "Select", "Filters"], labels);
    // Imported actions are shortcuts of the main menu.
    assert!(matches!(main.map_key(&Key::Up), Some(MenuTarget::Action(Action::ScrollLineUp))));
    assert!(matches!(main.map_key(&Key::Esc), Some(MenuTarget::Action(Action::Quit))));
    assert!(matches!(main.map_key(&Key::Char('q')), Some(MenuTarget::Action(Action::Quit))));
}

#[test]
fn incremental_search_menu_accepts_chars() {
    let main = menu();
    let search = match main.map_key(&Key::F(5)) {
        Some(MenuTarget::Menu(m)) => m,
        _ => panic!("no search menu"),
    };
    let isearch = match search.map_key(&Key::Char('/')) {
        Some(MenuTarget::Menu(m)) => m,
        _ => panic!("no incremental search menu"),
    };
    assert!(matches!(isearch.action, Action::SearchEnter));
    assert!(matches!(isearch.map_key(&Key::Char('x')), Some(MenuTarget::Action(Action::PushChar('x')))));
    assert!(matches!(isearch.map_key(&Key::Backspace), Some(MenuTarget::Action(Action::PopChar))));
    assert!(matches!(isearch.map_key(&Key::Char('\n')), Some(MenuTarget::Action(Action::SearchExit))));
    assert!(isearch.map_key(&Key::Up).is_none());
}

#[test]
fn action_helpers() {
    assert!(!Action::NoAction.is_some());
    assert!(Action::Quit.is_some());
    assert_eq!(None, Action::NoAction.ok());
    assert_eq!(Some(Action::Quit), Action::Quit.ok());
    assert!(Action::SearchExit.parent_menu());
    assert!(Action::SwitchBack.parent_menu());
    assert!(!Action::Quit.parent_menu());
}

#[test]
fn search_bar_freeze_and_thaw() {
    let mut bar = SearchBar::default();
    bar.push('a');
    bar.push('b');
    bar.pop();
    bar.push('c');
    assert_eq!("ac", bar.pattern());
    assert!(bar.freeze());
    assert_eq!("ac", bar.pattern());
    bar.thaw();
    bar.push('d');
    assert_eq!("acd", bar.pattern());
    let mut empty = SearchBar::default();
    assert!(!empty.freeze());
}

#[test]
fn line_pid_ring_navigation() {
    let ring = [LinePid::new(1, 10), LinePid::new(4, 40), LinePid::new(7, 70)];
    assert_eq!(Some(LinePid::new(4, 40)), LinePid::new(1, 10).next_in(&ring));
    assert_eq!(Some(LinePid::new(1, 10)), LinePid::new(7, 70).next_in(&ring));
    assert_eq!(Some(LinePid::new(7, 70)), LinePid::new(1, 10).previous_in(&ring));
    // Unknown pid: by line number
    assert_eq!(Some(LinePid::new(4, 40)), LinePid::new(3, 99).next_in(&ring));
    assert_eq!(Some(LinePid::new(1, 10)), LinePid::new(3, 99).previous_in(&ring));
    assert_eq!(Some(LinePid::new(1, 10)), LinePid::new(9, 99).next_in(&ring));
    assert_eq!(Some(LinePid::new(7, 70)), LinePid::new(0, 99).previous_in(&ring));
    assert_eq!(None, LinePid::new(0, 99).previous_in(&[]));
}

#[test]
fn bookmarks_search_selects_matches() {
    let lines = [(0, "system"), (10, "bash"), (20, "vim"), (30, "bash")];
    let mut bookmarks = Bookmarks::default();
    let mut occurrences = BTreeSet::new();
    bookmarks.incremental_search();
    for c in "bash".chars() {
        bookmarks.edit_search(SearchEdit::Push(c));
    }
    assert!(bookmarks.is_incremental_search());
    let line = bookmarks.selected_line(Scroll::CurrentPosition, &mut occurrences, &lines);
    assert_eq!(Some(1), line);
    assert_eq!(&Some(10), bookmarks.selected_pid());
    assert_eq!(2, occurrences.len());
    bookmarks.set_action(BookmarkAction::Next);
    let line = bookmarks.selected_line(Scroll::CurrentPosition, &mut occurrences, &lines);
    assert_eq!(Some(3), line);
    bookmarks.set_action(BookmarkAction::ToggleMarks);
    let _ = bookmarks.selected_line(Scroll::CurrentPosition, &mut occurrences, &lines);
    assert!(bookmarks.is_marked(10));
    assert!(bookmarks.is_marked(30));
    assert!(!bookmarks.is_marked(20));
    assert!(bookmarks.search().is_none());
    assert!(occurrences.is_empty());
}

#[test]
fn bookmarks_scroll_clears_search_and_marks() {
    let lines = [(10, "a"), (20, "b"), (30, "c")];
    let mut bookmarks = Bookmarks::default();
    let mut occurrences = BTreeSet::new();
    bookmarks.select_pid(20);
    bookmarks.set_action(BookmarkAction::ToggleMarks);
    assert_eq!(Some(1), bookmarks.selected_line(Scroll::CurrentPosition, &mut occurrences, &lines));
    assert!(bookmarks.is_marked(20));
    assert_eq!(Some(2), bookmarks.selected_line(Scroll::LastPosition, &mut occurrences, &lines));
    assert!(!bookmarks.is_marked(20));
    // The first line is only known once a second line was seen.
    assert_eq!(Some(0), bookmarks.selected_line(Scroll::FirstPosition, &mut occurrences, &lines));
    assert_eq!(None, bookmarks.selected_line(Scroll::FirstPosition, &mut occurrences, &lines[..1]));
}

#[test]
fn bookmarks_fixed_search() {
    let mut bookmarks = Bookmarks::default();
    bookmarks.incremental_search();
    bookmarks.fixed_search();
    assert!(bookmarks.search().is_none());
    bookmarks.incremental_search();
    bookmarks.edit_search(SearchEdit::Push('x'));
    bookmarks.fixed_search();
    assert_eq!(Some("x".to_string()), bookmarks.search_pattern());
    assert!(!bookmarks.is_incremental_search());
    assert!(bookmarks.clear_search());
    assert!(!bookmarks.clear_search());
}

#[test]
fn main_menu_imports_navigation_and_edit_keys() {
    let main = menu();
    assert!(matches!(main.map_key(&Key::Up), Some(MenuTarget::Action(Action::ScrollLineUp))));
    assert!(matches!(main.map_key(&Key::Down), Some(MenuTarget::Action(Action::ScrollLineDown))));
    assert!(matches!(main.map_key(&Key::Char('+')), Some(MenuTarget::Action(Action::DivideTimeout(2)))));
    assert!(matches!(main.map_key(&Key::Esc), Some(MenuTarget::Action(Action::Quit))));
}

#[test]
fn main_menu_entries_in_order() {
    let main = menu();
    let entries: Vec<(String, &str)> = main.entries().map(|e| (e.key().clone(), *e.label())).collect();
    assert_eq!(
        vec![
            ("F1".to_string(), "Help"),
            ("F2".to_string(), "Edit"),
            ("F3".to_string(), "Navigate"),
            ("F5".to_string(), "Search"),
            ("F6".to_string(), "Select"),
            ("F7".to_string(), "Filters"),
        ],
        entries
    );
}
