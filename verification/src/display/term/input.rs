//! Key bindings, menus, search bar and bookmarks of the terminal display.

use vstd::prelude::*;
use std::collections::BTreeSet;
use std::rc::Rc;
use crate::console::{Event, Key};
use crate::strings::{decimal, find_from, push_char, push_decimal, push_str, slice_find_from, str_chars, string_from_chars, to_string};
use super::types::Scroll;

verus! {

broadcast use {vstd::laws_cmp::group_laws_cmp, vstd::std_specs::btree::group_btree_axioms};

/// Keys to change the refresh speed.
pub const KEY_FASTER_CHAR: char = '+';
pub const KEY_SLOWER_CHAR: char = '-';

/// User action
#[derive(Clone, Copy, Debug, PartialEq, Eq, Structural)]
pub enum Action {
    NoAction,
    ChangeScope,
    DivideTimeout(u16),
    FilterNone,
    FilterUsers,
    FilterActive,
    FilterCurrentUser,
    GotoTableBottom,
    GotoTableLeft,
    GotoTableRight,
    GotoTableTop,
    SwitchToAbout,
    SwitchToHelp,
    SwitchBack,
    SwitchToDetails,
    SwitchToLimits,
    SwitchToEnvironment,
    SwitchToFiles,
    SwitchToMaps,
    ClearMarks,
    ToggleMarks,
    MultiplyTimeout(u16),
    PushChar(char),
    PopChar,
    Quit,
    ScrollLeft,
    ScrollLineDown,
    ScrollLineUp,
    ScrollPageDown,
    ScrollPageLeft,
    ScrollPageRight,
    ScrollPageUp,
    ScrollRight,
    SearchCancel,
    SearchEnter,
    SearchExit,
    SelectNext,
    SelectPrevious,
    SelectParent,
    SelectRootPid,
    UnselectRootPid,
}

impl Default for Action {
    fn default() -> (a: Self)
        ensures
            a == Action::NoAction,
    {
        Action::NoAction
    }
}

impl Action {
    /// True if not NoAction
    pub fn is_some(&self) -> (b: bool)
        ensures
            b == (*self != Action::NoAction),
    {
        !matches!(self, Action::NoAction)
    }

    /// Convert an action to an Option.
    pub fn ok(self) -> (r: Option<Action>)
        ensures
            r == if self == Action::NoAction { None } else { Some(self) },
    {
        match self {
            Action::NoAction => None,
            _ => Some(self),
        }
    }

    /// True if the action implies reverting to the parent menu
    pub fn parent_menu(&self) -> (b: bool)
        ensures
            b == (*self == Action::SearchExit || *self == Action::SwitchBack),
    {
        matches!(self, Self::SearchExit | Self::SwitchBack)
    }
}

/// Menu target
#[derive(Debug)]
pub enum MenuTarget {
    // Action
    Action(Action),
    // Sub-menu
    Menu(Rc<Menu>),
}

/// A shared reference to the same menu.
#[verifier::external_body]
fn share_menu(menu: &Rc<Menu>) -> (r: Rc<Menu>)
    ensures
        r == *menu,
{
    Rc::clone(menu)
}

impl Clone for MenuTarget {
    fn clone(&self) -> (r: Self)
        ensures
            r == *self,
    {
        match self {
            Self::Action(action) => Self::Action(*action),
            Self::Menu(menu) => Self::Menu(share_menu(menu)),
        }
    }
}

/// Name of a key as shown in menus.
pub open spec fn key_name_spec(key: Key) -> Seq<char> {
    match key {
        Key::Backspace => "⌫"@,
        Key::Left => "←"@,
        Key::Right => "→"@,
        Key::Up => "↑"@,
        Key::Down => "↓"@,
        Key::PageUp => "⇞"@,
        Key::PageDown => "⇟"@,
        Key::Home => "⇱"@,
        Key::CtrlHome => "^⇱"@,
        Key::End => "⇲"@,
        Key::CtrlEnd => "^⇲"@,
        Key::BackTab => "⇤"@,
        Key::Delete => "⌧"@,
        Key::Insert => "Ins"@,
        Key::F(num) => "F"@ + decimal(num as nat),
        Key::Char(c) => if c == '\t' {
            "⇥"@
        } else if c == '\n' {
            "⏎"@
        } else if c == ' ' {
            "Spc"@
        } else {
            seq![c]
        },
        Key::Alt(c) => "M-"@.push(c),
        Key::Ctrl(c) => "C-"@.push(c),
        Key::Null => "\\0"@,
        _ => "?"@,
    }
}

/// Menu entry with a key and a label.
#[derive(Debug)]
pub struct MenuEntry {
    key: String,
    label: &'static str,
}

impl MenuEntry {
    /// Name of the key, as displayed.
    pub closed spec fn spec_key(&self) -> Seq<char> {
        self.key@
    }

    /// Label of the entry.
    pub closed spec fn spec_label(&self) -> &'static str {
        self.label
    }

    fn new(key: Key, label: &'static str) -> (e: Self)
        ensures
            e.spec_key() == key_name_spec(key),
            e.spec_label() == label,
    {
        let key = Self::key_name(key);
        Self { key, label }
    }

    /// Name of the key, as displayed.
    pub fn key(&self) -> (k: &String)
        ensures
            k@ == self.spec_key(),
    {
        &self.key
    }

    /// Label of the entry.
    pub fn label(&self) -> (l: &&'static str)
        ensures
            *l == self.spec_label(),
    {
        &self.label
    }

    fn key_name(key: Key) -> (s: String)
        ensures
            s@ == key_name_spec(key),
    {
        match key {
            Key::Backspace => to_string("⌫"),
            Key::Left => to_string("←"),
            Key::Right => to_string("→"),
            Key::Up => to_string("↑"),
            Key::Down => to_string("↓"),
            Key::PageUp => to_string("⇞"),
            Key::PageDown => to_string("⇟"),
            Key::Home => to_string("⇱"),
            Key::CtrlHome => to_string("^⇱"),
            Key::End => to_string("⇲"),
            Key::CtrlEnd => to_string("^⇲"),
            Key::BackTab => to_string("⇤"),
            Key::Delete => to_string("⌧"),
            Key::Insert => to_string("Ins"),
            Key::F(num) => {
                let mut s = to_string("F");
                push_decimal(&mut s, num as u64);
                s
            },
            Key::Char(c) => {
                if c == '\t' {
                    to_string("⇥")
                } else if c == '\n' {
                    to_string("⏎")
                } else if c == ' ' {
                    to_string("Spc")
                } else {
                    let mut s = String::new();
                    push_char(&mut s, c);
                    assert(s@ =~= seq![c]);
                    s
                }
            },
            Key::Alt(c) => {
                let mut s = to_string("M-");
                push_char(&mut s, c);
                s
            },
            Key::Ctrl(c) => {
                let mut s = to_string("C-");
                push_char(&mut s, c);
                s
            },
            Key::Null => to_string("\\0"),
            _ => to_string("?"),
        }
    }
}

/// Value bound to a key: the last binding wins.
pub open spec fn lookup<T>(bindings: Seq<(Key, T)>, key: Key) -> Option<T>
    decreases bindings.len(),
{
    if bindings.len() == 0 {
        None
    } else if bindings.last().0 == key {
        Some(bindings.last().1)
    } else {
        lookup(bindings.drop_last(), key)
    }
}

/// Value bound to a key: the last binding wins.
fn find_binding<T: Copy>(bindings: &Vec<(Key, T)>, key: &Key) -> (r: Option<T>)
    ensures
        r == lookup(bindings@, *key),
{
    let mut i = bindings.len();
    assert(bindings@.take(i as int) =~= bindings@);
    while i > 0
        invariant
            0 <= i <= bindings.len(),
            lookup(bindings@, *key) == lookup(bindings@.take(i as int), *key),
        decreases i,
    {
        assert(bindings@.take(i as int).drop_last() =~= bindings@.take(i - 1));
        assert(bindings@.take(i as int).last() == bindings@[i - 1]);
        if bindings[i - 1].0 == *key {
            return Some(bindings[i - 1].1);
        }
        i = i - 1;
    }
    None
}

/// A menu with entries to display and shorcuts.
///
/// A shorcut directly executes an action or opens a sub-menu whether it's
/// displayed or not.
#[derive(Debug)]
pub struct Menu {
    /// Menu name
    pub name: &'static str,
    /// The action associated with this menu.
    pub action: Action,
    /// The list of entries to display.
    pub entries: Vec<MenuEntry>,
    /// The targets for each menu entries, the last binding of a key wins.
    pub targets: Vec<(Key, MenuTarget)>,
    /// The direct actions without menu entries, the last binding of a key wins.
    pub shortcuts: Vec<(Key, Action)>,
    /// Whether the menu accept any char.
    pub char_stream: bool,
}

/// Target bound to a key in a menu.
pub open spec fn menu_lookup(menu: Menu, key: Key) -> Option<MenuTarget> {
    match lookup(menu.spec_targets(), key) {
        Some(t) => Some(t),
        None => match lookup(menu.spec_shortcuts(), key) {
            Some(a) => Some(MenuTarget::Action(a)),
            None => if menu.spec_char_stream() {
                match key {
                    Key::Char(c) => Some(MenuTarget::Action(Action::PushChar(c))),
                    Key::Backspace => Some(MenuTarget::Action(Action::PopChar)),
                    _ => None,
                }
            } else {
                None
            },
        },
    }
}

impl Menu {
    pub open spec fn spec_entries(&self) -> Seq<MenuEntry> {
        self.entries@
    }

    pub open spec fn spec_targets(&self) -> Seq<(Key, MenuTarget)> {
        self.targets@
    }

    pub open spec fn spec_shortcuts(&self) -> Seq<(Key, Action)> {
        self.shortcuts@
    }

    pub open spec fn spec_char_stream(&self) -> bool {
        self.char_stream
    }

    fn new(name: &'static str) -> (m: Self)
        ensures
            m.name == name,
            m.action == Action::NoAction,
            m.spec_entries().len() == 0,
            m.spec_targets().len() == 0,
            m.spec_shortcuts().len() == 0,
            !m.spec_char_stream(),
    {
        Self {
            name,
            action: Action::NoAction,
            entries: Vec::new(),
            targets: Vec::new(),
            shortcuts: Vec::new(),
            char_stream: false,
        }
    }

    /// The menu entries.
    pub fn entries(&self) -> (it: std::slice::Iter<'_, MenuEntry>)
        ensures
            vstd::std_specs::slice::into_iter_elts(it) == self.spec_entries(),
    {
        let it = self.entries.iter();
        proof {
            broadcast use vstd::std_specs::slice::axiom_spec_slice_iter;
            assert(self.entries@.as_ref().unref() =~= self.entries@);
        }
        it
    }

    fn find_target(&self, key: &Key) -> (r: Option<MenuTarget>)
        ensures
            r == lookup(self.spec_targets(), *key),
    {
        let mut i = self.targets.len();
        assert(self.targets@.take(i as int) =~= self.targets@);
        while i > 0
            invariant
                0 <= i <= self.targets.len(),
                lookup(self.targets@, *key) == lookup(self.targets@.take(i as int), *key),
            decreases i,
        {
            assert(self.targets@.take(i as int).drop_last() =~= self.targets@.take(i - 1));
            assert(self.targets@.take(i as int).last() == self.targets@[i - 1]);
            if self.targets[i - 1].0 == *key {
                return Some(self.targets[i - 1].1.clone());
            }
            i = i - 1;
        }
        None
    }

    /// Get the target
    pub fn map_key(&self, key: &Key) -> (r: Option<MenuTarget>)
        ensures
            r == menu_lookup(*self, *key),
    {
        match self.find_target(key) {
            Some(t) => Some(t),
            None => match find_binding(&self.shortcuts, key) {
                Some(a) => Some(MenuTarget::Action(a)),
                None => {
                    if self.char_stream {
                        match key {
                            Key::Char(c) => Some(MenuTarget::Action(Action::PushChar(*c))),
                            Key::Backspace => Some(MenuTarget::Action(Action::PopChar)),
                            _ => None,
                        }
                    } else {
                        None
                    }
                },
            },
        }
    }

    /// Get the target from an event.
    pub fn map_event(&self, evt: Event) -> (r: Option<MenuTarget>)
        ensures
            r == match evt {
                Event::Key(key) => menu_lookup(*self, key),
                _ => None,
            },
    {
        match evt {
            Event::Key(key) => self.map_key(&key),
            _ => None,
        }
    }
}

/// Bindings of a menu whose targets are sub-menus with an action of their own.
pub open spec fn menus_with_action(targets: Seq<(Key, MenuTarget)>) -> Seq<(Key, MenuTarget)>
    decreases targets.len(),
{
    if targets.len() == 0 {
        Seq::empty()
    } else {
        let rest = menus_with_action(targets.drop_last());
        match targets.last().1 {
            MenuTarget::Menu(m) if m.action != Action::NoAction => rest.push(targets.last()),
            _ => rest,
        }
    }
}

/// Bindings of a menu whose targets are actions.
pub open spec fn target_actions(targets: Seq<(Key, MenuTarget)>) -> Seq<(Key, Action)>
    decreases targets.len(),
{
    if targets.len() == 0 {
        Seq::empty()
    } else {
        let rest = target_actions(targets.drop_last());
        match targets.last().1 {
            MenuTarget::Action(a) => rest.push((targets.last().0, a)),
            _ => rest,
        }
    }
}

/// What the entries of a menu show: the name of each key and its label.
pub open spec fn entries_view(entries: Seq<MenuEntry>) -> Seq<(Seq<char>, Seq<char>)> {
    entries.map_values(|e: MenuEntry| (e.spec_key(), e.spec_label()@))
}

/// Builder of menus.
#[derive(Debug)]
pub struct MenuBuilder(Menu);

impl MenuBuilder {
    /// The menu under construction.
    pub closed spec fn spec_menu(&self) -> Menu {
        self.0
    }

    pub fn new(name: &'static str) -> (b: Self)
        ensures
            b.spec_menu().name == name,
            b.spec_menu().action == Action::NoAction,
            b.spec_menu().spec_entries().len() == 0,
            b.spec_menu().spec_targets().len() == 0,
            b.spec_menu().spec_shortcuts().len() == 0,
            !b.spec_menu().spec_char_stream(),
    {
        Self(Menu::new(name))
    }

    /// Add a target.
    pub fn with_target(self, key: Key, label: &'static str, target: MenuTarget) -> (b: Self)
        ensures
            b.spec_menu().name == self.spec_menu().name,
            b.spec_menu().action == self.spec_menu().action,
            b.spec_menu().spec_entries().len() == self.spec_menu().spec_entries().len() + 1,
            b.spec_menu().spec_entries().last().spec_key() == key_name_spec(key),
            b.spec_menu().spec_entries().last().spec_label() == label,
            b.spec_menu().spec_entries().drop_last() == self.spec_menu().spec_entries(),
            entries_view(b.spec_menu().spec_entries()) == entries_view(self.spec_menu().spec_entries()).push((key_name_spec(key), label@)),
            b.spec_menu().spec_targets() == self.spec_menu().spec_targets().push((key, target)),
            b.spec_menu().spec_shortcuts() == self.spec_menu().spec_shortcuts(),
            b.spec_menu().spec_char_stream() == self.spec_menu().spec_char_stream(),
    {
        let mut menu = self.0;
        menu.entries.push(MenuEntry::new(key, label));
        menu.targets.push((key, target));
        assert(menu.entries@.drop_last() =~= self.0.entries@);
        assert(entries_view(menu.entries@) =~= entries_view(self.0.entries@).push((key_name_spec(key), label@)));
        Self(menu)
    }

    /// Add an action.
    pub fn with_action(self, key: Key, label: &'static str, action: Action) -> (b: Self)
        ensures
            b.spec_menu().name == self.spec_menu().name,
            b.spec_menu().action == self.spec_menu().action,
            b.spec_menu().spec_entries().len() == self.spec_menu().spec_entries().len() + 1,
            entries_view(b.spec_menu().spec_entries()) == entries_view(self.spec_menu().spec_entries()).push((key_name_spec(key), label@)),
            b.spec_menu().spec_targets() == self.spec_menu().spec_targets().push((key, MenuTarget::Action(action))),
            b.spec_menu().spec_shortcuts() == self.spec_menu().spec_shortcuts(),
            b.spec_menu().spec_char_stream() == self.spec_menu().spec_char_stream(),
    {
        self.with_target(key, label, MenuTarget::Action(action))
    }

    /// Add a sub-menu.
    pub fn with_menu(self, key: Key, menu: Rc<Menu>) -> (b: Self)
        ensures
            b.spec_menu().name == self.spec_menu().name,
            b.spec_menu().action == self.spec_menu().action,
            b.spec_menu().spec_entries().len() == self.spec_menu().spec_entries().len() + 1,
            entries_view(b.spec_menu().spec_entries()) == entries_view(self.spec_menu().spec_entries()).push((key_name_spec(key), menu.name@)),
            b.spec_menu().spec_targets() == self.spec_menu().spec_targets().push((key, MenuTarget::Menu(menu))),
            b.spec_menu().spec_shortcuts() == self.spec_menu().spec_shortcuts(),
            b.spec_menu().spec_char_stream() == self.spec_menu().spec_char_stream(),
    {
        let name = menu.name;
        self.with_target(key, name, MenuTarget::Menu(menu))
    }

    /// Add a sub-menu and import all its entries as shortcuts.
    pub fn with_imported_entries(self, key: Key, menu: Rc<Menu>) -> (b: Self)
        ensures
            b.spec_menu().name == self.spec_menu().name,
            b.spec_menu().action == self.spec_menu().action,
            entries_view(b.spec_menu().spec_entries()) == entries_view(self.spec_menu().spec_entries()).push((key_name_spec(key), menu.name@)),
            b.spec_menu().spec_targets() == (self.spec_menu().spec_targets() + menus_with_action(
                menu.spec_targets(),
            )).push((key, MenuTarget::Menu(menu))),
            b.spec_menu().spec_shortcuts() == self.spec_menu().spec_shortcuts() + target_actions(
                menu.spec_targets(),
            ),
            b.spec_menu().spec_char_stream() == self.spec_menu().spec_char_stream(),
    {
        let b = self.import_actions(&menu);
        b.with_menu(key, menu)
    }

    /// Add a shortcut.
    ///
    /// The shortcut is not visible in the menu.
    pub fn with_shortcut(self, key: Key, action: Action) -> (b: Self)
        ensures
            b.spec_menu().name == self.spec_menu().name,
            b.spec_menu().action == self.spec_menu().action,
            b.spec_menu().spec_entries() == self.spec_menu().spec_entries(),
            b.spec_menu().spec_targets() == self.spec_menu().spec_targets(),
            b.spec_menu().spec_shortcuts() == self.spec_menu().spec_shortcuts().push((key, action)),
            b.spec_menu().spec_char_stream() == self.spec_menu().spec_char_stream(),
    {
        let mut menu = self.0;
        menu.shortcuts.push((key, action));
        Self(menu)
    }

    /// Import submenu actions as shortcuts.
    pub fn import_actions(self, other: &Menu) -> (b: Self)
        ensures
            b.spec_menu().name == self.spec_menu().name,
            b.spec_menu().action == self.spec_menu().action,
            b.spec_menu().spec_entries() == self.spec_menu().spec_entries(),
            b.spec_menu().spec_targets() == self.spec_menu().spec_targets() + menus_with_action(
                other.spec_targets(),
            ),
            b.spec_menu().spec_shortcuts() == self.spec_menu().spec_shortcuts() + target_actions(
                other.spec_targets(),
            ),
            b.spec_menu().spec_char_stream() == self.spec_menu().spec_char_stream(),
    {
        let mut menu = self.0;
        let ghost t0 = menu.targets@;
        let ghost s0 = menu.shortcuts@;
        let mut i: usize = 0;
        while i < other.targets.len()
            invariant
                0 <= i <= other.targets.len(),
                menu.name == self.0.name,
                menu.action == self.0.action,
                menu.entries@ == self.0.entries@,
                menu.char_stream == self.0.char_stream,
                menu.targets@ == t0 + menus_with_action(other.targets@.take(i as int)),
                menu.shortcuts@ == s0 + target_actions(other.targets@.take(i as int)),
            decreases other.targets.len() - i,
        {
            assert(other.targets@.take(i + 1).drop_last() =~= other.targets@.take(i as int));
            assert(other.targets@.take(i + 1).last() == other.targets@[i as int]);
            let key = other.targets[i].0;
            match &other.targets[i].1 {
                MenuTarget::Menu(sub) => {
                    if sub.action.is_some() {
                        menu.targets.push((key, other.targets[i].1.clone()));
                    }
                },
                MenuTarget::Action(action) => {
                    menu.shortcuts.push((key, *action));
                },
            }
            i = i + 1;
        }
        assert(other.targets@.take(other.targets.len() as int) =~= other.targets@);
        Self(menu)
    }

    /// Import menu shortcuts.
    pub fn import_shortcuts(self, other: &Menu) -> (b: Self)
        ensures
            b.spec_menu().name == self.spec_menu().name,
            b.spec_menu().action == self.spec_menu().action,
            b.spec_menu().spec_entries() == self.spec_menu().spec_entries(),
            b.spec_menu().spec_targets() == self.spec_menu().spec_targets(),
            b.spec_menu().spec_shortcuts() == self.spec_menu().spec_shortcuts() + other.spec_shortcuts(),
            b.spec_menu().spec_char_stream() == self.spec_menu().spec_char_stream(),
    {
        let mut menu = self.0;
        let ghost s0 = menu.shortcuts@;
        let mut i: usize = 0;
        while i < other.shortcuts.len()
            invariant
                0 <= i <= other.shortcuts.len(),
                menu.name == self.0.name,
                menu.action == self.0.action,
                menu.entries@ == self.0.entries@,
                menu.targets@ == self.0.targets@,
                menu.char_stream == self.0.char_stream,
                menu.shortcuts@ == s0 + other.shortcuts@.take(i as int),
            decreases other.shortcuts.len() - i,
        {
            menu.shortcuts.push(other.shortcuts[i]);
            assert(other.shortcuts@.take(i + 1) =~= other.shortcuts@.take(i as int).push(other.shortcuts@[i as int]));
            i = i + 1;
        }
        assert(other.shortcuts@.take(other.shortcuts.len() as int) =~= other.shortcuts@);
        Self(menu)
    }

    /// Accept any char.
    pub fn enable_char_stream(self) -> (b: Self)
        ensures
            b.spec_menu().name == self.spec_menu().name,
            b.spec_menu().action == self.spec_menu().action,
            b.spec_menu().spec_entries() == self.spec_menu().spec_entries(),
            b.spec_menu().spec_targets() == self.spec_menu().spec_targets(),
            b.spec_menu().spec_shortcuts() == self.spec_menu().spec_shortcuts(),
            b.spec_menu().spec_char_stream(),
    {
        let mut menu = self.0;
        menu.char_stream = true;
        Self(menu)
    }

    /// Associate an interaction
    pub fn with_self_action(self, action: Action) -> (b: Self)
        ensures
            b.spec_menu().name == self.spec_menu().name,
            b.spec_menu().action == action,
            b.spec_menu().spec_entries() == self.spec_menu().spec_entries(),
            b.spec_menu().spec_targets() == self.spec_menu().spec_targets(),
            b.spec_menu().spec_shortcuts() == self.spec_menu().spec_shortcuts(),
            b.spec_menu().spec_char_stream() == self.spec_menu().spec_char_stream(),
    {
        let mut menu = self.0;
        menu.action = action;
        Self(menu)
    }

    /// Build the menu
    pub fn build(self) -> (m: Rc<Menu>)
        ensures
            *m == self.spec_menu(),
    {
        let Self(menu) = self;
        Rc::new(menu)
    }

    /// Duplicate a menu with a different self actions.
    pub fn duplicate(name: &'static str, menu: &Menu, action: Action) -> (m: Rc<Menu>)
        ensures
            m.name == name,
            m.action == action,
            m.spec_entries().len() == 0,
            m.spec_targets() == menus_with_action(menu.spec_targets()),
            m.spec_shortcuts() == target_actions(menu.spec_targets()) + menu.spec_shortcuts(),
            !m.spec_char_stream(),
    {
        let b = MenuBuilder::new(name).import_actions(menu).import_shortcuts(menu).with_self_action(
            action,
        );
        assert(Seq::<(Key, MenuTarget)>::empty() + menus_with_action(menu.spec_targets())
            =~= menus_with_action(menu.spec_targets()));
        assert(Seq::<(Key, Action)>::empty() + target_actions(menu.spec_targets())
            =~= target_actions(menu.spec_targets()));
        b.build()
    }
}


/// Bindings of keys to actions, as the targets of a menu.
pub open spec fn bound_actions(bindings: Seq<(Key, Action)>) -> Seq<(Key, MenuTarget)> {
    bindings.map_values(|b: (Key, Action)| (b.0, MenuTarget::Action(b.1)))
}

/// Entries shown for bindings of keys to labels.
pub open spec fn shown(entries: Seq<(Key, &'static str)>) -> Seq<(Seq<char>, Seq<char>)> {
    entries.map_values(|e: (Key, &'static str)| (key_name_spec(e.0), e.1@))
}

/// A menu whose targets are all actions.
pub open spec fn action_menu(m: Menu, name: &'static str, action: Action, targets: Seq<(Key, Action)>,
    labels: Seq<(Key, &'static str)>, shortcuts: Seq<(Key, Action)>) -> bool
{
    &&& m.name == name
    &&& m.action == action
    &&& !m.spec_char_stream()
    &&& m.spec_targets() == bound_actions(targets)
    &&& entries_view(m.spec_entries()) == shown(labels)
    &&& m.spec_shortcuts() == shortcuts
}

/// The target at `i` is a sub-menu bound to `key`.
pub open spec fn menu_target(targets: Seq<(Key, MenuTarget)>, i: int, key: Key) -> Option<Menu> {
    if 0 <= i < targets.len() && targets[i].0 == key {
        match targets[i].1 {
            MenuTarget::Menu(sub) => Some(*sub),
            _ => None,
        }
    } else {
        None
    }
}

/// Going back to the previous pane with Esc.
pub open spec fn esc_back() -> Seq<(Key, Action)> {
    seq![(Key::Esc, Action::SwitchBack)]
}

/// Actions of the help menu.
pub open spec fn help_actions() -> Seq<(Key, Action)> {
    seq![(Key::Char('?'), Action::SwitchToHelp), (Key::Char('a'), Action::SwitchToAbout), (Key::Char('q'), Action::Quit)]
}

/// Actions of the edit menu.
pub open spec fn edit_actions() -> Seq<(Key, Action)> {
    seq![(Key::Char('+'), Action::DivideTimeout(2)), (Key::Char('-'), Action::MultiplyTimeout(2))]
}

/// Actions of the navigation menu.
pub open spec fn nav_actions() -> Seq<(Key, Action)> {
    seq![
        (Key::Up, Action::ScrollLineUp),
        (Key::Down, Action::ScrollLineDown),
        (Key::Left, Action::ScrollLeft),
        (Key::Right, Action::ScrollRight),
        (Key::PageUp, Action::ScrollPageUp),
        (Key::PageDown, Action::ScrollPageDown),
        (Key::BackTab, Action::ScrollPageLeft),
        (Key::Char('\t'), Action::ScrollPageRight),
        (Key::CtrlHome, Action::GotoTableTop),
        (Key::CtrlEnd, Action::GotoTableBottom),
        (Key::Home, Action::GotoTableLeft),
        (Key::End, Action::GotoTableRight),
    ]
}

/// Labels of the navigation menu.
pub open spec fn nav_labels() -> Seq<(Key, &'static str)> {
    seq![
        (Key::Up, "Previous line"),
        (Key::Down, "Next line"),
        (Key::Left, "Scroll left"),
        (Key::Right, "Scroll right"),
        (Key::PageUp, "Page Up"),
        (Key::PageDown, "Page Down"),
        (Key::BackTab, "Page Left"),
        (Key::Char('\t'), "Page Right"),
        (Key::CtrlHome, "Table Top"),
        (Key::CtrlEnd, "Table Bottom"),
        (Key::Home, "Table Left"),
        (Key::End, "Table Right"),
    ]
}

/// Actions of the search menu, after its incremental search.
pub open spec fn search_actions() -> Seq<(Key, Action)> {
    seq![(Key::Ctrl('c'), Action::ClearMarks), (Key::Char('N'), Action::SelectPrevious), (Key::Char('n'), Action::SelectNext)]
}

/// Actions of the filter menu.
pub open spec fn filter_actions() -> Seq<(Key, Action)> {
    seq![
        (Key::Char('n'), Action::FilterNone),
        (Key::Char('u'), Action::FilterUsers),
        (Key::Char('a'), Action::FilterActive),
        (Key::Char('m'), Action::FilterCurrentUser),
    ]
}

/// Actions of the select menu, after its details.
pub open spec fn select_actions() -> Seq<(Key, Action)> {
    seq![
        (Key::Char(' '), Action::ToggleMarks),
        (Key::Ctrl('c'), Action::ClearMarks),
        (Key::Char('s'), Action::ChangeScope),
        (Key::Char('r'), Action::SelectRootPid),
        (Key::Char('R'), Action::UnselectRootPid),
        (Key::Char('p'), Action::SelectParent),
    ]
}

/// The help menu.
pub open spec fn is_help_menu(m: Menu) -> bool {
    action_menu(m, "Help", Action::NoAction, help_actions(),
        seq![(Key::Char('?'), "Help"), (Key::Char('a'), "About"), (Key::Char('q'), "Quit")], esc_back())
}

/// The edit menu.
pub open spec fn is_edit_menu(m: Menu) -> bool {
    action_menu(m, "Edit", Action::NoAction, edit_actions(),
        seq![(Key::Char('+'), "Faster"), (Key::Char('-'), "Slower")], esc_back())
}

/// The navigation menu.
pub open spec fn is_nav_menu(m: Menu) -> bool {
    action_menu(m, "Navigate", Action::NoAction, nav_actions(), nav_labels(), esc_back())
}

/// A pane of process data: the navigation keys, and an action of its own.
pub open spec fn is_data_menu(m: Menu, name: &'static str, action: Action) -> bool {
    action_menu(m, name, action, Seq::empty(), Seq::empty(), nav_actions() + esc_back())
}

/// The details menu: the panes of process data, and navigation.
pub open spec fn is_details_menu(m: Menu) -> bool {
    let t = m.spec_targets();
    &&& m.name == "Details"
    &&& m.action == Action::SwitchToDetails
    &&& !m.spec_char_stream()
    &&& t.len() == 4
    &&& menu_target(t, 0, Key::Char('e')) matches Some(e) && is_data_menu(e, "Environment", Action::SwitchToEnvironment)
    &&& menu_target(t, 1, Key::Char('f')) matches Some(f) && is_data_menu(f, "Files", Action::SwitchToFiles)
    &&& menu_target(t, 2, Key::Char('l')) matches Some(l) && is_data_menu(l, "Limits", Action::SwitchToLimits)
    &&& menu_target(t, 3, Key::Char('m')) matches Some(p) && is_data_menu(p, "Maps", Action::SwitchToMaps)
    &&& entries_view(m.spec_entries()) == shown(seq![
        (Key::Char('e'), "Environment"), (Key::Char('f'), "Files"), (Key::Char('l'), "Limits"), (Key::Char('m'), "Maps")])
    &&& m.spec_shortcuts() == nav_actions() + esc_back()
}

/// The search menu.
pub open spec fn is_search_menu(m: Menu) -> bool {
    let t = m.spec_targets();
    &&& m.name == "Search"
    &&& m.action == Action::NoAction
    &&& !m.spec_char_stream()
    &&& t.len() == 4
    &&& menu_target(t, 0, Key::Char('/')) matches Some(i) && i.spec_char_stream() && is_isearch_core(i)
    &&& t.skip(1) == bound_actions(search_actions())
    &&& entries_view(m.spec_entries()) == shown(seq![
        (Key::Char('/'), "Incremental Search"), (Key::Ctrl('c'), "Clear"), (Key::Char('N'), "Previous Match"),
        (Key::Char('n'), "Next Match")])
    &&& m.spec_shortcuts() == esc_back()
}

/// The incremental search menu, apart from accepting any character.
pub open spec fn is_isearch_core(m: Menu) -> bool {
    &&& m.name == "Incremental Search"
    &&& m.action == Action::SearchEnter
    &&& m.spec_targets() == Seq::<(Key, MenuTarget)>::empty()
    &&& entries_view(m.spec_entries()) == Seq::<(Seq<char>, Seq<char>)>::empty()
    &&& m.spec_shortcuts() == seq![
        (Key::Char('\n'), Action::SearchExit),
        (Key::Ctrl('n'), Action::SelectNext),
        (Key::Ctrl('N'), Action::SelectPrevious),
        (Key::Ctrl('c'), Action::SearchCancel),
    ]
}

/// The filter menu.
pub open spec fn is_filter_menu(m: Menu) -> bool {
    action_menu(m, "Filters", Action::NoAction, filter_actions(),
        seq![(Key::Char('n'), "None"), (Key::Char('u'), "Users"), (Key::Char('a'), "Active"), (Key::Char('m'), "Current User")],
        esc_back())
}

/// The select menu.
pub open spec fn is_select_menu(m: Menu) -> bool {
    let t = m.spec_targets();
    &&& m.name == "Select"
    &&& m.action == Action::NoAction
    &&& !m.spec_char_stream()
    &&& t.len() == 7
    &&& menu_target(t, 0, Key::Char('\n')) matches Some(d) && is_details_menu(d)
    &&& t.skip(1) == bound_actions(select_actions())
    &&& entries_view(m.spec_entries()) == shown(seq![
        (Key::Char('\n'), "Details"), (Key::Char(' '), "Mark"), (Key::Ctrl('c'), "Clear"), (Key::Char('s'), "Scope"),
        (Key::Char('r'), "Root"), (Key::Char('R'), "Unselect Root"), (Key::Char('p'), "Parent")])
    &&& m.spec_shortcuts() == esc_back()
}

/// The main menu: the sub-menus on function keys, with the actions of the
/// edit, navigation, search and select menus, and their sub-menus that
/// have an action, at hand; `?` shows the help, `q` and Esc quit.
pub open spec fn is_main_menu(m: Menu) -> bool {
    let t = m.spec_targets();
    &&& m.name == "Main"
    &&& m.action == Action::NoAction
    &&& !m.spec_char_stream()
    &&& t.len() == 8
    &&& menu_target(t, 0, Key::F(1)) matches Some(h) && is_help_menu(h)
    &&& menu_target(t, 1, Key::F(2)) matches Some(e) && is_edit_menu(e)
    &&& menu_target(t, 2, Key::F(3)) matches Some(n) && is_nav_menu(n)
    &&& menu_target(t, 3, Key::Char('/')) matches Some(i) && i.spec_char_stream() && is_isearch_core(i)
    &&& menu_target(t, 4, Key::F(5)) matches Some(s) && is_search_menu(s)
    &&& menu_target(t, 5, Key::Char('\n')) matches Some(d) && is_details_menu(d)
    &&& menu_target(t, 6, Key::F(6)) matches Some(s) && is_select_menu(s)
    &&& menu_target(t, 7, Key::F(7)) matches Some(f) && is_filter_menu(f)
    &&& entries_view(m.spec_entries()) == shown(seq![
        (Key::F(1), "Help"), (Key::F(2), "Edit"), (Key::F(3), "Navigate"), (Key::F(5), "Search"),
        (Key::F(6), "Select"), (Key::F(7), "Filters")])
    &&& m.spec_shortcuts() == edit_actions() + nav_actions() + search_actions() + select_actions() + seq![
        (Key::Char('?'), Action::SwitchToHelp), (Key::Char('q'), Action::Quit), (Key::Esc, Action::Quit)]
}

/// Bindings to actions hold no sub-menu, and give back their actions.
proof fn lemma_bound_actions(bindings: Seq<(Key, Action)>)
    ensures
        menus_with_action(bound_actions(bindings)) == Seq::<(Key, MenuTarget)>::empty(),
        target_actions(bound_actions(bindings)) == bindings,
    decreases bindings.len(),
{
    if bindings.len() > 0 {
        lemma_bound_actions(bindings.drop_last());
        assert(bound_actions(bindings).drop_last() =~= bound_actions(bindings.drop_last()));
        assert(bindings.drop_last().push(bindings.last()) =~= bindings);
    } else {
        assert(bound_actions(bindings) =~= Seq::<(Key, MenuTarget)>::empty());
    }
}

/// Sub-menus with an action and actions of a concatenation of targets.
proof fn lemma_targets_concat(a: Seq<(Key, MenuTarget)>, b: Seq<(Key, MenuTarget)>)
    ensures
        menus_with_action(a + b) == menus_with_action(a) + menus_with_action(b),
        target_actions(a + b) == target_actions(a) + target_actions(b),
    decreases b.len(),
{
    if b.len() == 0 {
        assert(a + b =~= a);
        assert(menus_with_action(a) + menus_with_action(b) =~= menus_with_action(a));
        assert(target_actions(a) + target_actions(b) =~= target_actions(a));
    } else {
        lemma_targets_concat(a, b.drop_last());
        assert((a + b).drop_last() =~= a + b.drop_last());
        assert((a + b).last() == b.last());
        let m1 = menus_with_action(a) + menus_with_action(b.drop_last());
        let t1 = target_actions(a) + target_actions(b.drop_last());
        match b.last().1 {
            MenuTarget::Menu(sub) => {
                assert(m1.push(b.last()) =~= menus_with_action(a) + menus_with_action(b.drop_last()).push(b.last()));
                assert(t1 =~= target_actions(a) + target_actions(b));
            },
            MenuTarget::Action(act) => {
                assert(t1.push((b.last().0, act)) =~= target_actions(a) + target_actions(b.drop_last()).push((b.last().0, act)));
                assert(m1 =~= menus_with_action(a) + menus_with_action(b));
            },
        }
    }
}

/// Return the menu
pub fn menu() -> (m: Rc<Menu>)
    ensures
        is_main_menu(*m),
{
    let menu_help = MenuBuilder::new("Help")
        .with_action(Key::Char('?'), "Help", Action::SwitchToHelp)
        .with_action(Key::Char('a'), "About", Action::SwitchToAbout)
        .with_action(Key::Char('q'), "Quit", Action::Quit)
        .with_shortcut(Key::Esc, Action::SwitchBack)
        .build();
    proof {
        assert(menu_help.spec_targets() =~= bound_actions(help_actions()));
        assert(entries_view(menu_help.spec_entries()) =~= shown(seq![(Key::Char('?'), "Help"), (Key::Char('a'), "About"), (Key::Char('q'), "Quit")]));
        assert(menu_help.spec_shortcuts() =~= esc_back());
        assert(is_help_menu(*menu_help));
    }
    let menu_edit = MenuBuilder::new("Edit")
        .with_action(Key::Char('+'), "Faster", Action::DivideTimeout(2))
        .with_action(Key::Char('-'), "Slower", Action::MultiplyTimeout(2))
        .with_shortcut(Key::Esc, Action::SwitchBack)
                .build();
    proof {
        assert(menu_edit.spec_targets() =~= bound_actions(edit_actions()));
        assert(entries_view(menu_edit.spec_entries()) =~= shown(seq![(Key::Char('+'), "Faster"), (Key::Char('-'), "Slower")]));
        assert(menu_edit.spec_shortcuts() =~= esc_back());
        assert(is_edit_menu(*menu_edit));
        lemma_bound_actions(edit_actions());
    }
    let menu_nav = MenuBuilder::new("Navigate")
        .with_action(Key::Up, "Previous line", Action::ScrollLineUp)
        .with_action(Key::Down, "Next line", Action::ScrollLineDown)
        .with_action(Key::Left, "Scroll left", Action::ScrollLeft)
        .with_action(Key::Right, "Scroll right", Action::ScrollRight)
        .with_action(Key::PageUp, "Page Up", Action::ScrollPageUp)
        .with_action(Key::PageDown, "Page Down", Action::ScrollPageDown)
        .with_action(Key::BackTab, "Page Left", Action::ScrollPageLeft)
        .with_action(Key::Char('\t'), "Page Right", Action::ScrollPageRight)
        .with_action(Key::CtrlHome, "Table Top", Action::GotoTableTop)
        .with_action(Key::CtrlEnd, "Table Bottom", Action::GotoTableBottom)
        .with_action(Key::Home, "Table Left", Action::GotoTableLeft)
        .with_action(Key::End, "Table Right", Action::GotoTableRight)
        .with_shortcut(Key::Esc, Action::SwitchBack)
        .build();
    proof {
        assert(menu_nav.spec_targets() =~= bound_actions(nav_actions()));
        assert(entries_view(menu_nav.spec_entries()) =~= shown(nav_labels()));
        assert(menu_nav.spec_shortcuts() =~= esc_back());
        assert(is_nav_menu(*menu_nav));
        lemma_bound_actions(nav_actions());
    }
    let menu_process_env =
        MenuBuilder::duplicate("Environment", &menu_nav, Action::SwitchToEnvironment);
    let menu_process_files = MenuBuilder::duplicate("Files", &menu_nav, Action::SwitchToFiles);
    let menu_process_limits = MenuBuilder::duplicate("Limits", &menu_nav, Action::SwitchToLimits);
    let menu_process_maps = MenuBuilder::duplicate("Maps", &menu_nav, Action::SwitchToMaps);
    proof {
        assert(bound_actions(Seq::<(Key, Action)>::empty()) =~= Seq::<(Key, MenuTarget)>::empty());
        assert(shown(Seq::<(Key, &'static str)>::empty()) =~= Seq::<(Seq<char>, Seq<char>)>::empty());
        assert(entries_view(Seq::<MenuEntry>::empty()) =~= Seq::<(Seq<char>, Seq<char>)>::empty());
        assert(entries_view(menu_process_env.spec_entries()) =~= Seq::<(Seq<char>, Seq<char>)>::empty());
        assert(menu_process_env.spec_targets() =~= bound_actions(Seq::<(Key, Action)>::empty()));
        assert(is_data_menu(*menu_process_env, "Environment", Action::SwitchToEnvironment));
        assert(entries_view(menu_process_files.spec_entries()) =~= Seq::<(Seq<char>, Seq<char>)>::empty());
        assert(menu_process_files.spec_targets() =~= bound_actions(Seq::<(Key, Action)>::empty()));
        assert(is_data_menu(*menu_process_files, "Files", Action::SwitchToFiles));
        assert(entries_view(menu_process_limits.spec_entries()) =~= Seq::<(Seq<char>, Seq<char>)>::empty());
        assert(menu_process_limits.spec_targets() =~= bound_actions(Seq::<(Key, Action)>::empty()));
        assert(is_data_menu(*menu_process_limits, "Limits", Action::SwitchToLimits));
        assert(entries_view(menu_process_maps.spec_entries()) =~= Seq::<(Seq<char>, Seq<char>)>::empty());
        assert(menu_process_maps.spec_targets() =~= bound_actions(Seq::<(Key, Action)>::empty()));
        assert(is_data_menu(*menu_process_maps, "Maps", Action::SwitchToMaps));
    }
    let menu_details = MenuBuilder::new("Details")
        .with_menu(Key::Char('e'), menu_process_env)
        .with_menu(Key::Char('f'), menu_process_files)
        .with_menu(Key::Char('l'), menu_process_limits)
        .with_menu(Key::Char('m'), menu_process_maps)
        .import_actions(&menu_nav)
        .import_shortcuts(&menu_nav)
        .with_self_action(Action::SwitchToDetails)
        .build();
    proof {
        assert(menu_details.spec_targets().len() == 4);
        assert(entries_view(menu_details.spec_entries()) =~= shown(seq![
            (Key::Char('e'), "Environment"), (Key::Char('f'), "Files"), (Key::Char('l'), "Limits"), (Key::Char('m'), "Maps")]));
        assert(menu_details.spec_shortcuts() =~= nav_actions() + esc_back());
        assert(is_details_menu(*menu_details));
    }
    let menu_isearch = MenuBuilder::new("Incremental Search")
        .enable_char_stream()
        .with_shortcut(Key::Char('\n'), Action::SearchExit)
        .with_shortcut(Key::Ctrl('n'), Action::SelectNext)
        .with_shortcut(Key::Ctrl('N'), Action::SelectPrevious)
        .with_shortcut(Key::Ctrl('c'), Action::SearchCancel)
        .with_self_action(Action::SearchEnter)
        .build();
    proof {
        assert(menu_isearch.spec_shortcuts() =~= seq![
            (Key::Char('\n'), Action::SearchExit),
            (Key::Ctrl('n'), Action::SelectNext),
            (Key::Ctrl('N'), Action::SelectPrevious),
            (Key::Ctrl('c'), Action::SearchCancel),
        ]);
        assert(menu_isearch.spec_targets() =~= Seq::<(Key, MenuTarget)>::empty());
        assert(entries_view(menu_isearch.spec_entries()) =~= Seq::<(Seq<char>, Seq<char>)>::empty());
        assert(is_isearch_core(*menu_isearch));
    }
    let menu_search = MenuBuilder::new("Search")
        .with_menu(Key::Char('/'), menu_isearch)
        .with_action(Key::Ctrl('c'), "Clear", Action::ClearMarks)
        .with_action(
            Key::Char('N'),
            "Previous Match",
            Action::SelectPrevious,
        )
        .with_action(Key::Char('n'), "Next Match", Action::SelectNext)
        .with_shortcut(Key::Esc, Action::SwitchBack)
        .build();
    proof {
        assert(menu_search.spec_targets().skip(1) =~= bound_actions(search_actions()));
        assert(entries_view(menu_search.spec_entries()) =~= shown(seq![
            (Key::Char('/'), "Incremental Search"), (Key::Ctrl('c'), "Clear"), (Key::Char('N'), "Previous Match"),
            (Key::Char('n'), "Next Match")]));
        assert(menu_search.spec_shortcuts() =~= esc_back());
        assert(is_search_menu(*menu_search));
        assert(menu_search.spec_targets() =~= seq![(Key::Char('/'), MenuTarget::Menu(menu_isearch))] + bound_actions(search_actions()));
    }
    let menu_filter = MenuBuilder::new("Filters")
        .with_action(Key::Char('n'), "None", Action::FilterNone)
        .with_action(Key::Char('u'), "Users", Action::FilterUsers)
        .with_action(Key::Char('a'), "Active", Action::FilterActive)
        .with_action(
            Key::Char('m'),
            "Current User",
            Action::FilterCurrentUser,
        )
        .with_shortcut(Key::Esc, Action::SwitchBack)
        .build();
    proof {
        assert(menu_filter.spec_targets() =~= bound_actions(filter_actions()));
        assert(entries_view(menu_filter.spec_entries()) =~= shown(seq![(Key::Char('n'), "None"), (Key::Char('u'), "Users"), (Key::Char('a'), "Active"), (Key::Char('m'), "Current User")]));
        assert(menu_filter.spec_shortcuts() =~= esc_back());
        assert(is_filter_menu(*menu_filter));
    }
    let menu_select = MenuBuilder::new("Select")
        .with_menu(Key::Char('\n'), menu_details)
        .with_action(Key::Char(' '), "Mark", Action::ToggleMarks)
        .with_action(Key::Ctrl('c'), "Clear", Action::ClearMarks)
        .with_action(Key::Char('s'), "Scope", Action::ChangeScope)
        .with_action(Key::Char('r'), "Root", Action::SelectRootPid)
        .with_action(
            Key::Char('R'),
            "Unselect Root",
            Action::UnselectRootPid,
        )
        .with_action(Key::Char('p'), "Parent", Action::SelectParent)
        .with_shortcut(Key::Esc, Action::SwitchBack)
        .build();
    proof {
        assert(menu_select.spec_targets().skip(1) =~= bound_actions(select_actions()));
        assert(entries_view(menu_select.spec_entries()) =~= shown(seq![
            (Key::Char('\n'), "Details"), (Key::Char(' '), "Mark"), (Key::Ctrl('c'), "Clear"), (Key::Char('s'), "Scope"),
            (Key::Char('r'), "Root"), (Key::Char('R'), "Unselect Root"), (Key::Char('p'), "Parent")]));
        assert(menu_select.spec_shortcuts() =~= esc_back());
        assert(is_select_menu(*menu_select));
        assert(menu_select.spec_targets() =~= seq![(Key::Char('\n'), MenuTarget::Menu(menu_details))] + bound_actions(select_actions()));
    }
    let b0 = MenuBuilder::new("Main")
        .with_menu(Key::F(1), menu_help)
        .with_imported_entries(Key::F(2), menu_edit)
        .with_imported_entries(Key::F(3), menu_nav)
        .with_imported_entries(Key::F(5), menu_search)
        .with_imported_entries(Key::F(6), menu_select)
        .with_menu(Key::F(7), menu_filter);
    let b1 = b0.with_shortcut(Key::Char('?'), Action::SwitchToHelp);
    let b2 = b1.with_shortcut(Key::Char('q'), Action::Quit);
    let b3 = b2.with_shortcut(Key::Esc, Action::Quit);
    proof {
        let sel = seq![(Key::Char('\n'), MenuTarget::Menu(menu_details))];
        let srch = seq![(Key::Char('/'), MenuTarget::Menu(menu_isearch))];
        lemma_targets_concat(srch, bound_actions(search_actions()));
        lemma_targets_concat(sel, bound_actions(select_actions()));
        lemma_bound_actions(search_actions());
        lemma_bound_actions(select_actions());
        assert(menus_with_action(srch) =~= srch) by {
            assert(menus_with_action(srch.drop_last()) =~= Seq::<(Key, MenuTarget)>::empty()) by {
                assert(srch.drop_last() =~= Seq::<(Key, MenuTarget)>::empty());
            }
            assert(srch.drop_last().push(srch.last()) =~= srch);
            assert(menu_isearch.action == Action::SearchEnter);
            assert(srch.drop_last() =~= Seq::<(Key, MenuTarget)>::empty());
        }
        assert(target_actions(srch) =~= Seq::<(Key, Action)>::empty()) by {
            assert(target_actions(srch.drop_last()) =~= Seq::<(Key, Action)>::empty()) by {
                assert(srch.drop_last() =~= Seq::<(Key, MenuTarget)>::empty());
            }
            assert(srch.drop_last() =~= Seq::<(Key, MenuTarget)>::empty());
        }
        assert(menus_with_action(sel) =~= sel) by {
            assert(menus_with_action(sel.drop_last()) =~= Seq::<(Key, MenuTarget)>::empty()) by {
                assert(sel.drop_last() =~= Seq::<(Key, MenuTarget)>::empty());
            }
            assert(sel.drop_last().push(sel.last()) =~= sel);
            assert(menu_details.action == Action::SwitchToDetails);
            assert(sel.drop_last() =~= Seq::<(Key, MenuTarget)>::empty());
        }
        assert(target_actions(sel) =~= Seq::<(Key, Action)>::empty()) by {
            assert(target_actions(sel.drop_last()) =~= Seq::<(Key, Action)>::empty()) by {
                assert(sel.drop_last() =~= Seq::<(Key, MenuTarget)>::empty());
            }
            assert(sel.drop_last() =~= Seq::<(Key, MenuTarget)>::empty());
        }
        let m = b3.spec_menu();
        assert(m.spec_targets() =~= seq![
            (Key::F(1), MenuTarget::Menu(menu_help)),
            (Key::F(2), MenuTarget::Menu(menu_edit)),
            (Key::F(3), MenuTarget::Menu(menu_nav)),
            (Key::Char('/'), MenuTarget::Menu(menu_isearch)),
            (Key::F(5), MenuTarget::Menu(menu_search)),
            (Key::Char('\n'), MenuTarget::Menu(menu_details)),
            (Key::F(6), MenuTarget::Menu(menu_select)),
            (Key::F(7), MenuTarget::Menu(menu_filter)),
        ]);
        assert(entries_view(m.spec_entries()) =~= shown(seq![
            (Key::F(1), "Help"), (Key::F(2), "Edit"), (Key::F(3), "Navigate"), (Key::F(5), "Search"),
            (Key::F(6), "Select"), (Key::F(7), "Filters")]));
        assert(m.spec_shortcuts() =~= edit_actions() + nav_actions() + search_actions() + select_actions() + seq![
            (Key::Char('?'), Action::SwitchToHelp), (Key::Char('q'), Action::Quit), (Key::Esc, Action::Quit)]);
    }
    b3.build()
}

/// Search bar state
#[derive(Debug)]
pub enum SearchState {
    Incremental(Vec<char>),
    Fixed(String),
}

impl Default for SearchState {
    fn default() -> (s: Self)
        ensures
            s matches SearchState::Incremental(v) && v@.len() == 0,
    {
        SearchState::Incremental(Vec::new())
    }
}

/// Characters of the search pattern.
pub open spec fn state_chars(state: &SearchState) -> Seq<char> {
    match state {
        SearchState::Incremental(chars) => chars@,
        SearchState::Fixed(s) => s@,
    }
}

impl SearchState {
    /// The pattern as a string.
    pub fn to_string(&self) -> (s: String)
        ensures
            s@ == state_chars(self),
    {
        match self {
            Self::Incremental(chars) => string_from_chars(chars.as_slice()),
            Self::Fixed(s) => s.clone(),
        }
    }
}

/// Search action
#[derive(Clone, Copy, Debug, PartialEq, Eq, Structural)]
pub enum BookmarkAction {
    NoAction,
    Previous,
    /// Select next search occurrence or mark.
    Next,
    /// Invert the marks of the matched lines or the current selection.
    ToggleMarks,
}

impl Default for BookmarkAction {
    fn default() -> (a: Self)
        ensures
            a == BookmarkAction::NoAction,
    {
        BookmarkAction::NoAction
    }
}

/// Action to edit search bar
#[derive(Debug, Clone, Copy, PartialEq, Eq, Structural)]
pub enum SearchEdit {
    Push(char),
    Pop,
}

/// Search bar
#[derive(Debug)]
pub struct SearchBar {
    pub state: SearchState,
}

impl Default for SearchBar {
    fn default() -> (b: Self)
        ensures
            b.state matches SearchState::Incremental(v) && v@.len() == 0,
    {
        SearchBar { state: SearchState::default() }
    }
}

impl SearchBar {
    /// The state of the search.
    pub fn state(&self) -> (s: &SearchState)
        ensures
            *s == self.state,
    {
        &self.state
    }

    pub fn pattern(&self) -> (s: String)
        ensures
            s@ == state_chars(&self.state),
    {
        self.state.to_string()
    }

    /// Turn the fixed string search string into an incremental search.
    pub fn thaw(&mut self)
        ensures
            final(self).state is Incremental,
            state_chars(&final(self).state) == state_chars(&old(self).state),
            old(self).state is Incremental ==> final(self).state == old(self).state,
    {
        if let SearchState::Fixed(ref pattern) = self.state {
            let chars = str_chars(pattern.as_str());
            self.state = SearchState::Incremental(chars);
        }
    }

    /// Turn the incremental search string into a fixed string search.
    /// Return true if the pattern is not empty.
    pub fn freeze(&mut self) -> (b: bool)
        ensures
            final(self).state is Fixed,
            state_chars(&final(self).state) == state_chars(&old(self).state),
            b == (state_chars(&old(self).state).len() > 0),
    {
        match &self.state {
            SearchState::Incremental(_) => {
                let pattern = self.state.to_string();
                let empty = pattern.as_str().is_empty();
                self.state = SearchState::Fixed(pattern);
                !empty
            },
            SearchState::Fixed(pattern) => !pattern.as_str().is_empty(),
        }
    }

    /// Push a char on the incremental search string.
    pub fn push(&mut self, c: char)
        requires
            old(self).state is Incremental,
        ensures
            final(self).state is Incremental,
            state_chars(&final(self).state) == state_chars(&old(self).state).push(c),
    {
        match self.state {
            SearchState::Incremental(ref mut chars) => chars.push(c),
            _ => {},
        }
    }

    /// Pop a char from the incremental search string.
    pub fn pop(&mut self)
        requires
            old(self).state is Incremental,
        ensures
            final(self).state is Incremental,
            state_chars(&final(self).state) == if state_chars(&old(self).state).len() > 0 {
                state_chars(&old(self).state).drop_last()
            } else {
                state_chars(&old(self).state)
            },
    {
        match self.state {
            SearchState::Incremental(ref mut chars) => {
                let _ = chars.pop();
            },
            _ => {},
        }
    }
}

/// A line number and the process shown on that line.
#[derive(Clone, Copy, Debug, PartialEq, Eq, Structural)]
pub struct LinePid {
    pub lineno: usize,
    pub pid: i32,
}

/// Index of the first item with the pid.
pub open spec fn pid_index(v: Seq<LinePid>, pid: i32) -> Option<int>
    decreases v.len(),
{
    if v.len() == 0 {
        None
    } else {
        match pid_index(v.drop_last(), pid) {
            Some(i) => Some(i),
            None => if v.last().pid == pid { Some(v.len() - 1) } else { None },
        }
    }
}

/// Last item at or before a line.
pub open spec fn last_at_or_before(v: Seq<LinePid>, lineno: usize) -> Option<LinePid>
    decreases v.len(),
{
    if v.len() == 0 {
        None
    } else if v.last().lineno <= lineno {
        Some(v.last())
    } else {
        last_at_or_before(v.drop_last(), lineno)
    }
}

/// First item at or after a line.
pub open spec fn first_at_or_after(v: Seq<LinePid>, lineno: usize) -> Option<LinePid>
    decreases v.len(),
{
    if v.len() == 0 {
        None
    } else if v[0].lineno >= lineno {
        Some(v[0])
    } else {
        first_at_or_after(v.drop_first(), lineno)
    }
}

/// Item before a line in a ring: the one before the same pid, or the last
/// one at or before the line, or the last one.
pub open spec fn spec_previous_in(lp: LinePid, v: Seq<LinePid>) -> Option<LinePid> {
    let len = v.len() as int;
    match pid_index(v, lp.pid) {
        Some(index) => Some(v[(index + len - 1) % len]),
        None => if len > 0 {
            match last_at_or_before(v, lp.lineno) {
                Some(x) => Some(x),
                None => Some(v.last()),
            }
        } else {
            None
        },
    }
}

/// Item after a line in a ring: the one after the same pid, or the first
/// one at or after the line, or the first one.
pub open spec fn spec_next_in(lp: LinePid, v: Seq<LinePid>) -> Option<LinePid> {
    let len = v.len() as int;
    match pid_index(v, lp.pid) {
        Some(index) => Some(v[(index + len + 1) % len]),
        None => if len > 0 {
            match first_at_or_after(v, lp.lineno) {
                Some(x) => Some(x),
                None => Some(v[0]),
            }
        } else {
            None
        },
    }
}

proof fn lemma_pid_index(v: Seq<LinePid>, pid: i32)
    ensures
        pid_index(v, pid) matches Some(i) ==> 0 <= i < v.len() && v[i].pid == pid
            && forall|j: int| 0 <= j < i ==> v[j].pid != pid,
        pid_index(v, pid) is None ==> forall|j: int| 0 <= j < v.len() ==> v[j].pid != pid,
    decreases v.len(),
{
    if v.len() > 0 {
        lemma_pid_index(v.drop_last(), pid);
        assert forall|j: int| 0 <= j < v.len() - 1 implies v.drop_last()[j] == v[j] by {}
    }
}

impl LinePid {
    pub fn new(lineno: usize, pid: i32) -> (lp: Self)
        ensures
            lp.lineno == lineno,
            lp.pid == pid,
    {
        Self { lineno, pid }
    }

    fn pid_index_in(&self, v: &[LinePid]) -> (r: Option<usize>)
        ensures
            r matches Some(i) ==> pid_index(v@, self.pid) == Some(i as int),
            r is None ==> pid_index(v@, self.pid) is None,
    {
        proof { lemma_pid_index(v@, self.pid); }
        let mut i: usize = 0;
        while i < v.len()
            invariant
                0 <= i <= v.len(),
                forall|j: int| 0 <= j < i ==> v@[j].pid != self.pid,
                pid_index(v@, self.pid) matches Some(k) ==> 0 <= k < v@.len() && v@[k].pid == self.pid
                    && forall|j: int| 0 <= j < k ==> v@[j].pid != self.pid,
                pid_index(v@, self.pid) is None ==> forall|j: int| 0 <= j < v@.len() ==> v@[j].pid != self.pid,
            decreases v.len() - i,
        {
            if v[i].pid == self.pid {
                return Some(i);
            }
            i = i + 1;
        }
        None
    }

    fn last_at_or_before_in(&self, v: &[LinePid]) -> (r: Option<LinePid>)
        ensures
            r == last_at_or_before(v@, self.lineno),
    {
        let mut i = v.len();
        assert(v@.take(i as int) =~= v@);
        while i > 0
            invariant
                0 <= i <= v.len(),
                last_at_or_before(v@, self.lineno) == last_at_or_before(v@.take(i as int), self.lineno),
            decreases i,
        {
            assert(v@.take(i as int).drop_last() =~= v@.take(i - 1));
            assert(v@.take(i as int).last() == v@[i - 1]);
            if v[i - 1].lineno <= self.lineno {
                return Some(v[i - 1]);
            }
            i = i - 1;
        }
        None
    }

    fn first_at_or_after_in(&self, v: &[LinePid]) -> (r: Option<LinePid>)
        ensures
            r == first_at_or_after(v@, self.lineno),
    {
        let mut i: usize = 0;
        assert(v@.skip(0) =~= v@);
        while i < v.len()
            invariant
                0 <= i <= v.len(),
                first_at_or_after(v@, self.lineno) == first_at_or_after(v@.skip(i as int), self.lineno),
            decreases v.len() - i,
        {
            assert(v@.skip(i as int).drop_first() =~= v@.skip(i + 1));
            assert(v@.skip(i as int)[0] == v@[i as int]);
            if v[i].lineno >= self.lineno {
                return Some(v[i]);
            }
            i = i + 1;
        }
        None
    }

    /// Return the item before this PID in the list or before this line if PID is not found.
    pub fn previous_in(&self, v: &[LinePid]) -> (r: Option<LinePid>)
        ensures
            r == spec_previous_in(*self, v@),
    {
        let len = v.len();
        match self.pid_index_in(v) {
            Some(index) => {
                proof { lemma_pid_index(v@, self.pid); }
                let k = if index == 0 { len - 1 } else { index - 1 };
                assert(k as int == (index + len - 1) % (len as int)) by (nonlinear_arith)
                    requires
                        index < len,
                        k == if index == 0 { len - 1 } else { index - 1 },
                ;
                Some(v[k])
            },
            None => {
                if len > 0 {
                    match self.last_at_or_before_in(v) {
                        Some(x) => Some(x),
                        None => Some(v[len - 1]),
                    }
                } else {
                    None
                }
            },
        }
    }

    /// Return the item after this PID in the list or after this line if PID is not found.
    pub fn next_in(&self, v: &[LinePid]) -> (r: Option<LinePid>)
        ensures
            r == spec_next_in(*self, v@),
    {
        let len = v.len();
        match self.pid_index_in(v) {
            Some(index) => {
                proof { lemma_pid_index(v@, self.pid); }
                let k = if index + 1 == len { 0 } else { index + 1 };
                assert(k as int == (index + len + 1) % (len as int)) by (nonlinear_arith)
                    requires
                        index < len,
                        k == if index + 1 == len { 0 } else { index + 1 },
                ;
                Some(v[k])
            },
            None => {
                if len > 0 {
                    match self.first_at_or_after_in(v) {
                        Some(x) => Some(x),
                        None => Some(v[0]),
                    }
                } else {
                    None
                }
            },
        }
    }
}

/// Whether a name contains a pattern.
pub open spec fn contains_pattern(name: Seq<char>, pattern: Seq<char>) -> bool {
    find_from(name, pattern, 0) is Some
}

/// Pids of a list of lines.
pub open spec fn pid_set(v: Seq<LinePid>) -> Set<i32>
    decreases v.len(),
{
    if v.len() == 0 {
        Set::empty()
    } else {
        pid_set(v.drop_last()).insert(v.last().pid)
    }
}

/// Mark or unmark a pid.
pub open spec fn toggle(marks: Set<i32>, pid: i32) -> Set<i32> {
    if marks.contains(pid) { marks.remove(pid) } else { marks.insert(pid) }
}

/// Pids in exactly one of two sets.
pub open spec fn sym_diff(a: Set<i32>, b: Set<i32>) -> Set<i32> {
    a.difference(b).union(b.difference(a))
}

/// What a pass over the lines collects.
pub struct ScanState {
    /// Line of the selected pid.
    pub selected: Option<LinePid>,
    /// First line, recorded once a second line is seen.
    pub first: Option<LinePid>,
    /// Last line.
    pub last: Option<LinePid>,
    /// Lines matching the search pattern.
    pub matches: Seq<LinePid>,
    /// Marked lines.
    pub marked: Seq<LinePid>,
    /// Pids matching the search pattern.
    pub occurrences: Set<i32>,
}

/// Pass over the lines: lines with pid 0 are skipped.
pub open spec fn scan_lines(
    lines: Seq<(i32, &str)>,
    marks: Set<i32>,
    selected: Option<i32>,
    pattern: Option<Seq<char>>,
) -> ScanState
    decreases lines.len(),
{
    if lines.len() == 0 {
        ScanState {
            selected: None,
            first: None,
            last: None,
            matches: Seq::empty(),
            marked: Seq::empty(),
            occurrences: Set::empty(),
        }
    } else {
        let st = scan_lines(lines.drop_last(), marks, selected, pattern);
        let pid = lines.last().0;
        if pid == 0 {
            st
        } else {
            let lp = LinePid { lineno: (lines.len() - 1) as usize, pid };
            let matched = pattern matches Some(p) && contains_pattern(lines.last().1@, p);
            ScanState {
                selected: if selected == Some(pid) { Some(lp) } else { st.selected },
                first: if st.first is None { st.last } else { st.first },
                last: Some(lp),
                matches: if matched { st.matches.push(lp) } else { st.matches },
                marked: if marks.contains(pid) { st.marked.push(lp) } else { st.marked },
                occurrences: if matched { st.occurrences.insert(pid) } else { st.occurrences },
            }
        }
    }
}

/// Selection after the pass: kept if it matches, else the next match.
pub open spec fn selection_after_scan(st: ScanState) -> Option<LinePid> {
    match st.selected {
        Some(lp) => if !st.occurrences.is_empty() && st.occurrences.contains(lp.pid) {
            Some(lp)
        } else if st.matches.len() > 0 {
            spec_next_in(lp, st.matches)
        } else {
            Some(lp)
        },
        None => if st.matches.len() > 0 { Some(st.matches[0]) } else { None },
    }
}

/// Line selected after applying the pending bookmark action and the scroll.
pub open spec fn selection_after_action(
    action: BookmarkAction,
    scroll: Scroll,
    sel: Option<LinePid>,
    st: ScanState,
    ring: Seq<LinePid>,
) -> Option<LinePid> {
    match action {
        BookmarkAction::Previous => match sel {
            Some(lp) => match spec_previous_in(lp, ring) {
                Some(x) => Some(x),
                None => if ring.len() > 0 { Some(ring.last()) } else { None },
            },
            None => if ring.len() > 0 { Some(ring.last()) } else { None },
        },
        BookmarkAction::Next => match sel {
            Some(lp) => match spec_next_in(lp, ring) {
                Some(x) => Some(x),
                None => if ring.len() > 0 { Some(ring[0]) } else { None },
            },
            None => if ring.len() > 0 { Some(ring[0]) } else { None },
        },
        _ => match scroll {
            Scroll::FirstPosition => st.first,
            Scroll::LastPosition => st.last,
            _ => sel,
        },
    }
}

/// Marks after the pending action: toggled on the matches, or on the
/// selection when nothing matches.
pub open spec fn marks_after_action(
    action: BookmarkAction,
    sel: Option<LinePid>,
    st: ScanState,
) -> Set<i32> {
    let kept = pid_set(st.marked);
    if action == BookmarkAction::ToggleMarks {
        if st.occurrences.is_empty() {
            match sel {
                Some(lp) => toggle(kept, lp.pid),
                None => kept,
            }
        } else {
            sym_diff(kept, st.occurrences)
        }
    } else {
        kept
    }
}

/// Selection, search and marks of a process list.
#[derive(Debug)]
pub struct Bookmarks {
    /// PID at the line under the cursor.
    selected_pid: Option<i32>,
    /// Optional search pattern.
    search: Option<SearchBar>,
    /// PIDs marked in the selection.
    marks: BTreeSet<i32>,
    /// Action for next round.
    action: BookmarkAction,
}

impl Default for Bookmarks {
    fn default() -> (b: Self)
        ensures
            b.spec_selected_pid() is None,
            b.spec_search() is None,
            b.spec_marks() == Set::<i32>::empty(),
            b.spec_action() == BookmarkAction::NoAction,
    {
        Bookmarks {
            selected_pid: None,
            search: None,
            marks: BTreeSet::new(),
            action: BookmarkAction::NoAction,
        }
    }
}

/// Pattern of an optional search.
pub open spec fn search_chars(search: Option<SearchBar>) -> Option<Seq<char>> {
    match search {
        Some(s) => Some(state_chars(&s.state)),
        None => None,
    }
}

impl Bookmarks {
    pub closed spec fn spec_selected_pid(&self) -> Option<i32> {
        self.selected_pid
    }

    pub closed spec fn spec_search(&self) -> Option<SearchBar> {
        self.search
    }

    pub closed spec fn spec_marks(&self) -> Set<i32> {
        self.marks@
    }

    pub closed spec fn spec_action(&self) -> BookmarkAction {
        self.action
    }

    /// PID at the line under the cursor.
    pub fn selected_pid(&self) -> (p: &Option<i32>)
        ensures
            *p == self.spec_selected_pid(),
    {
        &self.selected_pid
    }

    /// Optional search pattern.
    pub fn search(&self) -> (s: &Option<SearchBar>)
        ensures
            *s == self.spec_search(),
    {
        &self.search
    }

    /// PIDs marked in the selection.
    pub fn marks(&self) -> (m: &BTreeSet<i32>)
        ensures
            m@ == self.spec_marks(),
    {
        &self.marks
    }

    /// Action for next round.
    pub fn action(&self) -> (a: &BookmarkAction)
        ensures
            *a == self.spec_action(),
    {
        &self.action
    }

    /// Set the action for next round.
    pub fn set_action(&mut self, action: BookmarkAction) -> (r: &mut Self)
        ensures
            *final(self) == *final(r),
            r.spec_action() == action,
            r.spec_selected_pid() == old(self).spec_selected_pid(),
            r.spec_search() == old(self).spec_search(),
            r.spec_marks() == old(self).spec_marks(),
    {
        self.action = action;
        self
    }

    /// Check if PID is marked.
    pub fn is_marked(&self, pid: i32) -> (b: bool)
        ensures
            b == self.spec_marks().contains(pid),
    {
        self.marks.contains(&pid)
    }

    /// Clear marks
    pub fn clear_marks(&mut self)
        ensures
            final(self).spec_marks() == Set::<i32>::empty(),
            final(self).spec_selected_pid() == old(self).spec_selected_pid(),
            final(self).spec_search() == old(self).spec_search(),
            final(self).spec_action() == old(self).spec_action(),
    {
        self.marks.clear();
    }

    /// Start an incremental search.
    pub fn incremental_search(&mut self)
        ensures
            final(self).spec_search() matches Some(s) && s.state is Incremental,
            search_chars(final(self).spec_search()) == match search_chars(old(self).spec_search()) {
                Some(p) => Some(p),
                None => Some(Seq::<char>::empty()),
            },
            final(self).spec_selected_pid() == old(self).spec_selected_pid(),
            final(self).spec_marks() == old(self).spec_marks(),
            final(self).spec_action() == old(self).spec_action(),
    {
        match self.search {
            Some(ref mut search) => search.thaw(),
            None => self.search = Some(SearchBar::default()),
        }
    }

    /// Switch to a fixed string search, dropped if its pattern is empty.
    pub fn fixed_search(&mut self)
        ensures
            match search_chars(old(self).spec_search()) {
                Some(p) => if p.len() > 0 {
                    final(self).spec_search() matches Some(s) && s.state is Fixed && state_chars(&s.state) == p
                } else {
                    final(self).spec_search() is None
                },
                None => final(self).spec_search() is None,
            },
            final(self).spec_selected_pid() == old(self).spec_selected_pid(),
            final(self).spec_marks() == old(self).spec_marks(),
            final(self).spec_action() == old(self).spec_action(),
    {
        let mut drop_search = false;
        if let Some(ref mut search) = self.search {
            if !search.freeze() {
                drop_search = true;
            }
        }
        if drop_search {
            self.clear_search();
        }
    }

    /// Clear search
    pub fn clear_search(&mut self) -> (b: bool)
        ensures
            b == old(self).spec_search() is Some,
            final(self).spec_search() is None,
            final(self).spec_selected_pid() == old(self).spec_selected_pid(),
            final(self).spec_marks() == old(self).spec_marks(),
            final(self).spec_action() == old(self).spec_action(),
    {
        match self.search {
            Some(_) => {
                self.search = None;
                true
            },
            None => false,
        }
    }

    /// Return the search pattern if any.
    pub fn search_pattern(&self) -> (p: Option<String>)
        ensures
            match search_chars(self.spec_search()) {
                Some(c) => p matches Some(s) && s@ == c,
                None => p is None,
            },
    {
        match &self.search {
            Some(s) => Some(s.pattern()),
            None => None,
        }
    }

    /// Whether there is an ongoing incremental search.
    pub fn is_incremental_search(&self) -> (b: bool)
        ensures
            b == (self.spec_search() matches Some(s) && s.state is Incremental),
    {
        match self.search {
            Some(ref search) => matches!(search.state, SearchState::Incremental(_)),
            None => false,
        }
    }

    /// Edit search pattern
    pub fn edit_search(&mut self, edit: SearchEdit)
        requires
            old(self).spec_search() matches Some(s) ==> s.state is Incremental,
        ensures
            search_chars(final(self).spec_search()) == match search_chars(old(self).spec_search()) {
                Some(p) => Some(match edit {
                    SearchEdit::Push(c) => p.push(c),
                    SearchEdit::Pop => if p.len() > 0 { p.drop_last() } else { p },
                }),
                None => None,
            },
            final(self).spec_search() matches Some(s) ==> s.state is Incremental,
            final(self).spec_selected_pid() == old(self).spec_selected_pid(),
            final(self).spec_marks() == old(self).spec_marks(),
            final(self).spec_action() == old(self).spec_action(),
    {
        if let Some(ref mut search) = self.search {
            match edit {
                SearchEdit::Push(c) => search.push(c),
                SearchEdit::Pop => search.pop(),
            }
        }
    }

    /// Select this PID.
    pub fn select_pid(&mut self, pid: i32)
        ensures
            final(self).spec_selected_pid() == Some(pid),
            final(self).spec_search() == old(self).spec_search(),
            final(self).spec_marks() == old(self).spec_marks(),
            final(self).spec_action() == old(self).spec_action(),
    {
        self.selected_pid = Some(pid);
    }
}

/// Line of an optional line.
pub open spec fn lineno_of(lp: Option<LinePid>) -> Option<usize> {
    match lp {
        Some(x) => Some(x.lineno),
        None => None,
    }
}

/// Pid of an optional line.
pub open spec fn pid_of(lp: Option<LinePid>) -> Option<i32> {
    match lp {
        Some(x) => Some(x.pid),
        None => None,
    }
}

proof fn lemma_pid_set_take(v: Seq<LinePid>, i: int)
    requires
        0 <= i < v.len(),
    ensures
        pid_set(v.take(i + 1)) == pid_set(v.take(i)).insert(v[i].pid),
{
    assert(v.take(i + 1).drop_last() =~= v.take(i));
}

proof fn lemma_pid_set_contains(v: Seq<LinePid>, pid: i32)
    ensures
        pid_set(v).contains(pid) <==> exists|k: int| 0 <= k < v.len() && v[k].pid == pid,
    decreases v.len(),
{
    if v.len() > 0 {
        lemma_pid_set_contains(v.drop_last(), pid);
        assert forall|k: int| 0 <= k < v.len() - 1 implies v.drop_last()[k] == v[k] by {}
        if pid_set(v).contains(pid) && pid != v.last().pid {
            let k = choose|k: int| 0 <= k < v.len() - 1 && v.drop_last()[k].pid == pid;
            assert(v[k].pid == pid);
        }
        if exists|k: int| 0 <= k < v.len() && v[k].pid == pid {
            let k = choose|k: int| 0 <= k < v.len() && v[k].pid == pid;
            if k < v.len() - 1 {
                assert(v.drop_last()[k].pid == pid);
            }
        }
    }
}

/// Whether a pid occurs among the first lines of a list.
fn contains_pid(v: &Vec<LinePid>, upto: usize, pid: i32) -> (b: bool)
    requires
        upto <= v.len(),
    ensures
        b == pid_set(v@.take(upto as int)).contains(pid),
{
    proof { lemma_pid_set_contains(v@.take(upto as int), pid); }
    let mut j: usize = 0;
    while j < upto
        invariant
            0 <= j <= upto <= v.len(),
            forall|k: int| 0 <= k < j ==> v@[k].pid != pid,
        decreases upto - j,
    {
        if v[j].pid == pid {
            assert(v@.take(upto as int)[j as int].pid == pid);
            proof { lemma_pid_set_contains(v@.take(upto as int), pid); }
            return true;
        }
        j = j + 1;
    }
    assert forall|k: int| 0 <= k < upto implies v@.take(upto as int)[k].pid != pid by {
        assert(v@[k].pid != pid);
    }
    false
}

/// Set of the pids of a list of lines.
fn pids_of(v: &Vec<LinePid>) -> (s: BTreeSet<i32>)
    ensures
        s@ == pid_set(v@),
{
    let mut s = BTreeSet::new();
    let mut i: usize = 0;
    while i < v.len()
        invariant
            0 <= i <= v.len(),
            s@ == pid_set(v@.take(i as int)),
        decreases v.len() - i,
    {
        proof { lemma_pid_set_take(v@, i as int); }
        s.insert(v[i].pid);
        i = i + 1;
    }
    assert(v@.take(v.len() as int) =~= v@);
    s
}

impl Bookmarks {
    /// Toggle the mark for the given PID.
    fn toggle_mark(&mut self, pid: i32)
        ensures
            final(self).spec_marks() == toggle(old(self).spec_marks(), pid),
            final(self).spec_selected_pid() == old(self).spec_selected_pid(),
            final(self).spec_search() == old(self).spec_search(),
            final(self).spec_action() == old(self).spec_action(),
    {
        if !self.marks.remove(&pid) {
            self.marks.insert(pid);
        }
    }

    /// Toggle the marks of the pids of the lines.
    fn toggle_marks_in(&mut self, v: &Vec<LinePid>)
        ensures
            final(self).spec_marks() == sym_diff(old(self).spec_marks(), pid_set(v@)),
            final(self).spec_selected_pid() == old(self).spec_selected_pid(),
            final(self).spec_search() == old(self).spec_search(),
            final(self).spec_action() == old(self).spec_action(),
    {
        let ghost m0 = self.marks@;
        let mut i: usize = 0;
        assert(sym_diff(m0, pid_set(v@.take(0))) =~= m0);
        while i < v.len()
            invariant
                0 <= i <= v.len(),
                self.marks@ == sym_diff(m0, pid_set(v@.take(i as int))),
                self.selected_pid == old(self).selected_pid,
                self.search == old(self).search,
                self.action == old(self).action,
            decreases v.len() - i,
        {
            proof { lemma_pid_set_take(v@, i as int); }
            let pid = v[i].pid;
            if !contains_pid(v, i, pid) {
                let ghost before = self.marks@;
                self.toggle_mark(pid);
                assert(self.marks@ =~= sym_diff(m0, pid_set(v@.take(i + 1))));
            } else {
                assert(pid_set(v@.take(i + 1)) =~= pid_set(v@.take(i as int)));
            }
            i = i + 1;
        }
        assert(v@.take(v.len() as int) =~= v@);
    }

    /// Transform the motion on the bookmarks to a motion on lines.
    ///
    /// Returns the selected line.
    ///
    /// * `scroll` - The requested scroll.
    /// * `occurrences` - The set of matching pid in case of search.
    /// * `lines` - The pid and the name shown on each line.
    pub fn selected_line(
        &mut self,
        scroll: Scroll,
        occurrences: &mut BTreeSet<i32>,
        lines: &[(i32, &str)],
    ) -> (r: Option<usize>)
        ensures
            ({
                let search0 = if scroll == Scroll::CurrentPosition { old(self).spec_search() } else { None };
                let marks0 = if scroll == Scroll::CurrentPosition { old(self).spec_marks() } else { Set::<i32>::empty() };
                let pattern = search_chars(search0);
                let st = scan_lines(lines@, marks0, old(self).spec_selected_pid(), pattern);
                let sel = selection_after_scan(st);
                let ring = if pattern is Some { st.matches } else { st.marked };
                let action = old(self).spec_action();
                let res = selection_after_action(action, scroll, sel, st, ring);
                let toggled = action == BookmarkAction::ToggleMarks && !st.occurrences.is_empty();
                &&& r == lineno_of(res)
                &&& final(self).spec_selected_pid() == pid_of(res)
                &&& final(self).spec_action() == BookmarkAction::NoAction
                &&& final(self).spec_marks() == marks_after_action(action, sel, st)
                &&& final(self).spec_search() == if toggled { None } else { search0 }
                &&& final(occurrences)@ == if toggled { Set::<i32>::empty() } else { st.occurrences }
            }),
    {
        occurrences.clear();
        let mut selected_linepid: Option<LinePid> = None;
        let mut first_linepid: Option<LinePid> = None;
        let mut last_linepid: Option<LinePid> = None;
        let mut matches: Vec<LinePid> = Vec::new();
        let mut marked: Vec<LinePid> = Vec::new();
        if !matches!(scroll, Scroll::CurrentPosition) {
            self.search = None;
            self.clear_marks();
        }
        let pattern = self.search_pattern();
        let pattern_chars: Option<Vec<char>> = match &pattern {
            Some(p) => Some(str_chars(p.as_str())),
            None => None,
        };
        let ghost pat = search_chars(self.search);
        let ghost marks0 = self.marks@;
        let ghost sel0 = self.selected_pid;
        let mut lineno: usize = 0;
        while lineno < lines.len()
            invariant
                0 <= lineno <= lines.len(),
                pat == match pattern_chars { Some(p) => Some(p@), None => None::<Seq<char>> },
                marks0 == self.marks@,
                sel0 == self.selected_pid,
                ({
                    let st = scan_lines(lines@.take(lineno as int), marks0, sel0, pat);
                    &&& selected_linepid == st.selected
                    &&& first_linepid == st.first
                    &&& last_linepid == st.last
                    &&& matches@ == st.matches
                    &&& marked@ == st.marked
                    &&& occurrences@ == st.occurrences
                    &&& st.occurrences == pid_set(st.matches)
                }),
            decreases lines.len() - lineno,
        {
            assert(lines@.take(lineno + 1).drop_last() =~= lines@.take(lineno as int));
            assert(lines@.take(lineno + 1).last() == lines@[lineno as int]);
            let (pid, name) = lines[lineno];
            if pid != 0 {
                let this_linepid = LinePid::new(lineno, pid);
                if first_linepid.is_none() {
                    first_linepid = last_linepid;
                }
                if self.marks.contains(&pid) {
                    marked.push(this_linepid);
                }
                if let Some(selected_pid) = self.selected_pid {
                    if selected_pid == pid {
                        selected_linepid = Some(this_linepid);
                    }
                }
                if let Some(p) = &pattern_chars {
                    let name_chars = str_chars(name);
                    if slice_find_from(name_chars.as_slice(), p.as_slice(), 0).is_some() {
                        let ghost before = matches@;
                        matches.push(this_linepid);
                        occurrences.insert(pid);
                        assert(matches@.drop_last() == before);
                    }
                }
                last_linepid = Some(this_linepid);
            }
            lineno = lineno + 1;
        }
        assert(lines@.take(lines.len() as int) =~= lines@);
        let ghost st = scan_lines(lines@, marks0, sel0, pat);
        match selected_linepid {
            Some(lp) => {
                if !occurrences.is_empty() && occurrences.contains(&lp.pid) {
                } else if matches.len() > 0 {
                    selected_linepid = lp.next_in(matches.as_slice());
                }
            },
            None => {
                if matches.len() > 0 {
                    selected_linepid = Some(matches[0]);
                }
            },
        }
        let ghost sel = selected_linepid;
        assert(sel == selection_after_scan(st));
        self.selected_pid = match selected_linepid {
            Some(lp) => Some(lp.pid),
            None => None,
        };
        self.marks = pids_of(&marked);
        let use_matches = pattern.is_some();
        let action = self.action;
        self.action = BookmarkAction::NoAction;
        let result = match action {
            BookmarkAction::Previous => {
                let ring = if use_matches { &matches } else { &marked };
                let moved = match selected_linepid {
                    Some(lp) => lp.previous_in(ring.as_slice()),
                    None => None,
                };
                match moved {
                    Some(x) => Some(x),
                    None => if ring.len() > 0 { Some(ring[ring.len() - 1]) } else { None },
                }
            },
            BookmarkAction::Next => {
                let ring = if use_matches { &matches } else { &marked };
                let moved = match selected_linepid {
                    Some(lp) => lp.next_in(ring.as_slice()),
                    None => None,
                };
                match moved {
                    Some(x) => Some(x),
                    None => if ring.len() > 0 { Some(ring[0]) } else { None },
                }
            },
            _ => {
                if matches!(action, BookmarkAction::ToggleMarks) {
                    if occurrences.is_empty() {
                        if let Some(selected_pid) = self.selected_pid {
                            self.toggle_mark(selected_pid);
                        }
                    } else {
                        self.toggle_marks_in(&matches);
                        self.clear_search();
                        occurrences.clear();
                    }
                }
                match scroll {
                    Scroll::FirstPosition => first_linepid,
                    Scroll::LastPosition => last_linepid,
                    _ => selected_linepid,
                }
            },
        };
        self.selected_pid = match result {
            Some(lp) => Some(lp.pid),
            None => None,
        };
        match result {
            Some(lp) => Some(lp.lineno),
            None => None,
        }
    }
}

} // verus!
