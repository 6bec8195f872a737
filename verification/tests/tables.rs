use oprs::display::term::input::Bookmarks;
use oprs::console::BuiltinTheme;
use oprs::display::term::panes::{Alignment, BigTableState, TableClip, Zoom};
use oprs::display::term::tables::{
    bits_to_string, pid_status, Color, FileDescriptor, FileTarget, FilesTable, MapPath, MapsTable,
    MemoryMap, PidStack, PidStatus, ProcessTreeTable, SampleText, Styles, TreeLine,
};
use oprs::display::term::types::{Area, Motion, Scroll};
use oprs::process::collector::Trend;

#[test]
fn test_16bits_to_string() {
    for (bits, chars, expected) in [(0x1u64, "rwx", "r--"), (0x2, "rwx", "-w-"), (0x4, "rwx", "--x"), (0x5, "rwx", "r-x")] {
        assert_eq!(expected, bits_to_string(bits, chars).as_str());
    }
}

#[test]
fn test_8bits_to_string() {
    for (bits, chars, expected) in [(0x3u64, "rwxsp", "rw---"), (0x10, "rwxsp", "----p"), (0x13, "rwxsp", "rw--p")] {
        assert_eq!(expected, bits_to_string(bits, chars).as_str());
    }
}

#[test]
fn pid_stack_follows_the_tree() {
    let mut stack = PidStack::new();
    stack.push(1, Some(0));
    stack.push(10, Some(1));
    stack.push(11, Some(10));
    assert_eq!(3, stack.len());
    // A sibling of 10 drops 10 and 11.
    stack.push(12, Some(1));
    assert_eq!(vec![1, 12], stack.pids);
    // A process whose parent is not on the stack starts again.
    stack.push(20, Some(7));
    assert_eq!(vec![20], stack.pids);
    stack.push(0, None);
    assert_eq!(0, stack.len());
}

#[test]
fn matching_comes_before_marked() {
    let bookmarks = Bookmarks::default();
    assert_eq!(PidStatus::Matching, pid_status(&[3, 4], &bookmarks, 4));
    assert_eq!(PidStatus::Unknown, pid_status(&[3, 4], &bookmarks, 5));
}

#[test]
fn styles_of_themes() {
    let dark = Styles::new(Some(BuiltinTheme::Dark));
    assert_eq!(Some(Color::Indexed(238)), dark.odd_row.bg);
    assert_eq!(Some(Color::Indexed(196)), dark.trend_style(Trend::Greater).fg);
    assert_eq!(None, dark.trend_style(Trend::Equal).fg);
    let none = Styles::new(None);
    assert!(none.selected.bold && none.selected.reversed);
    assert!(none.name_style(PidStatus::Matching).underlined);
    assert_eq!(2, none.column_spacing);
    assert_eq!(dark.odd_row, dark.row_style(0));
    assert_eq!(dark.even_row, dark.row_style(1));
}

fn tree_line(pid: i32, parent_pid: i32, name: &str, state: char, value: &str, trend: Trend) -> TreeLine {
    TreeLine {
        pid,
        parent_pid: Some(parent_pid),
        name: name.to_string(),
        state,
        samples: vec![SampleText { strings: vec![value.to_string()], trends: vec![trend] }],
    }
}

fn sample_tree() -> ProcessTreeTable {
    let lines = vec![
        tree_line(1, 0, "init", 'S', "10", Trend::Equal),
        tree_line(10, 1, "bash", 'S', "200", Trend::Greater),
        tree_line(11, 10, "vim", 'R', "3", Trend::Less),
        tree_line(12, 1, "sshd", 'S', "4", Trend::Equal),
    ];
    ProcessTreeTable::new(lines, vec!["time\ncpu".to_string()])
}

fn tree_clip(table: &ProcessTreeTable, top: usize, height: usize, selected: Option<usize>) -> TableClip {
    let still = Motion { position: 0, scroll: Scroll::CurrentPosition };
    let state = BigTableState {
        motion: Area::new(still, still),
        selected_lineno: selected,
        min_lineno: 1,
        zoom: Area::new(Zoom::new(0, 20, 4), Zoom::new(top, height, table.lines.len())),
    };
    TableClip::new(&state, &table.widths, 3, 1)
}

#[test]
fn tree_indents_and_widths() {
    let table = sample_tree();
    assert_eq!(vec![0, 1, 2, 1], table.indents);
    // "Process" is wider than the names, "time" than the values.
    assert_eq!(vec![7, 3, 1, 4], table.widths);
    assert_eq!(3, table.headers_size.horizontal);
    assert_eq!(2, table.headers_size.vertical);
}

#[test]
fn tree_headers() {
    let table = sample_tree();
    let clip = tree_clip(&table, 0, 4, None);
    let headers = table.top_headers(&clip);
    let texts: Vec<(Vec<String>, Alignment)> = headers.into_iter().map(|t| (t.lines, t.alignment)).collect();
    assert_eq!(
        vec![
            (vec!["Process".to_string()], Alignment::Left),
            (vec!["PID".to_string()], Alignment::Left),
            (vec!["S".to_string()], Alignment::Left),
            (vec!["time".to_string(), "cpu".to_string()], Alignment::Center),
        ],
        texts
    );
}

#[test]
fn tree_rows_and_selection() {
    let table = sample_tree();
    let styles = Styles::new(Some(BuiltinTheme::Dark));
    let clip = tree_clip(&table, 1, 2, Some(2));
    let mut bookmarks = Bookmarks::default();
    let (rows, selected) = table.rows(&clip, &styles, &[10], &bookmarks);
    assert_eq!(Some(11), selected);
    assert_eq!(2, rows.len());
    // The child of init, indented once, matches the search.
    assert_eq!(vec![" bash".to_string()], rows[0][0].text.lines);
    assert_eq!(styles.matching, rows[0][0].style);
    assert_eq!(vec!["10".to_string()], rows[0][1].text.lines);
    assert_eq!(Alignment::Right, rows[0][1].text.alignment);
    assert_eq!(vec!["200".to_string()], rows[0][3].text.lines);
    assert_eq!(styles.increase, rows[0][3].style);
    // The grandchild is selected.
    assert_eq!(vec!["  vim".to_string()], rows[1][0].text.lines);
    assert_eq!(styles.selected, rows[1][0].style);
    assert_eq!(vec!["R".to_string()], rows[1][2].text.lines);
    assert_eq!(styles.decrease, rows[1][3].style);
    // Below the last line, nothing.
    bookmarks.clear_marks();
    let clip = tree_clip(&table, 4, 2, None);
    let (rows, selected) = table.rows(&clip, &styles, &[], &bookmarks);
    assert!(rows.is_empty());
    assert_eq!(None, selected);
}

#[test]
fn files_table_rows_and_widths() {
    let files = vec![
        Ok(FileDescriptor { fd: 3, mode: 0o700, target: FileTarget::Path("/tmp/log".to_string()) }),
        Ok(FileDescriptor { fd: 12, mode: 0o500, target: FileTarget::Other("anon".to_string(), 7) }),
        Err("permission denied".to_string()),
    ];
    let table = FilesTable::new(&files);
    assert_eq!(vec!["3".to_string(), "rwx".to_string(), "file".to_string(), "/tmp/log".to_string()], table.files[0]);
    // Bits are read from the lowest: 0o500 shifted is 0b101.
    assert_eq!(vec!["12".to_string(), "r-x".to_string(), "other".to_string(), "anon[7]".to_string()], table.files[1]);
    assert_eq!(vec![String::new(), String::new(), String::new(), "permission denied".to_string()], table.files[2]);
    assert_eq!(vec![2, 4, 5, 17], table.widths);
    let still = Motion { position: 0, scroll: Scroll::CurrentPosition };
    let state = BigTableState {
        motion: Area::new(still, still),
        selected_lineno: None,
        min_lineno: 0,
        zoom: Area::new(Zoom::new(0, 100, 31), Zoom::new(1, 1, 3)),
    };
    let clip = TableClip::new(&state, &table.widths, 0, 1);
    let rows = table.rows(&clip);
    assert_eq!(1, rows.len());
    assert_eq!(vec!["12".to_string()], rows[0][0].lines);
    assert_eq!(Alignment::Right, rows[0][0].alignment);
}

#[test]
fn maps_table_rows() {
    let maps = vec![MemoryMap {
        address: (0x1000, 0x2fff),
        perms: 0b10101,
        offset: 4096,
        dev: (8, -1),
        inode: 42,
        pathname: MapPath::TStack(77),
    }];
    let table = MapsTable::new(&maps);
    assert_eq!(
        vec![
            "1000-2fff".to_string(),
            "r-x-p".to_string(),
            "4096".to_string(),
            "08:ffffffff".to_string(),
            "42".to_string(),
            "[tstack:77]".to_string(),
        ],
        table.maps[0]
    );
    assert_eq!(vec![9, 5, 6, 11, 5, 11], table.widths);
}
