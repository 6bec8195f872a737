use oprs::display::term::panes::{
    new_zoom, width_constraints, Alignment, BigTableState, Constraint, GridPane, Rect,
    ScrollbarState, SingleScrollablePane, TableClip, Zoom,
};
use oprs::display::term::types::{Area, Motion, Scroll};

#[test]
fn test_width_constraints_underflow() {
    // aaaaa bbbb bbbb on 20 columns
    const SCREEN_WIDTH: u16 = 20;
    const FIRST_COLUMN_WIDTH: u16 = 5;
    const COLUMN_WIDTH: u16 = 4;
    let column_widths = vec![FIRST_COLUMN_WIDTH, COLUMN_WIDTH, COLUMN_WIDTH];
    const COLUMN_SPACING: u16 = 1;
    const NCOLS: usize = 3;
    let (table_width, widths) = width_constraints(SCREEN_WIDTH, &column_widths, COLUMN_SPACING);
    const SPACED_COLUMN_WIDTH: u16 = COLUMN_WIDTH + COLUMN_SPACING;
    const EXPECTED_WIDTH: u16 = FIRST_COLUMN_WIDTH + (NCOLS as u16 - 1) * SPACED_COLUMN_WIDTH;
    assert_eq!(EXPECTED_WIDTH, table_width);
    assert_eq!(NCOLS, widths.len());
    assert_eq!(Constraint::Length(FIRST_COLUMN_WIDTH), widths[0]);
    assert_eq!(Constraint::Length(COLUMN_WIDTH), widths[1]);
}

#[test]
fn test_width_constraints_exact() {
    // aaaaa bbbb bbbb bbbb on 20 columns
    const SCREEN_WIDTH: u16 = 20;
    const FIRST_COLUMN_WIDTH: u16 = 5;
    const COLUMN_WIDTH: u16 = 4;
    let column_widths = vec![FIRST_COLUMN_WIDTH, COLUMN_WIDTH, COLUMN_WIDTH, COLUMN_WIDTH];
    const COLUMN_SPACING: u16 = 1;
    let (table_width, widths) = width_constraints(SCREEN_WIDTH, &column_widths, COLUMN_SPACING);
    const SPACED_COLUMN_WIDTH: u16 = COLUMN_WIDTH + COLUMN_SPACING;
    let expected_width: u16 = FIRST_COLUMN_WIDTH + (column_widths.len() as u16 - 1) * SPACED_COLUMN_WIDTH;
    const EXPECTED_NCOLS: usize = 4;
    assert_eq!(expected_width, table_width);
    assert_eq!(EXPECTED_NCOLS, widths.len());
    assert_eq!(Constraint::Length(FIRST_COLUMN_WIDTH), widths[0]);
    assert_eq!(Constraint::Length(COLUMN_WIDTH), widths[1]);
}

#[test]
fn test_width_constraints_overflow() {
    // aaaaa bbb bbb bbb bbb bbb on 20 columns
    const SCREEN_WIDTH: u16 = 20;
    const FIRST_COLUMN_WIDTH: u16 = 5;
    const COLUMN_WIDTH: u16 = 3;
    let column_widths = vec![FIRST_COLUMN_WIDTH, COLUMN_WIDTH, COLUMN_WIDTH, COLUMN_WIDTH, COLUMN_WIDTH, COLUMN_WIDTH];
    const COLUMN_SPACING: u16 = 1;
    let (table_width, widths) = width_constraints(SCREEN_WIDTH, &column_widths, COLUMN_SPACING);
    const EXPECTED_NCOLS: usize = 5;
    assert_eq!(SCREEN_WIDTH, table_width);
    assert_eq!(EXPECTED_NCOLS, widths.len());
    assert_eq!(Constraint::Length(FIRST_COLUMN_WIDTH), widths[0]);
    assert_eq!(Constraint::Length(COLUMN_WIDTH), widths[1]);
    assert_eq!(Constraint::Length(2), widths[4]);
}

#[test]
fn zoom_position_stays_in_content() {
    let z = Zoom::new(50, 10, 30);
    assert_eq!(30, z.position);
    assert!(Zoom::new(0, 10, 10).scrollbar_state().is_none());
    assert_eq!(
        Some(ScrollbarState { content_length: 20, position: 5, viewport_content_length: 10 }),
        Zoom::new(5, 10, 30).scrollbar_state()
    );
}

#[test]
fn selection_moves_and_zoom_follows() {
    // Ten visible lines out of a hundred; the selection goes down a page.
    let motion = Motion { position: 0, scroll: Scroll::NextPage };
    let (selected, zoom) = new_zoom(Some(8), 0, &motion, 10, 100);
    assert_eq!(Some(13), selected);
    assert_eq!(8, zoom.position);
    // Without selection, going down one line selects the top line.
    let motion = Motion { position: 4, scroll: Scroll::NextPosition };
    let (selected, zoom) = new_zoom(None, 0, &motion, 10, 100);
    assert_eq!(Some(4), selected);
    assert_eq!(4, zoom.position);
    // The selection is never before the minimum.
    let motion = Motion { position: 0, scroll: Scroll::FirstPosition };
    let (selected, _) = new_zoom(Some(8), 2, &motion, 10, 100);
    assert_eq!(Some(2), selected);
}

#[test]
fn big_table_layout() {
    let motion = Area::new(Motion { position: 0, scroll: Scroll::CurrentPosition }, Motion { position: 0, scroll: Scroll::CurrentPosition });
    let mut state = BigTableState::with_motion(&motion);
    // One header column of 10, then five columns of 8 with a spacing of 1.
    let widths = [10, 8, 8, 8, 8, 8];
    let area = Rect { x: 0, y: 0, width: 40, height: 12 };
    let layout = state.layout(area, &widths, 1, 1, 1, 50);
    assert_eq!(11, layout.headers_width);
    // 40 - 2 borders - 11 = 27 columns visible out of 44.
    assert_eq!(27, state.zoom.horizontal.visible_length);
    assert_eq!(44, state.zoom.horizontal.total_length);
    assert_eq!(
        vec![Constraint::Length(10), Constraint::Length(8), Constraint::Length(8), Constraint::Length(8)],
        layout.constraints
    );
    assert!(layout.horizontal_bar.is_some());
    // 12 - 2 borders - 1 header row = 9 lines visible out of 50.
    assert_eq!(9, state.zoom.vertical.visible_length);
    assert!(layout.vertical_bar.is_some());
}

/// Height a widget asks for: what it wants, within the screen.
fn min_height(wanted: u16, screen: Rect) -> u16 {
    std::cmp::min(wanted, screen.height)
}

fn rect(x: u16, y: u16, width: u16, height: u16) -> Rect {
    Rect { x, y, width, height }
}

fn single_scrollable_pane(height: u16) -> Vec<Option<Rect>> {
    let screen = rect(0, 0, 15, height);
    SingleScrollablePane::new(screen)
        .with(min_height(2, screen))
        .with(min_height(1, screen))
        .build()
}

#[test]
fn test_single_scrollable_pane() {
    let expected = vec![Some(rect(0, 0, 15, 7)), Some(rect(0, 7, 15, 2)), Some(rect(0, 9, 15, 1))];
    assert_eq!(expected, single_scrollable_pane(10));
    let expected = vec![None, Some(rect(0, 0, 15, 1)), Some(rect(0, 1, 15, 1))];
    assert_eq!(expected, single_scrollable_pane(2));
    let expected = vec![None, None, Some(rect(0, 0, 15, 1))];
    assert_eq!(expected, single_scrollable_pane(1));
}

fn grid_pane(height: u16) -> Vec<Option<Rect>> {
    let screen = rect(0, 0, 15, height);
    GridPane::new(screen)
        .with_row(&[min_height(2, screen)])
        .with_row(&[min_height(3, screen), min_height(1, screen)])
        .with_line(min_height(1, screen))
        .build()
}

#[test]
fn test_grid_pane() {
    // A gap between the last row and the bottom line.
    let expected = vec![
        Some(rect(0, 0, 15, 2)),
        Some(rect(0, 2, 8, 3)),
        Some(rect(8, 2, 7, 3)),
        Some(rect(0, 5, 15, 4)),
        Some(rect(0, 9, 15, 1)),
    ];
    assert_eq!(expected, grid_pane(10));
    // No gap.
    let expected = vec![
        Some(rect(0, 0, 15, 2)),
        Some(rect(0, 2, 8, 3)),
        Some(rect(8, 2, 7, 3)),
        None,
        Some(rect(0, 5, 15, 1)),
    ];
    assert_eq!(expected, grid_pane(6));
    // The last row is truncated.
    let expected = vec![
        Some(rect(0, 0, 15, 2)),
        Some(rect(0, 2, 8, 2)),
        Some(rect(8, 2, 7, 2)),
        None,
        Some(rect(0, 4, 15, 1)),
    ];
    assert_eq!(expected, grid_pane(5));
    // The last row is not shown.
    let expected = vec![Some(rect(0, 0, 15, 2)), None, None, None, Some(rect(0, 2, 15, 1))];
    assert_eq!(expected, grid_pane(3));
}

#[test]
fn grid_row_of_three_shares_the_width() {
    let screen = rect(0, 0, 30, 5);
    let rects = GridPane::new(screen).with_row(&[1, 2, 1]).build();
    assert_eq!(vec![Some(rect(0, 0, 10, 2)), Some(rect(10, 0, 10, 2)), Some(rect(20, 0, 10, 2))], rects);
}

const COLUMN_SPACING: u16 = 1;

/// State and widths from rows of strings.
fn new_state_and_widths(
    rows: &[&[&'static str]],
    position: usize,
    screen_width: usize,
    nheadcols: usize,
    column_spacing: u16,
) -> (BigTableState, Vec<u16>) {
    let column_spacing = column_spacing as usize;
    let widths: Vec<u16> = (0..rows[0].len())
        .map(|i| rows.iter().map(|row| row[i].len() as u16).max().unwrap_or(0))
        .collect();
    let body_widths = &widths[nheadcols..];
    let total_width = body_widths.iter().sum::<u16>() as usize
        + body_widths.len().saturating_sub(1) * column_spacing;
    let visible_width = screen_width
        - widths.iter().take(nheadcols).sum::<u16>() as usize
        - nheadcols * column_spacing;
    let zoom = Area::new(Zoom::new(position, visible_width, total_width), Zoom::default());
    let motion = Area::new(
        Motion { position: 0, scroll: Scroll::CurrentPosition },
        Motion { position: 0, scroll: Scroll::CurrentPosition },
    );
    let state = BigTableState { motion, selected_lineno: None, min_lineno: 0, zoom };
    (state, widths)
}

fn new_constraints(widths: &[u16]) -> Vec<Constraint> {
    widths.iter().copied().map(Constraint::Length).collect()
}

fn one_line(text: &str) -> Vec<String> {
    vec![text.to_string()]
}

/// The visible cells of the body of each row.
fn assert_bodies_match(
    tc: &TableClip,
    rows: &[&[&'static str]],
    alignment: Alignment,
    expected_rows: &[&[&'static str]],
    expected_alignments: &[Alignment],
    ncols: usize,
    nheadcols: usize,
) {
    for (row, expected_row) in rows.iter().zip(expected_rows) {
        let expected: Vec<(Vec<String>, Alignment)> = expected_row
            .iter()
            .zip(expected_alignments)
            .map(|(t, a)| (one_line(t), *a))
            .collect();
        let value: Vec<(Vec<String>, Alignment)> = (0..ncols - nheadcols)
            .flat_map(|offset| tc.clip_cell(offset, row[offset + nheadcols], alignment))
            .map(|t| (t.lines, t.alignment))
            .collect();
        assert_eq!(expected, value);
    }
}

const ROWS_5_4_4: &[&[&str]] = &[&["abcde", "fgh", "ijkl"], &["ABC", "DEFG", "HI"]];
const ROWS_5_4_4_4: &[&[&str]] = &[&["abcde", "fgh", "ijkl", "mno"], &["ABC", "DEFG", "HI", "JKLM"]];

#[test]
fn test_constraints_without_headers_and_clip() {
    const SCREEN_WIDTH: usize = 20;
    const NHEADCOLS: usize = 0;
    for (rows, expected_constraints) in [(ROWS_5_4_4, &[5u16, 4, 4][..]), (ROWS_5_4_4_4, &[5, 4, 4, 4][..])] {
        let (state, widths) = new_state_and_widths(rows, 0, SCREEN_WIDTH, NHEADCOLS, COLUMN_SPACING);
        let tc = TableClip::new(&state, &widths, NHEADCOLS, COLUMN_SPACING);
        assert_eq!(new_constraints(expected_constraints), tc.constraints());
        for row in rows {
            for (colnum, cell) in row.iter().enumerate() {
                let alignment = if colnum == 0 { Alignment::Left } else { Alignment::Right };
                let value = tc.clip_cell(colnum, cell, alignment).expect("not empty cell");
                assert_eq!(one_line(cell), value.lines);
                assert_eq!(alignment, value.alignment);
            }
        }
    }
}

const ROWS_5_4_4_5: &[&[&str]] = &[&["abcde", "fgh", "ijkl", "mnopqr"], &["ABC", "DEFG", "HI", "JKLM"]];
const EXPECTED_BODY_CASE_1: &[&[&str]] = &[&["fgh", "ijkl", "mnop"], &["DEFG", "HI", "JK"]];
const EXPECTED_BODY_CASE_2: &[&[&str]] = &[&["fgh", "ijkl", "mnop"], &["DEFG", "HI", "JKLM"]];
const ROWS_5_4_2_9: &[&[&str]] = &[&["abcde", "fgh", "ij", "klmnopqrs"], &["ABC", "DEFG", "HI", "JKLMN"]];
const EXPECTED_BODY_CASE_3: &[&[&str]] = &[&["fgh", "ij", "klmnop"], &["DEFG", "HI", "JKLM"]];

#[test]
fn test_constraints_right_truncated_without_clip() {
    const SCREEN_WIDTH: usize = 20;
    const NHEADCOLS: usize = 1;
    let cases: [(&[&[&str]], Alignment, &[u16], &[&[&str]], &[Alignment]); 3] = [
        (ROWS_5_4_4_5, Alignment::Right, &[5, 4, 4, 4], EXPECTED_BODY_CASE_1,
         &[Alignment::Right, Alignment::Right, Alignment::Right]),
        (ROWS_5_4_4_5, Alignment::Left, &[5, 4, 4, 4], EXPECTED_BODY_CASE_2,
         &[Alignment::Left, Alignment::Left, Alignment::Left]),
        (ROWS_5_4_2_9, Alignment::Center, &[5, 4, 2, 6], EXPECTED_BODY_CASE_3,
         &[Alignment::Center, Alignment::Center, Alignment::Right]),
    ];
    for (rows, alignment, expected_constraints, expected_rows, expected_alignments) in cases {
        let (state, widths) = new_state_and_widths(rows, 0, SCREEN_WIDTH, NHEADCOLS, COLUMN_SPACING);
        let tc = TableClip::new(&state, &widths, NHEADCOLS, COLUMN_SPACING);
        assert_eq!(new_constraints(expected_constraints), tc.constraints());
        assert_bodies_match(&tc, rows, alignment, expected_rows, expected_alignments, widths.len(), NHEADCOLS);
    }
}

const ROWS_5_4_5_7: &[&[&str]] = &[&["abcde", "fgh", "ijklm", "nopqrst"], &["ABC", "DEFG", "HI", "JKLM"]];
const EXPECTED_ROWS_CLIP_CASE_1: &[&[&str]] = &[&["h", "ijklm", "nopqr"], &["FG", "HI", "JKLM"]];
const EXPECTED_ROWS_CLIP_CASE_2: &[&[&str]] = &[&["gh", "ijklm", "nopqr"], &["FG", "HI", "JK"]];

#[test]
fn test_constraints_with_clip() {
    const SCREEN_WIDTH: usize = 20;
    const NHEADCOLS: usize = 1;
    let cases: [(&[&[&str]], usize, Alignment, &[u16], &[&[&str]]); 2] = [
        (ROWS_5_4_5_7, 2, Alignment::Left, &[5, 2, 5, 5], EXPECTED_ROWS_CLIP_CASE_1),
        (ROWS_5_4_5_7, 2, Alignment::Right, &[5, 2, 5, 5], EXPECTED_ROWS_CLIP_CASE_2),
    ];
    for (rows, position, alignment, expected_constraints, expected_rows) in cases {
        let (state, widths) = new_state_and_widths(rows, position, SCREEN_WIDTH, NHEADCOLS, COLUMN_SPACING);
        let tc = TableClip::new(&state, &widths, NHEADCOLS, COLUMN_SPACING);
        assert_eq!(new_constraints(expected_constraints), tc.constraints());
        let body_size = widths.len() - NHEADCOLS;
        let alignments: Vec<Alignment> = (0..body_size).map(|_| alignment).collect();
        assert_bodies_match(&tc, rows, alignment, expected_rows, &alignments, widths.len(), NHEADCOLS);
    }
}

#[test]
fn clip_keeps_whole_characters() {
    // "é" takes two bytes: cutting inside it leaves nothing.
    let (state, widths) = new_state_and_widths(&[&["ab", "xéz"]], 1, 4, 1, 1);
    let tc = TableClip::new(&state, &widths, 1, 1);
    let cut = tc.clip_cell(0, "xéz", Alignment::Left).expect("visible");
    assert_eq!(vec!["éz".to_string()], cut.lines);
    let (state, widths) = new_state_and_widths(&[&["ab", "xéz"]], 2, 4, 1, 1);
    let tc = TableClip::new(&state, &widths, 1, 1);
    let cut = tc.clip_cell(0, "xéz", Alignment::Left).expect("visible");
    assert_eq!(vec![String::new()], cut.lines);
}

#[test]
fn clip_splits_lines() {
    let (state, widths) = new_state_and_widths(&[&["a", "bb"]], 0, 10, 1, 1);
    let tc = TableClip::new(&state, &widths, 1, 1);
    let cell = tc.clip_cell(0, "cpu\r\nraw\n", Alignment::Right).expect("visible");
    assert_eq!(vec!["cpu".to_string(), "raw".to_string()], cell.lines);
    let cell = tc.clip_cell(0, "", Alignment::Right).expect("visible");
    assert_eq!(vec![String::new()], cell.lines);
}
