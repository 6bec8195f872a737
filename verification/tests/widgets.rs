use std::time::Duration;

use oprs::agg::Aggregation;
use oprs::display::term::panes::Rect;
use oprs::display::term::widgets::{details_widgets, FieldsWidget, OneLineWidget, ProcessDetailsText};
use oprs::display::term::{metric_headers, TerminalDevice};
use oprs::metrics::MetricId;

fn details() -> ProcessDetailsText {
    ProcessDetailsText {
        name: "bash".to_string(),
        command: "/bin/bash --login".to_string(),
        directory: "/home/user".to_string(),
        pid: 42,
        parent_pid: 1,
        uid: None,
        thread_count: Some("1".to_string()),
        fd_all: Some("4".to_string()),
        fd_file: None,
        io_read_total: None,
        io_write_total: None,
        time_cpu: Some("0.5".to_string()),
        time_elapsed: None,
        mem_vm: None,
        mem_rss: None,
        mem_data: None,
    }
}

#[test]
fn one_line_widget_wraps_inside_its_borders() {
    let area = Rect { x: 0, y: 0, width: 8, height: 20 };
    let titled = OneLineWidget::new("hello world", Some("Command"));
    assert_eq!(11, titled.text_length);
    // 11 columns in 6: two lines, and the borders.
    assert_eq!(4, titled.min_height(area));
    let bare = OneLineWidget::new("hello world", None);
    assert_eq!(2, bare.min_height(area));
    let exact = OneLineWidget::new("12345678", None);
    assert_eq!(1, exact.min_height(area));
}

#[test]
fn fields_widget_stays_in_the_area() {
    let lines = vec![("a", "1".to_string()), ("b", "2".to_string())];
    let w = FieldsWidget::new("Box", lines);
    assert_eq!(4, w.min_height(Rect { x: 0, y: 0, width: 10, height: 20 }));
    assert_eq!(3, w.min_height(Rect { x: 0, y: 0, width: 10, height: 3 }));
}

#[test]
fn details_fields() {
    let w = details_widgets(&details());
    assert_eq!(vec!["/bin/bash --login".to_string()], w.command.spans);
    assert_eq!(Some("Command"), w.command.title);
    assert_eq!(Some("Working Directory"), w.directory.title);
    assert_eq!(
        vec![
            ("Name", " bash ".to_string()),
            ("Process ID", "42".to_string()),
            ("Parent ID", "1".to_string()),
            ("Owner", "<unknown>".to_string()),
            ("Threads", "1".to_string()),
        ],
        w.process.lines
    );
    assert_eq!(("Files", "<unknown>".to_string()), w.files.lines[1]);
    assert_eq!(("CPU", "0.5".to_string()), w.time.lines[0]);
    assert_eq!(3, w.memory.lines.len());
}

#[test]
fn details_blocks_go_away_when_scrolling() {
    let area = Rect { x: 0, y: 0, width: 40, height: 30 };
    let w = details_widgets(&details());
    let menu = OneLineWidget::new("q Quit", None);
    let mut device = TerminalDevice::new(Duration::from_secs(1));
    let layout = device.details_layout(area, &w, &menu);
    assert!(layout.with_command && layout.with_directory && layout.with_process);
    // Command, directory, process and files, time and memory, the space
    // left, the menu.
    assert_eq!(8, layout.rects.len());
    assert_eq!(Some(Rect { x: 0, y: 0, width: 40, height: 3 }), layout.rects[0]);
    assert_eq!(Some(Rect { x: 0, y: 29, width: 40, height: 1 }), layout.rects[7]);
    device.motions[0].vertical.position = 5;
    let layout = device.details_layout(area, &w, &menu);
    assert!(!layout.with_command && !layout.with_directory && !layout.with_process);
    assert_eq!(4, layout.rects.len());
    assert_eq!(3, device.motions[0].horizontal.position);
}

#[test]
fn status_bar_shows_matches_marks_or_filter() {
    let device = TerminalDevice::new(Duration::from_millis(2500));
    assert_eq!("12:00:00 -- interval:2s 500ms -- filter:user", device.status_bar("12:00:00", 0));
    assert_eq!("12:00:00 -- interval:2s 500ms -- matches:3", device.status_bar("12:00:00", 3));
}

#[test]
fn headers_of_metrics() {
    let computed = [
        (MetricId::MemVm, Aggregation::Raw),
        (MetricId::MemVm, Aggregation::Max),
        (MetricId::FdAll, Aggregation::Raw),
    ];
    assert_eq!(
        vec!["mem\nvm".to_string(), "mem\nvm (max)".to_string(), "fd\nall".to_string()],
        metric_headers(&computed)
    );
}
