//! Widgets stacked in panes: what they show and the height they ask for.

use vstd::prelude::*;
use crate::display::term::input::MenuEntry;
use crate::display::term::panes::{Rect, BORDER_SIZE};
use crate::strings::{
    decimal, i32_string, int_decimal, push_char, push_str, strings_view, to_string, u64_string,
};

verus! {

/// Width of a text on the terminal, its widest line, as the terminal
/// library measures it.
pub uninterp spec fn text_width(s: Seq<char>) -> usize;

/// Width of a line made of spans on the terminal, as the terminal library
/// measures it.
pub uninterp spec fn line_width(spans: Seq<Seq<char>>) -> usize;

/// `ratatui::text::Text::from(s).width()`: the width of the widest line of
/// a text, a function of the text alone.
#[verifier::external_body]
fn measure_text(s: &str) -> (r: usize)
    ensures
        r == text_width(s@),
{
    ratatui::text::Text::from(s).width()
}

/// `ratatui::text::Line::from(spans).width()`: the width of a line made of
/// spans, a function of their texts alone.
#[verifier::external_body]
fn measure_line(spans: &[String]) -> (r: usize)
    ensures
        r == line_width(strings_view(spans@)),
{
    let spans: Vec<ratatui::text::Span> = spans.iter().map(|s| ratatui::text::Span::raw(s.as_str())).collect();
    ratatui::text::Line::from(spans).width()
}

/// Height of the borders of a widget with a title, none without.
pub open spec fn borders_of(title: Option<&'static str>) -> u16 {
    if title is Some { (2 * BORDER_SIZE) as u16 } else { 0 }
}

/// Width inside the borders.
pub open spec fn inner_width(title: Option<&'static str>, width: u16) -> int {
    if width >= borders_of(title) { width - borders_of(title) } else { 0 }
}

/// Lines needed for a text of a given length wrapped in a width, with the
/// borders.
pub open spec fn wrapped_height(text_length: u16, title: Option<&'static str>, width: u16) -> int {
    let inner = inner_width(title, width);
    (text_length + inner - 1) / inner + borders_of(title)
}

/// Separator before the entry at `index` of a menu line.
pub open spec fn menu_separator(index: int) -> Seq<char> {
    if index == 0 { Seq::empty() } else { seq![' ', ' '] }
}

/// Spans of a menu line: for each entry a separator, the key and the label.
pub open spec fn menu_spans(entries: Seq<MenuEntry>) -> Seq<Seq<char>>
    decreases entries.len(),
{
    if entries.len() == 0 {
        Seq::empty()
    } else {
        let last = entries.last();
        menu_spans(entries.drop_last()) + seq![
            menu_separator(entries.len() - 1),
            last.spec_key(),
            seq![' '] + last.spec_label()@,
        ]
    }
}

/// A text on one line that wraps when the screen is too narrow, in a box
/// when it has a title.
pub struct OneLineWidget {
    pub spans: Vec<String>,
    pub text_length: u16,
    pub title: Option<&'static str>,
}

impl OneLineWidget {
    /// A text.
    pub fn new(text: &str, title: Option<&'static str>) -> (w: Self)
        ensures
            strings_view(w.spans@) == seq![text@],
            w.text_length == text_width(text@) as u16,
            w.title == title,
    {
        let width = measure_text(text);
        let spans = vec![to_string(text)];
        assert(strings_view(spans@) =~= seq![text@]);
        OneLineWidget { spans, text_length: #[verifier::truncate] (width as u16), title }
    }

    /// The keys and labels of a menu.
    pub fn with_menu(entries: &[MenuEntry]) -> (w: Self)
        ensures
            strings_view(w.spans@) == menu_spans(entries@),
            w.text_length == line_width(menu_spans(entries@)) as u16,
            w.title is None,
    {
        let mut spans: Vec<String> = Vec::new();
        let mut i: usize = 0;
        while i < entries.len()
            invariant
                i <= entries@.len(),
                strings_view(spans@) == menu_spans(entries@.take(i as int)),
            decreases entries@.len() - i,
        {
            let entry = &entries[i];
            let sep = if i == 0 { String::new() } else { to_string("  ") };
            let mut label = String::new();
            push_char(&mut label, ' ');
            push_str(&mut label, *entry.label());
            let key = entry.key().clone();
            proof {
                reveal_strlit("  ");
                assert(sep@ == menu_separator(i as int));
                assert(label@ =~= seq![' '] + entry.spec_label()@);
                assert(key@ == entry.spec_key());
            }
            let ghost before = spans@;
            spans.push(sep);
            spans.push(key);
            spans.push(label);
            proof {
                assert(entries@.take(i + 1).drop_last() =~= entries@.take(i as int));
                assert(strings_view(spans@) =~= strings_view(before) + seq![
                    menu_separator(i as int),
                    entry.spec_key(),
                    seq![' '] + entry.spec_label()@,
                ]);
            }
            i = i + 1;
        }
        assert(entries@.take(entries@.len() as int) =~= entries@);
        let width = measure_line(spans.as_slice());
        OneLineWidget { spans, text_length: #[verifier::truncate] (width as u16), title: None }
    }

    /// Whether the height that the widget asks for in an area can be
    /// computed: some width is left inside the borders, and the count fits.
    pub open spec fn fits(&self, area: Rect) -> bool {
        &&& inner_width(self.title, area.width) > 0
        &&& wrapped_height(self.text_length, self.title, area.width) <= u16::MAX
    }

    /// Lines needed to show the whole text in an area.
    pub fn min_height(&self, area: Rect) -> (h: u16)
        requires
            self.fits(area),
        ensures
            h == wrapped_height(self.text_length, self.title, area.width),
    {
        let borders: u16 = if self.title.is_some() { 2 * BORDER_SIZE } else { 0 };
        let inner = if area.width >= borders { area.width - borders } else { 0 };
        let lines: u32 = (self.text_length as u32 + inner as u32 - 1) / inner as u32;
        (lines as u16) + borders
    }
}

/// Named values in a box with a title.
pub struct FieldsWidget {
    pub title: &'static str,
    pub lines: Vec<(&'static str, String)>,
}

impl FieldsWidget {
    pub fn new(title: &'static str, lines: Vec<(&'static str, String)>) -> (w: Self)
        ensures
            w.title == title,
            w.lines == lines,
    {
        FieldsWidget { title, lines }
    }

    /// One line per field and the borders, within the area.
    pub fn min_height(&self, area: Rect) -> (h: u16)
        requires
            self.lines@.len() + 2 * BORDER_SIZE <= u16::MAX,
        ensures
            h == if self.lines@.len() + 2 * BORDER_SIZE < area.height {
                self.lines@.len() + 2 * BORDER_SIZE
            } else {
                area.height as int
            },
    {
        let wanted = self.lines.len() as u16 + BORDER_SIZE * 2;
        if wanted < area.height { wanted } else { area.height }
    }
}

/// What the details pane shows of a process. The metrics are their first
/// formatted value, none when the process has none.
pub struct ProcessDetailsText {
    pub name: String,
    pub command: String,
    pub directory: String,
    pub pid: i32,
    pub parent_pid: i32,
    pub uid: Option<u32>,
    pub thread_count: Option<String>,
    pub fd_all: Option<String>,
    pub fd_file: Option<String>,
    pub io_read_total: Option<String>,
    pub io_write_total: Option<String>,
    pub time_cpu: Option<String>,
    pub time_elapsed: Option<String>,
    pub mem_vm: Option<String>,
    pub mem_rss: Option<String>,
    pub mem_data: Option<String>,
}

/// A value, or `<unknown>`.
pub open spec fn optional_text(option: Option<Seq<char>>) -> Seq<char> {
    match option {
        Some(value) => value,
        None => "<unknown>"@,
    }
}

/// View of an optional string.
pub open spec fn option_view(option: Option<String>) -> Option<Seq<char>> {
    match option {
        Some(s) => Some(s@),
        None => None,
    }
}

/// A value, or `<unknown>`.
pub fn format_option(option: &Option<String>) -> (s: String)
    ensures
        s@ == optional_text(option_view(*option)),
{
    match option {
        Some(value) => value.clone(),
        None => to_string("<unknown>"),
    }
}

/// The widgets of the details pane.
pub struct DetailsWidgets {
    pub command: OneLineWidget,
    pub directory: OneLineWidget,
    pub process: FieldsWidget,
    pub files: FieldsWidget,
    pub time: FieldsWidget,
    pub memory: FieldsWidget,
}

/// Views of named fields.
pub open spec fn fields_view(lines: Seq<(&'static str, String)>) -> Seq<(Seq<char>, Seq<char>)> {
    lines.map_values(|l: (&'static str, String)| (l.0@, l.1@))
}

/// Fields of the process box.
pub open spec fn process_fields(d: ProcessDetailsText) -> Seq<(Seq<char>, Seq<char>)> {
    seq![
        ("Name"@, seq![' '] + d.name@ + seq![' ']),
        ("Process ID"@, int_decimal(d.pid as int)),
        ("Parent ID"@, int_decimal(d.parent_pid as int)),
        ("Owner"@, optional_text(match d.uid { Some(u) => Some(decimal(u as nat)), None => None })),
        ("Threads"@, optional_text(option_view(d.thread_count))),
    ]
}

/// Fields of the files box.
pub open spec fn file_fields(d: ProcessDetailsText) -> Seq<(Seq<char>, Seq<char>)> {
    seq![
        ("Descriptors"@, optional_text(option_view(d.fd_all))),
        ("Files"@, optional_text(option_view(d.fd_file))),
        ("I/O Read"@, optional_text(option_view(d.io_read_total))),
        ("I/O Write"@, optional_text(option_view(d.io_write_total))),
    ]
}

/// Fields of the time box.
pub open spec fn time_fields(d: ProcessDetailsText) -> Seq<(Seq<char>, Seq<char>)> {
    seq![
        ("CPU"@, optional_text(option_view(d.time_cpu))),
        ("Elapsed"@, optional_text(option_view(d.time_elapsed))),
    ]
}

/// Fields of the memory box.
pub open spec fn memory_fields(d: ProcessDetailsText) -> Seq<(Seq<char>, Seq<char>)> {
    seq![
        ("VM"@, optional_text(option_view(d.mem_vm))),
        ("RSS"@, optional_text(option_view(d.mem_rss))),
        ("Data"@, optional_text(option_view(d.mem_data))),
    ]
}

/// The widgets that show the details of a process.
pub fn details_widgets(d: &ProcessDetailsText) -> (w: DetailsWidgets)
    ensures
        strings_view(w.command.spans@) == seq![d.command@],
        w.command.text_length == text_width(d.command@) as u16,
        w.command.title == Some("Command"),
        strings_view(w.directory.spans@) == seq![d.directory@],
        w.directory.text_length == text_width(d.directory@) as u16,
        w.directory.title == Some("Working Directory"),
        w.process.title == "Process",
        fields_view(w.process.lines@) == process_fields(*d),
        w.files.title == "Files",
        fields_view(w.files.lines@) == file_fields(*d),
        w.time.title == "Time",
        fields_view(w.time.lines@) == time_fields(*d),
        w.memory.title == "Memory",
        fields_view(w.memory.lines@) == memory_fields(*d),
{
    let command = OneLineWidget::new(d.command.as_str(), Some("Command"));
    let directory = OneLineWidget::new(d.directory.as_str(), Some("Working Directory"));
    let mut name = String::new();
    push_char(&mut name, ' ');
    push_str(&mut name, d.name.as_str());
    push_char(&mut name, ' ');
    let owner = match d.uid {
        Some(uid) => u64_string(uid as u64),
        None => to_string("<unknown>"),
    };
    let process = vec![
        ("Name", name),
        ("Process ID", i32_string(d.pid)),
        ("Parent ID", i32_string(d.parent_pid)),
        ("Owner", owner),
        ("Threads", format_option(&d.thread_count)),
    ];
    let files = vec![
        ("Descriptors", format_option(&d.fd_all)),
        ("Files", format_option(&d.fd_file)),
        ("I/O Read", format_option(&d.io_read_total)),
        ("I/O Write", format_option(&d.io_write_total)),
    ];
    let time = vec![("CPU", format_option(&d.time_cpu)), ("Elapsed", format_option(&d.time_elapsed))];
    let memory = vec![
        ("VM", format_option(&d.mem_vm)),
        ("RSS", format_option(&d.mem_rss)),
        ("Data", format_option(&d.mem_data)),
    ];
    proof {
        assert(name@ =~= seq![' '] + d.name@ + seq![' ']);
        assert(fields_view(process@) =~= process_fields(*d));
        assert(fields_view(files@) =~= file_fields(*d));
        assert(fields_view(time@) =~= time_fields(*d));
        assert(fields_view(memory@) =~= memory_fields(*d));
    }
    DetailsWidgets {
        command,
        directory,
        process: FieldsWidget::new("Process", process),
        files: FieldsWidget::new("Files", files),
        time: FieldsWidget::new("Time", time),
        memory: FieldsWidget::new("Memory", memory),
    }
}

} // verus!
