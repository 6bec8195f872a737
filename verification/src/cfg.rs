//! Settings read from the configuration file: their kinds, defaults and the
//! rules that turn sections and options into settings.

use vstd::prelude::*;
use crate::strings::{str_eq, to_string, str_chars, parse_usize_chars, spec_parse_usize};
use crate::parsers::{parse_size, spec_parse_size};

verus! {

/// Verbosity of the log.
#[derive(Clone, Copy, Debug, PartialEq, Eq, Structural)]
pub enum LoggingLevel {
    Error,
    Warning,
    Info,
    Debug,
}

/// Name of a logging level in the configuration.
pub open spec fn logging_level_name(l: LoggingLevel) -> Seq<char> {
    match l {
        LoggingLevel::Error => "error"@,
        LoggingLevel::Warning => "warning"@,
        LoggingLevel::Info => "info"@,
        LoggingLevel::Debug => "debug"@,
    }
}

impl LoggingLevel {
    /// Logging level from its name.
    pub fn from_str(s: &str) -> (r: Result<LoggingLevel, ()>)
        ensures
            r matches Ok(l) ==> logging_level_name(l) == s@,
            r is Err <==> (forall|l: LoggingLevel| logging_level_name(l) != s@),
    {
        if str_eq(s, "error") {
            assert(logging_level_name(LoggingLevel::Error) == s@);
            Ok(LoggingLevel::Error)
        } else if str_eq(s, "warning") {
            assert(logging_level_name(LoggingLevel::Warning) == s@);
            Ok(LoggingLevel::Warning)
        } else if str_eq(s, "info") {
            assert(logging_level_name(LoggingLevel::Info) == s@);
            Ok(LoggingLevel::Info)
        } else if str_eq(s, "debug") {
            assert(logging_level_name(LoggingLevel::Debug) == s@);
            Ok(LoggingLevel::Debug)
        } else {
            assert forall|l: LoggingLevel| logging_level_name(l) != s@ by {
                match l {
                    LoggingLevel::Error => {},
                    LoggingLevel::Warning => {},
                    LoggingLevel::Info => {},
                    LoggingLevel::Debug => {},
                }
            }
            Err(())
        }
    }
}

/// How metrics are displayed.
#[derive(Clone, Copy, Debug, PartialEq, Eq, Structural)]
pub enum DisplayMode {
    /// No display, only export.
    NoDisplay,
    /// Pick up the best available display mode.
    Any,
    /// Scrolling text.
    Text,
    /// Terminal User Interface.
    Terminal,
}

/// Name of a display mode in the configuration.
pub open spec fn display_mode_name(m: DisplayMode) -> Seq<char> {
    match m {
        DisplayMode::NoDisplay => "none"@,
        DisplayMode::Any => "any"@,
        DisplayMode::Text => "text"@,
        DisplayMode::Terminal => "term"@,
    }
}

impl DisplayMode {
    /// Name of the display mode.
    pub fn as_str(self) -> (s: &'static str)
        ensures
            s@ == display_mode_name(self),
    {
        match self {
            DisplayMode::NoDisplay => "none",
            DisplayMode::Any => "any",
            DisplayMode::Text => "text",
            DisplayMode::Terminal => "term",
        }
    }

    /// Display mode from its name.
    pub fn from_str(s: &str) -> (r: Result<DisplayMode, ()>)
        ensures
            r matches Ok(m) ==> display_mode_name(m) == s@,
            r is Err <==> (forall|m: DisplayMode| display_mode_name(m) != s@),
    {
        if str_eq(s, "none") {
            assert(display_mode_name(DisplayMode::NoDisplay) == s@);
            Ok(DisplayMode::NoDisplay)
        } else if str_eq(s, "any") {
            assert(display_mode_name(DisplayMode::Any) == s@);
            Ok(DisplayMode::Any)
        } else if str_eq(s, "text") {
            assert(display_mode_name(DisplayMode::Text) == s@);
            Ok(DisplayMode::Text)
        } else if str_eq(s, "term") {
            assert(display_mode_name(DisplayMode::Terminal) == s@);
            Ok(DisplayMode::Terminal)
        } else {
            assert forall|m: DisplayMode| display_mode_name(m) != s@ by {
                match m {
                    DisplayMode::NoDisplay => {},
                    DisplayMode::Any => {},
                    DisplayMode::Text => {},
                    DisplayMode::Terminal => {},
                }
            }
            Err(())
        }
    }
}

/// Kind of export.
#[derive(Clone, Copy, Debug, PartialEq, Eq, Structural)]
pub enum ExportType {
    /// No export.
    NoExport,
    /// Comma separated values.
    Csv,
    /// Tab separated values.
    Tsv,
    /// Round Robin database.
    Rrd,
    /// Round Robin database with graphs.
    RrdGraph,
}

/// Name of an export type in the configuration.
pub open spec fn export_type_name(t: ExportType) -> Seq<char> {
    match t {
        ExportType::NoExport => "none"@,
        ExportType::Csv => "csv"@,
        ExportType::Tsv => "tsv"@,
        ExportType::Rrd => "rrd"@,
        ExportType::RrdGraph => "rrd-graph"@,
    }
}

impl ExportType {
    /// Name of the export type.
    pub fn as_str(self) -> (s: &'static str)
        ensures
            s@ == export_type_name(self),
    {
        match self {
            ExportType::NoExport => "none",
            ExportType::Csv => "csv",
            ExportType::Tsv => "tsv",
            ExportType::Rrd => "rrd",
            ExportType::RrdGraph => "rrd-graph",
        }
    }

    /// Export type from its name.
    pub fn from_str(s: &str) -> (r: Result<ExportType, ()>)
        ensures
            r matches Ok(t) ==> export_type_name(t) == s@,
            r is Err <==> (forall|t: ExportType| export_type_name(t) != s@),
    {
        if str_eq(s, "none") {
            assert(export_type_name(ExportType::NoExport) == s@);
            Ok(ExportType::NoExport)
        } else if str_eq(s, "csv") {
            assert(export_type_name(ExportType::Csv) == s@);
            Ok(ExportType::Csv)
        } else if str_eq(s, "tsv") {
            assert(export_type_name(ExportType::Tsv) == s@);
            Ok(ExportType::Tsv)
        } else if str_eq(s, "rrd") {
            assert(export_type_name(ExportType::Rrd) == s@);
            Ok(ExportType::Rrd)
        } else if str_eq(s, "rrd-graph") {
            assert(export_type_name(ExportType::RrdGraph) == s@);
            Ok(ExportType::RrdGraph)
        } else {
            assert forall|t: ExportType| export_type_name(t) != s@ by {
                match t {
                    ExportType::NoExport => {},
                    ExportType::Csv => {},
                    ExportType::Tsv => {},
                    ExportType::Rrd => {},
                    ExportType::RrdGraph => {},
                }
            }
            Err(())
        }
    }
}

/// Errors in the configuration file; each holds the offending text.
pub enum ConfigError {
    InvalidSection(String),
    InvalidOption(String),
    InvalidParameter(String),
    UnknownExportType(String),
}

/// Kind of a configuration error.
#[derive(Clone, Copy, Debug, PartialEq, Eq, Structural)]
pub enum ConfigErrorKind {
    InvalidSection,
    InvalidOption,
    InvalidParameter,
    UnknownExportType,
}

impl View for ConfigError {
    type V = (ConfigErrorKind, Seq<char>);

    open spec fn view(&self) -> (ConfigErrorKind, Seq<char>) {
        match self {
            ConfigError::InvalidSection(s) => (ConfigErrorKind::InvalidSection, s@),
            ConfigError::InvalidOption(s) => (ConfigErrorKind::InvalidOption, s@),
            ConfigError::InvalidParameter(s) => (ConfigErrorKind::InvalidParameter, s@),
            ConfigError::UnknownExportType(s) => (ConfigErrorKind::UnknownExportType, s@),
        }
    }
}

/// Parameters for export.
pub struct ExportSettings {
    /// Export type.
    pub kind: ExportType,
    /// Export directory.
    pub dir: String,
    /// Maximum exported file size.
    pub size: Option<u64>,
    /// Maximum number of files.
    pub count: Option<usize>,
}

impl ExportSettings {
    /// No export, in the current directory, without limits.
    pub fn new() -> (s: ExportSettings)
        ensures
            s.kind == ExportType::NoExport,
            s.dir@ == "."@,
            s.size.is_none(),
            s.count.is_none(),
    {
        ExportSettings { kind: ExportType::NoExport, dir: to_string("."), size: None, count: None }
    }

    /// Apply an option of the export section.
    pub fn set_option(&mut self, key: &str, value: &str) -> (r: Result<(), ConfigError>)
        ensures
            key@ == "kind"@ ==> match r {
                Ok(_) => final(self).dir == old(self).dir && final(self).size == old(self).size
                    && final(self).count == old(self).count && export_type_name(final(self).kind) == value@,
                Err(e) => *final(self) == *old(self) && e@ == (ConfigErrorKind::UnknownExportType, value@)
                    && forall|t: ExportType| export_type_name(t) != value@,
            },
            (key@ == "dir"@ || key@ == "directory"@) ==> r is Ok && final(self).dir@ == value@
                && final(self).kind == old(self).kind && final(self).size == old(self).size
                && final(self).count == old(self).count,
            key@ == "size"@ ==> match spec_parse_size(value@) {
                Some(n) => r is Ok && final(self).size == Some(n) && final(self).kind == old(self).kind
                    && final(self).dir == old(self).dir && final(self).count == old(self).count,
                None => *final(self) == *old(self) && (r matches Err(e) && e@ == (ConfigErrorKind::InvalidParameter, key@)),
            },
            key@ == "count"@ ==> match spec_parse_usize(value@) {
                Some(n) => r is Ok && final(self).count == Some(n) && final(self).kind == old(self).kind
                    && final(self).dir == old(self).dir && final(self).size == old(self).size,
                None => *final(self) == *old(self) && (r matches Err(e) && e@ == (ConfigErrorKind::InvalidParameter, key@)),
            },
            key@ != "kind"@ && key@ != "dir"@ && key@ != "directory"@ && key@ != "size"@ && key@ != "count"@
                ==> *final(self) == *old(self) && (r matches Err(e) && e@ == (ConfigErrorKind::InvalidOption, key@)),
    {
        proof {
            reveal_strlit("kind");
            reveal_strlit("dir");
            reveal_strlit("directory");
            reveal_strlit("size");
            reveal_strlit("count");
            assert("kind"@ != "size"@) by { assert("kind"@[0] != "size"@[0]); }
            assert("kind"@.len() == 4 && "size"@.len() == 4 && "count"@.len() == 5);
            assert("dir"@.len() == 3 && "directory"@.len() == 9);
            assert("kind"@ != "count"@ && "kind"@ != "dir"@ && "kind"@ != "directory"@);
            assert("size"@ != "count"@ && "size"@ != "dir"@ && "size"@ != "directory"@);
            assert("count"@ != "dir"@ && "count"@ != "directory"@ && "dir"@ != "directory"@);
        }
        if str_eq(key, "kind") {
            match ExportType::from_str(value) {
                Ok(kind) => {
                    self.kind = kind;
                    Ok(())
                },
                Err(_) => Err(ConfigError::UnknownExportType(to_string(value))),
            }
        } else if str_eq(key, "dir") || str_eq(key, "directory") {
            self.dir = to_string(value);
            Ok(())
        } else if str_eq(key, "size") {
            match parse_size(value) {
                Ok(n) => {
                    self.size = Some(n);
                    Ok(())
                },
                Err(_) => Err(ConfigError::InvalidParameter(to_string(key))),
            }
        } else if str_eq(key, "count") {
            let cs = str_chars(value);
            match parse_usize_chars(cs.as_slice()) {
                Some(n) => {
                    self.count = Some(n);
                    Ok(())
                },
                None => Err(ConfigError::InvalidParameter(to_string(key))),
            }
        } else {
            Err(ConfigError::InvalidOption(to_string(key)))
        }
    }
}

/// Parameters for logging.
pub struct LoggingSettings {
    /// Logging file.
    pub file: Option<String>,
    /// Logging level.
    pub level: LoggingLevel,
}

impl LoggingSettings {
    /// No log file, warnings and errors only.
    pub fn new() -> (s: LoggingSettings)
        ensures
            s.file.is_none(),
            s.level == LoggingLevel::Warning,
    {
        LoggingSettings { file: None, level: LoggingLevel::Warning }
    }

    /// Apply an option of the logging section.
    pub fn set_option(&mut self, key: &str, value: &str) -> (r: Result<(), ConfigError>)
        ensures
            key@ == "file"@ ==> r is Ok && final(self).level == old(self).level
                && (final(self).file matches Some(f) && f@ == value@),
            key@ == "level"@ ==> match r {
                Ok(_) => final(self).file == old(self).file
                    && logging_level_name(final(self).level) == value@,
                Err(e) => *final(self) == *old(self)
                    && e@ == (ConfigErrorKind::InvalidParameter, key@)
                    && forall|l: LoggingLevel| logging_level_name(l) != value@,
            },
            key@ != "file"@ && key@ != "level"@ ==> *final(self) == *old(self)
                && (r matches Err(e) && e@ == (ConfigErrorKind::InvalidOption, key@)),
    {
        proof {
            reveal_strlit("file");
            reveal_strlit("level");
            assert("file"@.len() != "level"@.len());
        }
        if str_eq(key, "file") {
            self.file = Some(to_string(value));
            Ok(())
        } else if str_eq(key, "level") {
            match LoggingLevel::from_str(value) {
                Ok(level) => {
                    self.level = level;
                    Ok(())
                },
                Err(_) => Err(ConfigError::InvalidParameter(to_string(key))),
            }
        } else {
            Err(ConfigError::InvalidOption(to_string(key)))
        }
    }
}

/// Parameters for special targets.
pub struct TargetSettings {
    /// Include system metrics.
    pub system: bool,
    /// Include this process metrics.
    pub myself: bool,
}

impl TargetSettings {
    /// No special target.
    pub fn new() -> (s: TargetSettings)
        ensures
            !s.system,
            !s.myself,
    {
        TargetSettings { system: false, myself: false }
    }

    /// Apply an option of the targets section.
    pub fn set_option(&mut self, key: &str, value: &str) -> (r: Result<(), ConfigError>)
        ensures
            key@ == "system"@ ==> match spec_parse_bool(value@) {
                Some(b) => r is Ok && final(self).system == b && final(self).myself == old(self).myself,
                None => r matches Err(e) && e@ == (ConfigErrorKind::InvalidParameter, key@)
                    && *final(self) == *old(self),
            },
            key@ == "myself"@ ==> match spec_parse_bool(value@) {
                Some(b) => r is Ok && final(self).myself == b && final(self).system == old(self).system,
                None => r matches Err(e) && e@ == (ConfigErrorKind::InvalidParameter, key@)
                    && *final(self) == *old(self),
            },
            key@ != "system"@ && key@ != "myself"@ ==> *final(self) == *old(self)
                && (r matches Err(e) && e@ == (ConfigErrorKind::InvalidOption, key@)),
    {
        proof {
            reveal_strlit("system");
            reveal_strlit("myself");
            assert("system"@[0] != "myself"@[0]);
        }
        if str_eq(key, "system") {
            match parse_bool(key, value) {
                Ok(b) => {
                    self.system = b;
                    Ok(())
                },
                Err(e) => Err(e),
            }
        } else if str_eq(key, "myself") {
            match parse_bool(key, value) {
                Ok(b) => {
                    self.myself = b;
                    Ok(())
                },
                Err(e) => Err(e),
            }
        } else {
            Err(ConfigError::InvalidOption(to_string(key)))
        }
    }
}

/// Boolean value of an option: `yes` or `true`, `no` or `false`.
pub open spec fn spec_parse_bool(value: Seq<char>) -> Option<bool> {
    if value == "yes"@ || value == "true"@ {
        Some(true)
    } else if value == "no"@ || value == "false"@ {
        Some(false)
    } else {
        None
    }
}

/// Boolean value of option `key`; an invalid parameter otherwise.
pub fn parse_bool(key: &str, value: &str) -> (r: Result<bool, ConfigError>)
    ensures
        match spec_parse_bool(value@) {
            Some(b) => r matches Ok(v) && v == b,
            None => r matches Err(e) && e@ == (ConfigErrorKind::InvalidParameter, key@),
        },
{
    if str_eq(value, "yes") || str_eq(value, "true") {
        Ok(true)
    } else if str_eq(value, "no") || str_eq(value, "false") {
        Ok(false)
    } else {
        Err(ConfigError::InvalidParameter(to_string(key)))
    }
}

/// Sections of the configuration file.
#[derive(Clone, Copy, Debug, PartialEq, Eq, Structural)]
pub enum ConfigSection {
    Display,
    Export,
    Logging,
    Targets,
}

/// Name of a section in the configuration file.
pub open spec fn section_name(s: ConfigSection) -> Seq<char> {
    match s {
        ConfigSection::Display => "display"@,
        ConfigSection::Export => "export"@,
        ConfigSection::Logging => "logging"@,
        ConfigSection::Targets => "targets"@,
    }
}

impl ConfigSection {
    /// Section from its name; an invalid section otherwise.
    pub fn from_name(name: &str) -> (r: Result<ConfigSection, ConfigError>)
        ensures
            match r {
                Ok(s) => section_name(s) == name@,
                Err(e) => e@ == (ConfigErrorKind::InvalidSection, name@)
                    && forall|s: ConfigSection| section_name(s) != name@,
            },
    {
        if str_eq(name, "display") {
            Ok(ConfigSection::Display)
        } else if str_eq(name, "export") {
            Ok(ConfigSection::Export)
        } else if str_eq(name, "logging") {
            Ok(ConfigSection::Logging)
        } else if str_eq(name, "targets") {
            Ok(ConfigSection::Targets)
        } else {
            assert forall|s: ConfigSection| section_name(s) != name@ by {
                match s {
                    ConfigSection::Display => {},
                    ConfigSection::Export => {},
                    ConfigSection::Logging => {},
                    ConfigSection::Targets => {},
                }
            }
            Err(ConfigError::InvalidSection(to_string(name)))
        }
    }
}

/// Names of the logging levels are distinct, so a level read back from
/// its name is the same level.
pub proof fn law_logging_level_names_distinct(a: LoggingLevel, b: LoggingLevel)
    ensures
        logging_level_name(a) == logging_level_name(b) ==> a == b,
{
    reveal_strlit("error");
    reveal_strlit("warning");
    reveal_strlit("info");
    reveal_strlit("debug");
    if a != b {
        assert(logging_level_name(a) != logging_level_name(b)) by {
            if logging_level_name(a).len() == logging_level_name(b).len() {
                assert(logging_level_name(a)[0] != logging_level_name(b)[0]);
            }
        }
    }
}

/// Whether values are shown with units: `units` or `human` say yes, `raw`
/// says no, anything else is refused.
pub fn parse_format(value: &str) -> (r: Result<bool, ()>)
    ensures
        r == if value@ == "units"@ || value@ == "human"@ {
            Ok::<bool, ()>(true)
        } else if value@ == "raw"@ {
            Ok::<bool, ()>(false)
        } else {
            Err::<bool, ()>(())
        },
{
    if str_eq(value, "units") || str_eq(value, "human") {
        Ok(true)
    } else if str_eq(value, "raw") {
        Ok(false)
    } else {
        Err(())
    }
}

} // verus!
