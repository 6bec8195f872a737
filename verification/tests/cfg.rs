use oprs::cfg::{ConfigError, ConfigSection, ExportSettings, ExportType, LoggingLevel, LoggingSettings, TargetSettings};
use oprs::parsers::parse_size;

#[test]
fn parse_valid_ini_sections() {
    // The export, logging and targets sections of a valid configuration.
    let mut export = ExportSettings::new();
    assert_eq!(ExportType::NoExport, export.kind);
    assert_eq!(".", export.dir);
    assert_eq!(None, export.size);
    for (key, value) in [("kind", "rrd"), ("dir", "/tmp"), ("size", "10m"), ("count", "5")] {
        assert!(export.set_option(key, value).is_ok());
    }
    assert_eq!(ExportType::Rrd, export.kind);
    assert_eq!("/tmp", export.dir);
    assert_eq!(Some(10_000_000), export.size);
    assert_eq!(Some(5), export.count);

    let mut logging = LoggingSettings::new();
    assert!(logging.set_option("file", "/var/log/oprs.log").is_ok());
    assert!(logging.set_option("level", "info").is_ok());
    assert_eq!(Some("/var/log/oprs.log".to_string()), logging.file);
    assert_eq!(LoggingLevel::Info, logging.level);

    let mut targets = TargetSettings::new();
    assert!(targets.set_option("system", "true").is_ok());
    assert!(targets.set_option("myself", "yes").is_ok());
    assert!(targets.system);
    assert!(targets.myself);

    assert!(matches!(ConfigSection::from_name("export"), Ok(ConfigSection::Export)));
}

#[test]
fn export_section_errors() {
    let mut export = ExportSettings::new();
    assert!(matches!(export.set_option("kind", "pdf"), Err(ConfigError::UnknownExportType(v)) if v == "pdf"));
    assert!(matches!(export.set_option("size", "10x"), Err(ConfigError::InvalidParameter(k)) if k == "size"));
    assert!(matches!(export.set_option("count", "-1"), Err(ConfigError::InvalidParameter(k)) if k == "count"));
    assert!(matches!(export.set_option("colour", "red"), Err(ConfigError::InvalidOption(k)) if k == "colour"));
    assert_eq!(ExportType::NoExport, export.kind);
    assert!(export.set_option("directory", "/var/tmp").is_ok());
    assert_eq!("/var/tmp", export.dir);
}

#[test]
fn sizes_with_units() {
    assert_eq!(Ok(512), parse_size("512"));
    assert_eq!(Ok(2_000), parse_size("2k"));
    assert_eq!(Ok(3_000_000_000), parse_size("3G"));
    assert_eq!(Ok(1_000_000_000_000), parse_size("1t"));
    assert_eq!(Err(()), parse_size("m"));
    assert_eq!(Err(()), parse_size("20000000t"));
    assert_eq!(Err(()), parse_size("1.5k"));
}

#[test]
fn value_formats() {
    assert_eq!(Ok(true), oprs::cfg::parse_format("units"));
    assert_eq!(Ok(true), oprs::cfg::parse_format("human"));
    assert_eq!(Ok(false), oprs::cfg::parse_format("raw"));
    assert_eq!(Err(()), oprs::cfg::parse_format("other"));
}
