use flightvars::config::{Error, LogLevel, LoggingSettings, OacspSerialSettings, Settings};

#[test]
fn config_should_load_defaults_from_empty_toml() {
    let s = Settings::from_toml("").ok().unwrap();
    assert_eq!(s.logging.level, LogLevel::Info);
}

#[test]
fn config_should_load_logging_defaults_from_empty_section() {
    let s = Settings::from_toml(
        r#"
        	[logging]
        	"#,
    )
    .ok()
    .unwrap();
    assert_eq!(s.logging.level, LogLevel::Info);
}

#[test]
fn config_should_load_logging_level() {
    let s = Settings::from_toml(
        r#"
        	[logging]
        	level = "DEBUG"
        	"#,
    )
    .ok()
    .unwrap();
    assert_eq!(s.logging.level, LogLevel::Debug);
    let s = Settings::from_toml(
        r#"
        	[logging]
        	level = "warn"
        	"#,
    )
    .ok()
    .unwrap();
    assert_eq!(s.logging.level, LogLevel::Warn);
    let s = Settings::from_toml(
        r#"
        	[logging]
        	level = "Trace"
        	"#,
    )
    .ok()
    .unwrap();
    assert_eq!(s.logging.level, LogLevel::Trace);
}

#[test]
fn config_should_load_logging_pattern() {
    let s = Settings::from_toml(
        r#"
        	[logging]
        	pattern = "the-pattern"
        	"#,
    )
    .ok()
    .unwrap();
    assert_eq!(s.logging.pattern, "the-pattern");
}

#[test]
fn should_load_logging_file() {
    let s = Settings::from_toml(
        r#"
        	[logging]
        	file = "/path/to/log/file"
        	"#,
    )
    .ok()
    .unwrap();
    assert_eq!(s.logging.file, "/path/to/log/file");
}

#[test]
fn should_load_oacsp_serial_ports() {
    let s = Settings::from_toml(
        r#"
        	[oacsp-serial]
        	ports = ["COM1", "COM2"]
        	"#,
    )
    .ok()
    .unwrap();
    assert_eq!(&s.oacsp_serial.ports, &["COM1".to_string(), "COM2".to_string()]);
}

#[test]
fn should_fail_load_oacsp_serial_invalid_ports() {
    assert!(Settings::from_toml(
        r#"
        	[oacsp-serial]
        	ports = "This is not a valid port description"
        	"#
    )
    .is_err());
}

#[test]
fn malformed_toml_and_unknown_levels_are_errors() {
    assert_eq!(Settings::from_toml("[logging").err(), Some(Error::CannotParse));
    assert_eq!(Settings::from_toml("[logging]\nlevel = \"loud\"\n").err(), Some(Error::CannotDecode));
    assert_eq!(Settings::from_toml("[oacsp-serial]\nports = [\"COM1\", 2]\n").err(), Some(Error::CannotDecode));
}

#[test]
fn field_decoders_apply_defaults() {
    let s = LoggingSettings::from_fields(None, None, Some("x.log".to_string())).ok().unwrap();
    assert_eq!(s.level, LogLevel::Info);
    assert_eq!(s.file, "x.log");
    assert_eq!(LoggingSettings::from_fields(Some("nope".to_string()), None, None).err(), Some(Error::CannotDecode));
    assert_eq!(LogLevel::from_name("oFf"), Some(LogLevel::Off));
    let ports = OacspSerialSettings::from_ports(&vec![Some("COM3".to_string()), None]);
    assert_eq!(ports.err(), Some(Error::CannotDecode));
}

#[test]
fn non_table_sections_and_non_string_fields_take_defaults() {
    let s = Settings::from_toml("logging = 3\n").ok().unwrap();
    assert_eq!(s.logging.level, LogLevel::Info);
    let s = Settings::from_toml("[logging]\nlevel = 5\nfile = \"f.log\"\n").ok().unwrap();
    assert_eq!(s.logging.level, LogLevel::Info);
    assert_eq!(s.logging.file, "f.log");
    assert!(s.oacsp_serial.ports.is_empty());
}

#[test]
fn serial_section_that_is_not_a_table_is_an_error() {
    assert_eq!(Settings::from_toml("oacsp-serial = 3\n").err(), Some(Error::CannotDecode));
}
