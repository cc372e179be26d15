//! Settings read at startup: logging and the serial ports to scan. Missing
//! sections and fields take their defaults; a field of the wrong shape is an
//! error.
use vstd::prelude::*;
use vstd::string::*;

use crate::protocol::{verb_is, verb_matches};
use toml::Value as TomlValue;

verus! {

/// A field of a TOML table, as far as settings read it: a string, an array
/// (each item's text, or nothing where an item is not a string), or any
/// other value.
pub enum TomlField {
    Text(String),
    List(Vec<Option<String>>),
    Other,
}

/// The sections of a TOML document, in the document's key order: each with
/// its fields, or nothing where the section is not a table.
pub type TomlDoc = Vec<(String, Option<Vec<(String, TomlField)>>)>;

/// The document that a TOML text holds, down to the fields of its sections;
/// nothing where the text is not TOML.
pub uninterp spec fn toml_of(text: Seq<char>) -> Option<TomlDoc>;

/// Relies on toml's `FromStr for Value` (with `Value::as_table`, `as_str`):
/// the parsed document, each table and array converted item for item.
#[verifier::external_body]
fn parse_toml(text: &str) -> (r: Option<TomlDoc>)
    ensures
        r == toml_of(text@),
{
    let doc = text.parse::<TomlValue>().ok()?;
    let field = |v: &TomlValue| match v {
        TomlValue::String(t) => TomlField::Text(t.clone()),
        TomlValue::Array(a) => TomlField::List(a.iter().map(|i| i.as_str().map(String::from)).collect()),
        _ => TomlField::Other,
    };
    let fields = |v: &TomlValue| v.as_table().map(|t| t.iter().map(|(k, x)| (k.clone(), field(x))).collect());
    doc.as_table().map(|t| t.iter().map(|(k, v)| (k.clone(), fields(v))).collect())
}

/// The value under the first entry keyed `key`.
pub open spec fn lookup<X>(entries: Seq<(String, X)>, key: Seq<char>) -> Option<X>
    decreases entries.len(),
{
    if entries.len() == 0 {
        None
    } else if entries[0].0@ == key {
        Some(entries[0].1)
    } else {
        lookup(entries.drop_first(), key)
    }
}

/// The value under the first entry keyed `key`.
fn find<'a, X>(entries: &'a Vec<(String, X)>, key: &str) -> (r: Option<&'a X>)
    ensures
        r matches Some(x) ==> lookup(entries@, key@) == Some(*x),
        r is None ==> lookup(entries@, key@) is None,
{
    let wanted = String::from_str(key);
    let n = entries.len();
    let mut i: usize = 0;
    assert(entries@.subrange(0, n as int) =~= entries@);
    while i < n
        invariant
            n == entries@.len(),
            i <= n,
            wanted@ == key@,
            lookup(entries@, key@) == lookup(entries@.subrange(i as int, n as int), key@),
        decreases n - i,
    {
        let ghost rest = entries@.subrange(i as int, n as int);
        assert(rest.drop_first() =~= entries@.subrange(i + 1, n as int));
        if entries[i].0.eq(&wanted) {
            return Some(&entries[i].1);
        }
        i = i + 1;
    }
    None
}

/// The field `key` of section `section`, if the section is a table holding it.
pub open spec fn field_of(doc: TomlDoc, section: Seq<char>, key: Seq<char>) -> Option<TomlField> {
    match lookup(doc@, section) {
        Some(Some(fields)) => lookup(fields@, key),
        _ => None,
    }
}

/// The text of a field that is a string; any other field counts as absent.
pub open spec fn text_field(doc: TomlDoc, section: Seq<char>, key: Seq<char>) -> Option<String> {
    match field_of(doc, section, key) {
        Some(TomlField::Text(t)) => Some(t),
        _ => None,
    }
}

/// The `ports` field is absent, or an array of strings.
pub open spec fn ports_ok(f: Option<TomlField>) -> bool {
    match f {
        None => true,
        Some(TomlField::List(items)) => forall|i: int| 0 <= i < items@.len() ==> !(#[trigger] items@[i] is None),
        _ => false,
    }
}

/// The ports that a valid `ports` field names, in order.
pub open spec fn ports_match(ports: Seq<String>, f: Option<TomlField>) -> bool {
    match f {
        Some(TomlField::List(items)) => ports.len() == items@.len() && forall|i: int|
            0 <= i < items@.len() ==> items@[i] == Some(#[trigger] ports[i]),
        _ => ports.len() == 0,
    }
}

/// A text field, or its default.
pub open spec fn text_or(f: Option<String>, default: Seq<char>) -> Seq<char> {
    match f {
        Some(t) => t@,
        None => default,
    }
}

/// Why settings could not be read.
#[derive(Clone, Copy, Debug, PartialEq, Eq, Structural)]
pub enum Error {
    /// The text is not TOML.
    CannotParse,
    /// A section holds a field of the wrong shape or value.
    CannotDecode,
}

/// How much is logged.
#[derive(Clone, Copy, Debug, PartialEq, Eq, Structural)]
pub enum LogLevel {
    Off,
    Error,
    Warn,
    Info,
    Debug,
    Trace,
}

/// The names of the levels, matched without regard to case.
pub open spec fn level_named(s: Seq<char>) -> Option<LogLevel> {
    if verb_is(s, "OFF"@) {
        Some(LogLevel::Off)
    } else if verb_is(s, "ERROR"@) {
        Some(LogLevel::Error)
    } else if verb_is(s, "WARN"@) {
        Some(LogLevel::Warn)
    } else if verb_is(s, "INFO"@) {
        Some(LogLevel::Info)
    } else if verb_is(s, "DEBUG"@) {
        Some(LogLevel::Debug)
    } else if verb_is(s, "TRACE"@) {
        Some(LogLevel::Trace)
    } else {
        None
    }
}

impl LogLevel {
    pub fn from_name(s: &str) -> (r: Option<LogLevel>)
        ensures
            r == level_named(s@),
    {
        if verb_matches(s, "OFF") {
            Some(LogLevel::Off)
        } else if verb_matches(s, "ERROR") {
            Some(LogLevel::Error)
        } else if verb_matches(s, "WARN") {
            Some(LogLevel::Warn)
        } else if verb_matches(s, "INFO") {
            Some(LogLevel::Info)
        } else if verb_matches(s, "DEBUG") {
            Some(LogLevel::Debug)
        } else if verb_matches(s, "TRACE") {
            Some(LogLevel::Trace)
        } else {
            None
        }
    }
}

pub const DEFAULT_LOGGING_PATTERN: &'static str = "%d{%Y/%m/%d %H:%M:%S.%f} - [%l] [%M]: %m";

pub const DEFAULT_LOGGING_FILE: &'static str = "Modules/flightvars.log";

pub struct LoggingSettings {
    pub level: LogLevel,
    pub pattern: String,
    pub file: String,
}

impl Default for LoggingSettings {
    fn default() -> (r: LoggingSettings)
        ensures
            r.level == LogLevel::Info,
            r.pattern@ == DEFAULT_LOGGING_PATTERN@,
            r.file@ == DEFAULT_LOGGING_FILE@,
    {
        LoggingSettings {
            level: LogLevel::Info,
            pattern: String::from_str(DEFAULT_LOGGING_PATTERN),
            file: String::from_str(DEFAULT_LOGGING_FILE),
        }
    }
}

impl LoggingSettings {
    /// Logging settings from the fields that the section holds: each absent
    /// field takes its default, and a level must be one of the known names.
    pub fn from_fields(level: Option<String>, pattern: Option<String>, file: Option<String>) -> (r: Result<
        LoggingSettings,
        Error,
    >)
        ensures
            r is Err <==> (level matches Some(l) && level_named(l@) is None),
            r matches Err(e) ==> e == Error::CannotDecode,
            r matches Ok(s) ==> {
                &&& s.level == match level {
                    Some(l) => level_named(l@)->Some_0,
                    None => LogLevel::Info,
                }
                &&& s.pattern@ == match pattern {
                    Some(p) => p@,
                    None => DEFAULT_LOGGING_PATTERN@,
                }
                &&& s.file@ == match file {
                    Some(f) => f@,
                    None => DEFAULT_LOGGING_FILE@,
                }
            },
    {
        let mut result = LoggingSettings::default();
        match level {
            Some(l) => match LogLevel::from_name(l.as_str()) {
                Some(v) => {
                    result.level = v;
                },
                None => {
                    return Err(Error::CannotDecode);
                },
            },
            None => {},
        }
        match pattern {
            Some(p) => {
                result.pattern = p;
            },
            None => {},
        }
        match file {
            Some(f) => {
                result.file = f;
            },
            None => {},
        }
        Ok(result)
    }
}

pub struct OacspSerialSettings {
    pub ports: Vec<String>,
}

impl Default for OacspSerialSettings {
    fn default() -> (r: OacspSerialSettings)
        ensures
            r.ports@.len() == 0,
    {
        OacspSerialSettings { ports: Vec::new() }
    }
}

impl OacspSerialSettings {
    /// Serial settings from a present `ports` field, read as a list whose
    /// items are names, or nothing where an item is not a string.
    pub fn from_ports(items: &Vec<Option<String>>) -> (r: Result<OacspSerialSettings, Error>)
        ensures
            r is Err <==> exists|i: int| 0 <= i < items@.len() && #[trigger] items@[i] is None,
            r matches Err(e) ==> e == Error::CannotDecode,
            r matches Ok(s) ==> s.ports@.len() == items@.len() && forall|i: int|
                0 <= i < items@.len() ==> items@[i] == Some(#[trigger] s.ports@[i]),
    {
        let mut out: Vec<String> = Vec::new();
        let mut i: usize = 0;
        while i < items.len()
            invariant
                i <= items@.len(),
                out@.len() == i,
                forall|k: int| 0 <= k < i ==> items@[k] == Some(#[trigger] out@[k]),
            decreases items@.len() - i,
        {
            match &items[i] {
                Some(p) => out.push(p.clone()),
                None => {
                    return Err(Error::CannotDecode);
                },
            }
            i = i + 1;
        }
        assert forall|k: int| 0 <= k < items@.len() implies !(#[trigger] items@[k] is None) by {
            assert(items@[k] == Some(out@[k]));
        }
        Ok(OacspSerialSettings { ports: out })
    }
}

pub struct Settings {
    pub logging: LoggingSettings,
    pub oacsp_serial: OacspSerialSettings,
}

impl Default for Settings {
    fn default() -> (r: Settings)
        ensures
            r.logging.level == LogLevel::Info,
            r.oacsp_serial.ports@.len() == 0,
    {
        Settings { logging: LoggingSettings::default(), oacsp_serial: OacspSerialSettings::default() }
    }
}

impl Settings {
    /// Reads settings from the text of a TOML document with optional
    /// `[logging]` and `[oacsp-serial]` sections. A missing section or field
    /// takes its default; a logging field that is not a string, or a
    /// `[logging]` that is not a table, counts as missing. Text that is not
    /// TOML is `CannotParse`; an unknown level, an `oacsp-serial` entry that
    /// is not a table, or `ports` that is not an array of strings, is
    /// `CannotDecode`.
    pub fn from_toml(text: &str) -> (r: Result<Settings, Error>)
        ensures
            toml_of(text@) is None ==> r == Err::<Settings, Error>(Error::CannotParse),
            toml_of(text@) matches Some(doc) ==> {
                let level = text_field(doc, "logging"@, "level"@);
                let ports = field_of(doc, "oacsp-serial"@, "ports"@);
                let serial = lookup(doc@, "oacsp-serial"@);
                &&& (r is Err <==> ((level matches Some(l) && level_named(l@) is None) || serial == Some(
                    None::<Vec<(String, TomlField)>>,
                ) || !ports_ok(ports)))
                &&& r matches Err(e) ==> e == Error::CannotDecode
                &&& r matches Ok(s) ==> {
                    &&& s.logging.level == match level {
                        Some(l) => level_named(l@)->Some_0,
                        None => LogLevel::Info,
                    }
                    &&& s.logging.pattern@ == text_or(
                        text_field(doc, "logging"@, "pattern"@),
                        DEFAULT_LOGGING_PATTERN@,
                    )
                    &&& s.logging.file@ == text_or(text_field(doc, "logging"@, "file"@), DEFAULT_LOGGING_FILE@)
                    &&& ports_match(s.oacsp_serial.ports@, ports)
                }
            },
    {
        let doc = match parse_toml(text) {
            Some(d) => d,
            None => {
                return Err(Error::CannotParse);
            },
        };
        let level = read_text(&doc, "logging", "level");
        let pattern = read_text(&doc, "logging", "pattern");
        let file = read_text(&doc, "logging", "file");
        let logging = match LoggingSettings::from_fields(level, pattern, file) {
            Ok(s) => s,
            Err(e) => {
                return Err(e);
            },
        };
        match find(&doc, "oacsp-serial") {
            Some(None) => {
                return Err(Error::CannotDecode);
            },
            _ => {},
        }
        let oacsp_serial = match read_field(&doc, "oacsp-serial", "ports") {
            None => OacspSerialSettings::default(),
            Some(TomlField::List(items)) => match OacspSerialSettings::from_ports(items) {
                Ok(s) => s,
                Err(e) => {
                    return Err(e);
                },
            },
            Some(_) => {
                return Err(Error::CannotDecode);
            },
        };
        Ok(Settings { logging, oacsp_serial })
    }
}

/// The field `key` of section `section`.
fn read_field<'a>(doc: &'a TomlDoc, section: &str, key: &str) -> (r: Option<&'a TomlField>)
    ensures
        r matches Some(f) ==> field_of(*doc, section@, key@) == Some(*f),
        r is None ==> field_of(*doc, section@, key@) is None,
{
    match find(doc, section) {
        Some(Some(fields)) => find(fields, key),
        _ => None,
    }
}

/// The text of field `key` of section `section`, where it is a string.
fn read_text(doc: &TomlDoc, section: &str, key: &str) -> (r: Option<String>)
    ensures
        r == text_field(*doc, section@, key@),
{
    match read_field(doc, section, key) {
        Some(TomlField::Text(t)) => Some(t.clone()),
        _ => None,
    }
}

} // verus!
