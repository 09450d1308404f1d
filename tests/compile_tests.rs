//! Schemas that must compile, and schemas that must be refused with the
//! error that names the problem.

use structconf::attrs::BasicOptAttrs;
use structconf::error::{Error, ErrorKind};
use structconf::schema::derive_conf;
use structconf::value::ValueType;

fn field(name: &str, ty: ValueType) -> BasicOptAttrs {
    BasicOptAttrs::new(name, ty)
}

fn refused(fields: Vec<BasicOptAttrs>) -> Error {
    derive_conf(&fields).unwrap_err()
}

fn attrs(a: &str, b: &str) -> ErrorKind {
    ErrorKind::ConflictAttrs(a.to_string(), b.to_string())
}

fn ids(class: &str, value: &str, other: &str) -> ErrorKind {
    ErrorKind::ConflictIDs(class.to_string(), value.to_string(), other.to_string())
}

#[test]
fn compile_fails() {
    // Passing: an empty field, a negated flag, basic attributes.
    let mut empty = field("value", ValueType::I32);
    empty.no_short = true;
    empty.no_long = true;
    empty.no_file = true;
    assert!(derive_conf(&vec![empty]).is_ok());
    let mut inverse = field("value", ValueType::Bool);
    inverse.negated = true;
    inverse.no_short = true;
    inverse.long = Some("no-value".to_string());
    assert!(derive_conf(&vec![inverse]).is_ok());

    // Conflicting options for the file name.
    let mut f = field("value", ValueType::Bool);
    f.no_file = true;
    f.file = Some("thing".to_string());
    let e = refused(vec![f]);
    assert_eq!(e.kind, attrs("no_file", "file"));
    assert_eq!(e.field, "value");

    // Help only makes sense for arguments.
    let mut f = field("value", ValueType::Bool);
    f.no_short = true;
    f.no_long = true;
    f.help = Some("out of place help message".to_string());
    assert_eq!(refused(vec![f]).kind, attrs("no_short and no_long", "help"));

    // A negated argument must be a boolean.
    let mut f = field("value", ValueType::U64);
    f.negated = true;
    assert_eq!(
        refused(vec![f]).kind,
        ErrorKind::Value("negated".to_string(), "u64".to_string())
    );

    // Repeated file keys.
    let mut a = field("name1", ValueType::Bool);
    a.no_short = true;
    a.no_long = true;
    a.file = Some("abc".to_string());
    let mut b = field("name2", ValueType::Bool);
    b.no_short = true;
    b.no_long = true;
    b.file = Some("abc".to_string());
    let e = refused(vec![a, b]);
    assert_eq!(e.kind, ids("file", "Defaults.abc", "name1"));
    assert_eq!(e.field, "name2");

    // Repeated long names.
    let mut a = field("name1", ValueType::Bool);
    a.no_file = true;
    a.no_short = true;
    a.long = Some("abc".to_string());
    let mut b = field("name2", ValueType::Bool);
    b.no_file = true;
    b.no_short = true;
    b.long = Some("abc".to_string());
    let e = refused(vec![a, b]);
    assert_eq!(e.kind, ids("long", "abc", "name1"));
    assert_eq!(e.field, "name2");

    // Automatically generated short names also count.
    let mut a = field("name1", ValueType::Bool);
    a.no_file = true;
    a.no_long = true;
    let mut b = field("name2", ValueType::Bool);
    b.no_file = true;
    b.no_long = true;
    assert_eq!(refused(vec![a, b]).kind, ids("short", "n", "name1"));

    // Repeated explicit short names.
    let mut a = field("name1", ValueType::Bool);
    a.no_file = true;
    a.no_long = true;
    a.short = Some("x".to_string());
    let mut b = field("name2", ValueType::Bool);
    b.no_file = true;
    b.no_long = true;
    b.short = Some("x".to_string());
    assert_eq!(refused(vec![a, b]).kind, ids("short", "x", "name1"));
}

#[test]
fn conflicting_attributes_each_pair() {
    let mut f = field("value", ValueType::Bool);
    f.no_long = true;
    f.long = Some("thing".to_string());
    assert_eq!(refused(vec![f]).kind, attrs("no_long", "long"));

    let mut f = field("value", ValueType::Bool);
    f.no_short = true;
    f.short = Some("v".to_string());
    assert_eq!(refused(vec![f]).kind, attrs("no_short", "short"));

    let mut f = field("value", ValueType::Bool);
    f.no_short = true;
    f.no_long = true;
    f.negated = true;
    assert_eq!(refused(vec![f]).kind, attrs("no_short and no_long", "negated"));

    let mut f = field("value", ValueType::Bool);
    f.no_file = true;
    f.section = Some("Planes".to_string());
    assert_eq!(refused(vec![f]).kind, attrs("no_file", "section"));

    let all = "no_short, no_long and no_file";
    let mut f = field("value", ValueType::I32);
    f.no_short = true;
    f.no_long = true;
    f.no_file = true;
    f.default = Some("1".to_string());
    assert_eq!(refused(vec![f]).kind, attrs(all, "default"));

    let mut f = field("value", ValueType::I32);
    f.no_short = true;
    f.no_long = true;
    f.no_file = true;
    f.section = Some("Planes".to_string());
    assert_eq!(refused(vec![f]).kind, attrs(all, "section"));
}

#[test]
fn invalid_values() {
    // The short name here is a string, not a character.
    let mut f = field("value", ValueType::Bool);
    f.short = Some("more_than_a_character".to_string());
    assert_eq!(
        refused(vec![f]).kind,
        ErrorKind::Value("short".to_string(), "more_than_a_character".to_string())
    );

    let mut f = field("value", ValueType::Bool);
    f.short = Some(String::new());
    assert_eq!(
        refused(vec![f]).kind,
        ErrorKind::Value("short".to_string(), String::new())
    );

    let mut f = field("count", ValueType::I32);
    f.default = Some("123 + x".to_string());
    assert_eq!(
        refused(vec![f]).kind,
        ErrorKind::Value("default".to_string(), "123 + x".to_string())
    );

    let mut f = field("count", ValueType::I32);
    f.default = Some("2147483647 + 1".to_string());
    assert_eq!(
        refused(vec![f]).kind,
        ErrorKind::Value("default".to_string(), "2147483647 + 1".to_string())
    );
}

#[test]
fn field_errors_come_before_shared_identifiers() {
    let a = field("name1", ValueType::Bool);
    let b = field("name2", ValueType::Bool);
    let mut c = field("other", ValueType::Bool);
    c.no_file = true;
    c.file = Some("x".to_string());
    let e = refused(vec![a, b, c]);
    assert_eq!(e.kind, attrs("no_file", "file"));
    assert_eq!(e.field, "other");
}

#[test]
fn error_messages() {
    let e = Error::new(attrs("no_file", "file"), "value");
    assert_eq!(
        e.message(),
        "`no_file` and `file` are conflicting attributes in field `value`"
    );
    let e = Error::new(ids("long", "abc", "name1"), "name2");
    assert_eq!(
        e.message(),
        "the `long` identifier `abc` of field `name2` is already used by field `name1`"
    );
    let e = Error::new(
        ErrorKind::Value("short".to_string(), "xy".to_string()),
        "value",
    );
    assert_eq!(e.message(), "invalid value for `short` in field `value`: xy");
}
