//! The basic attributes on a schema of boolean and integer fields.

use structconf::attrs::BasicOptAttrs;
use structconf::config::{build_cli_schema, resolve_all};
use structconf::schema::derive_conf;
use structconf::value::{Value, ValueType};
use structconf::Error;

fn fields() -> Vec<BasicOptAttrs> {
    let mut no_file = BasicOptAttrs::new("no_file", ValueType::I32);
    no_file.no_file = true;
    let mut no_short = BasicOptAttrs::new("no_short", ValueType::Bool);
    no_short.no_short = true;
    let mut no_long = BasicOptAttrs::new("no_long", ValueType::Bool);
    no_long.no_long = true;
    no_long.short = Some("x".to_string());
    let mut no_short_no_long = BasicOptAttrs::new("no_short_no_long", ValueType::Bool);
    no_short_no_long.no_short = true;
    no_short_no_long.no_long = true;
    let mut file = BasicOptAttrs::new("file", ValueType::Bool);
    file.file = Some("new_file".to_string());
    let mut long = BasicOptAttrs::new("long", ValueType::Bool);
    long.long = Some("name".to_string());
    let mut short = BasicOptAttrs::new("short", ValueType::Bool);
    short.short = Some("s".to_string());
    let mut combined = BasicOptAttrs::new("combined", ValueType::Bool);
    combined.file = Some("new_combined".to_string());
    combined.long = Some("new_combined".to_string());
    combined.short = Some("c".to_string());
    vec![no_file, no_short, no_long, no_short_no_long, file, long, short, combined]
}

#[test]
fn basic_attributes() {
    let opts = derive_conf(&fields()).unwrap();
    let flags = build_cli_schema(&opts);
    let args: Vec<clap::Arg> = flags
        .iter()
        .map(|f| {
            let mut a = clap::Arg::with_name(f.name.as_str());
            if let Some(l) = &f.long {
                a = a.long(l.as_str());
            }
            if let Some(s) = &f.short {
                a = a.short(s.as_str());
            }
            if f.takes_value {
                a = a.takes_value(true);
            }
            a
        })
        .collect();
    let matches = clap::App::new("test")
        .args(&args)
        .get_matches_from_safe(vec!["test"])
        .unwrap();
    // `no_file` should be 0 because this option isn't available in the
    // config file. `new_file` and `new_combined` have been renamed from
    // `file` and `combined`, respectively.
    let file = ini::Ini::load_from_str(
        "
    [Defaults]
    no_file = 1234
    no_short = \"true\"
    no_long = true
    new_file = true
    new_combined = true
    ",
    )
    .unwrap();
    let conf = resolve_all(&opts, &matches, &file).unwrap();
    assert_eq!(conf[0], Some(Value::I32(0)));
    assert_eq!(conf[1], Some(Value::Bool(true)));
    assert_eq!(conf[2], Some(Value::Bool(true)));
    assert_eq!(conf[3], Some(Value::Bool(false)));
    assert_eq!(conf[4], Some(Value::Bool(true)));
    assert_eq!(conf[5], Some(Value::Bool(false)));
    assert_eq!(conf[6], Some(Value::Bool(false)));
    assert_eq!(conf[7], Some(Value::Bool(true)));

    // Checking errors when parsing the config file
    let file = ini::Ini::load_from_str(
        "
    [Defaults]
    no_short = \"should be a boolean\"
    ",
    )
    .unwrap();
    match resolve_all(&opts, &matches, &file) {
        Err(Error::Parse(_)) => {}
        s => panic!("parse error not returned: {:?}", s),
    }
}
