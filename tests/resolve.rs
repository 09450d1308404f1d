//! Resolution of single fields, value coercion, the flag schema and the
//! write-back, on small schemas.

use structconf::attrs::BasicOptAttrs;
use structconf::config::{build_cli_schema, resolve_all, write_ini, write_ops};
use structconf::opt::{ArgValue, FlagSpec, Opt};
use structconf::schema::derive_conf;
use structconf::expr::parse_default;
use structconf::value::{parse_text, zero_of, Value, ValueType};
use structconf::Error;

fn compile(fields: Vec<BasicOptAttrs>) -> Vec<Opt> {
    derive_conf(&fields).unwrap()
}

fn one(field: BasicOptAttrs) -> Opt {
    compile(vec![field]).remove(0)
}

fn text(s: &str) -> Option<String> {
    Some(s.to_string())
}

fn matches<'a>(flags: &'a [FlagSpec], argv: &[&str]) -> clap::ArgMatches<'a> {
    let args: Vec<clap::Arg<'a, 'a>> = flags
        .iter()
        .map(|f| {
            let mut a = clap::Arg::with_name(f.name.as_str());
            if let Some(l) = &f.long {
                a = a.long(l.as_str());
            }
            if let Some(s) = &f.short {
                a = a.short(s.as_str());
            }
            if f.takes_value {
                a = a.takes_value(true);
            }
            a
        })
        .collect();
    clap::App::new("test")
        .args(&args)
        .get_matches_from_safe(argv.iter().copied())
        .unwrap()
}

#[test]
fn count_default_without_sources() {
    let mut count = BasicOptAttrs::new("count", ValueType::I32);
    count.no_file = true;
    count.default = text("5");
    let opt = one(count);
    assert_eq!(opt.resolve(&ArgValue::Absent, &None).unwrap(), Some(Value::I32(5)));
    let opts = vec![opt];
    let flags = build_cli_schema(&opts);
    let args = matches(&flags, &["test"]);
    let conf = resolve_all(&opts, &args, &ini::Ini::new()).unwrap();
    assert_eq!(conf, vec![Some(Value::I32(5))]);
}

#[test]
fn negated_debug_flag() {
    let mut debug = BasicOptAttrs::new("debug", ValueType::Bool);
    debug.negated = true;
    debug.long = text("no-debug");
    let opts = compile(vec![debug]);
    let flags = build_cli_schema(&opts);
    assert!(!flags[0].takes_value);
    let given = matches(&flags, &["test", "--no-debug"]);
    let conf = resolve_all(&opts, &given, &ini::Ini::new()).unwrap();
    assert_eq!(conf, vec![Some(Value::Bool(false))]);
    let absent = matches(&flags, &["test"]);
    let conf = resolve_all(&opts, &absent, &ini::Ini::new()).unwrap();
    assert_eq!(conf, vec![Some(Value::Bool(true))]);
}

#[test]
fn negated_flag_defaults_to_true() {
    let mut debug = BasicOptAttrs::new("debug", ValueType::Bool);
    debug.negated = true;
    debug.long = text("no-debug");
    let opt = one(debug);
    assert_eq!(opt.default, Some(Value::Bool(true)));
    assert_eq!(opt.resolve(&ArgValue::Present, &None).unwrap(), Some(Value::Bool(false)));
    assert_eq!(opt.resolve(&ArgValue::Absent, &None).unwrap(), Some(Value::Bool(true)));
    assert_eq!(opt.resolve(&ArgValue::Absent, &text("false")).unwrap(), Some(Value::Bool(false)));
    // An explicit default still wins over the flag's own.
    let mut debug = BasicOptAttrs::new("debug", ValueType::Bool);
    debug.negated = true;
    debug.default = text("false");
    let opt = one(debug);
    assert_eq!(opt.resolve(&ArgValue::Absent, &None).unwrap(), Some(Value::Bool(false)));
}

#[test]
fn flag_presence() {
    let plain = one(BasicOptAttrs::new("verbose", ValueType::Bool));
    assert_eq!(plain.resolve(&ArgValue::Present, &text("false")).unwrap(), Some(Value::Bool(true)));
    assert_eq!(plain.resolve(&ArgValue::Absent, &text("false")).unwrap(), Some(Value::Bool(false)));
    let mut quiet = BasicOptAttrs::new("quiet", ValueType::Bool);
    quiet.negated = true;
    let quiet = one(quiet);
    assert_eq!(quiet.resolve(&ArgValue::Present, &text("true")).unwrap(), Some(Value::Bool(false)));
    assert_eq!(quiet.resolve(&ArgValue::Absent, &text("true")).unwrap(), Some(Value::Bool(true)));
}

#[test]
fn optional_absent_is_not_written() {
    let mut option_i32 = BasicOptAttrs::new("option_i32", ValueType::I32);
    option_i32.is_option = true;
    let opts = compile(vec![option_i32]);
    assert_eq!(opts[0].resolve(&ArgValue::Absent, &None).unwrap(), None);
    let flags = build_cli_schema(&opts);
    let args = matches(&flags, &["test"]);
    let conf = resolve_all(&opts, &args, &ini::Ini::new()).unwrap();
    assert_eq!(conf, vec![None]);
    assert!(write_ops(&opts, &conf).is_empty());
    assert_eq!(opts[0].into_to_file(&None), None);
}

#[test]
fn empty_field_ignores_sources() {
    let mut empty = BasicOptAttrs::new("empty", ValueType::I64);
    empty.no_short = true;
    empty.no_long = true;
    empty.no_file = true;
    let opt = one(empty);
    assert!(opt.arg.is_none() && opt.file.is_none());
    assert_eq!(opt.resolve(&ArgValue::Text("9".to_string()), &text("8")).unwrap(), Some(Value::I64(0)));
    assert_eq!(opt.resolve(&ArgValue::Present, &text("x")).unwrap(), Some(Value::I64(0)));
    assert_eq!(opt.into_arg_init(), None);
    assert_eq!(opt.into_to_file(&Some(Value::I64(3))), None);
}

#[test]
fn argument_beats_file() {
    let opt = one(BasicOptAttrs::new("level", ValueType::U32));
    // The file holds no number at all, but the argument settles the field.
    assert_eq!(
        opt.resolve(&ArgValue::Text("3".to_string()), &text("not a number")).unwrap(),
        Some(Value::U32(3))
    );
    assert_eq!(opt.resolve(&ArgValue::Absent, &text("4")).unwrap(), Some(Value::U32(4)));
    match opt.resolve(&ArgValue::Absent, &text("not a number")) {
        Err(Error::Parse(m)) => assert_eq!(m, "invalid value `not a number` for field `level`"),
        other => panic!("parse error not returned: {:?}", other),
    }
    match opt.resolve(&ArgValue::Text("-1".to_string()), &None) {
        Err(Error::Parse(m)) => assert_eq!(m, "invalid value `-1` for field `level`"),
        other => panic!("parse error not returned: {:?}", other),
    }
}

#[test]
fn write_then_read_round_trip() {
    let mut port = BasicOptAttrs::new("port", ValueType::U64);
    port.section = text("Server");
    let mut offset = BasicOptAttrs::new("offset", ValueType::I64);
    offset.file = text("shift");
    let mut name = BasicOptAttrs::new("name", ValueType::Text);
    name.no_short = true;
    let mut limit = BasicOptAttrs::new("limit", ValueType::I32);
    limit.is_option = true;
    limit.no_short = true;
    let opts = compile(vec![port, offset, name, limit]);
    let vals = vec![
        Some(Value::U64(u64::MAX)),
        Some(Value::I64(i64::MIN)),
        Some(Value::Text("a b = c".to_string())),
        None,
    ];
    let ops = write_ops(&opts, &vals);
    assert_eq!(ops.len(), 3);
    assert_eq!(ops[0].section, "Server");
    assert_eq!(ops[0].key, "port");
    assert_eq!(ops[0].text, "18446744073709551615");
    assert_eq!(ops[1].section, "Defaults");
    assert_eq!(ops[1].key, "shift");
    assert_eq!(ops[1].text, "-9223372036854775808");
    let file = write_ini(&opts, &vals);
    assert_eq!(file.get_from(Some("Server"), "port"), Some("18446744073709551615"));
    let flags = build_cli_schema(&opts);
    let args = matches(&flags, &["test"]);
    assert_eq!(resolve_all(&opts, &args, &file).unwrap(), vals);
}

#[test]
fn shared_long_name_names_both_fields() {
    let mut a = BasicOptAttrs::new("first", ValueType::Bool);
    a.long = text("same_name");
    let mut b = BasicOptAttrs::new("second", ValueType::Bool);
    b.long = text("same-name");
    let e = derive_conf(&vec![a, b]).unwrap_err();
    assert_eq!(e.field, "second");
    assert_eq!(
        e.kind,
        structconf::error::ErrorKind::ConflictIDs(
            "long".to_string(),
            "same-name".to_string(),
            "first".to_string()
        )
    );
}

#[test]
fn same_key_in_other_sections_is_fine() {
    let mut a = BasicOptAttrs::new("model_id", ValueType::I32);
    a.section = text("Planes");
    a.no_short = true;
    a.no_long = true;
    let mut b = BasicOptAttrs::new("model_id2", ValueType::I32);
    b.file = text("model_id");
    b.no_short = true;
    b.no_long = true;
    let opts = compile(vec![a, b]);
    let file = ini::Ini::load_from_str("[Planes]\nmodel_id = 123\n[Defaults]\nmodel_id = 7\n").unwrap();
    let flags = build_cli_schema(&opts);
    assert!(flags.is_empty());
    let args = matches(&flags, &["test"]);
    assert_eq!(
        resolve_all(&opts, &args, &file).unwrap(),
        vec![Some(Value::I32(123)), Some(Value::I32(7))]
    );
}

#[test]
fn descriptor_projections() {
    let mut f = BasicOptAttrs::new("do_something", ValueType::I32);
    f.help = text("what to do");
    let opt = Opt::parse(f).unwrap();
    let arg = opt.arg.clone().unwrap();
    assert_eq!(arg.long, text("do-something"));
    assert_eq!(arg.short, text("d"));
    let file = opt.file.clone().unwrap();
    assert_eq!(file.name, "do_something");
    assert_eq!(file.section, "Defaults");
    assert!(opt.takes_value);
    let flag = opt.into_arg_init().unwrap();
    assert_eq!(flag.name, "do_something");
    assert_eq!(flag.help, text("what to do"));
    assert_eq!(flag.long, text("do-something"));
    assert_eq!(flag.short, text("d"));
    assert!(flag.takes_value);
    let w = opt.into_to_file(&Some(Value::I32(-42))).unwrap();
    assert_eq!((w.section.as_str(), w.key.as_str(), w.text.as_str()), ("Defaults", "do_something", "-42"));
}

#[test]
fn attribute_methods() {
    let mut f = BasicOptAttrs::new("file_only", ValueType::Bool);
    f.no_short = true;
    f.no_long = true;
    assert!(f.takes_value());
    assert_eq!(f.parse_arg().unwrap(), None);
    assert_eq!(f.parse_file().unwrap().name, "file_only");
    let f = f.init().unwrap();
    assert!(f.parse_opt().unwrap().takes_value);
    let g = BasicOptAttrs::new("flag", ValueType::Bool);
    assert!(!g.takes_value());
}

#[test]
fn value_parsing() {
    assert_eq!(parse_text(ValueType::Bool, "true"), Some(Value::Bool(true)));
    assert_eq!(parse_text(ValueType::Bool, "false"), Some(Value::Bool(false)));
    assert_eq!(parse_text(ValueType::Bool, "True"), None);
    assert_eq!(parse_text(ValueType::I32, "+5"), Some(Value::I32(5)));
    assert_eq!(parse_text(ValueType::I32, "-2147483648"), Some(Value::I32(i32::MIN)));
    assert_eq!(parse_text(ValueType::I32, "2147483648"), None);
    assert_eq!(parse_text(ValueType::I32, "007"), Some(Value::I32(7)));
    assert_eq!(parse_text(ValueType::I32, ""), None);
    assert_eq!(parse_text(ValueType::I32, "-"), None);
    assert_eq!(parse_text(ValueType::I32, "1a"), None);
    assert_eq!(parse_text(ValueType::I32, " 1"), None);
    assert_eq!(parse_text(ValueType::I64, "-9223372036854775808"), Some(Value::I64(i64::MIN)));
    assert_eq!(parse_text(ValueType::I64, "9223372036854775808"), None);
    assert_eq!(parse_text(ValueType::U32, "4294967295"), Some(Value::U32(u32::MAX)));
    assert_eq!(parse_text(ValueType::U32, "-0"), None);
    assert_eq!(parse_text(ValueType::U64, "18446744073709551615"), Some(Value::U64(u64::MAX)));
    assert_eq!(parse_text(ValueType::U64, "18446744073709551616"), None);
    assert_eq!(parse_text(ValueType::U64, "99999999999999999999999"), None);
    assert_eq!(parse_text(ValueType::Text, " as is "), Some(Value::Text(" as is ".to_string())));
    for (ty, s) in [
        (ValueType::I32, "123"),
        (ValueType::U64, "+17"),
        (ValueType::I64, "-0"),
    ] {
        assert_eq!(parse_text(ty, s), s.parse::<i64>().ok().and_then(|n| match ty {
            ValueType::I32 => i32::try_from(n).ok().map(Value::I32),
            ValueType::U64 => u64::try_from(n).ok().map(Value::U64),
            _ => Some(Value::I64(n)),
        }));
    }
}

#[test]
fn value_rendering() {
    assert_eq!(Value::Bool(true).render(), "true");
    assert_eq!(Value::I32(0).render(), "0");
    assert_eq!(Value::I32(-2147483648).render(), "-2147483648");
    assert_eq!(Value::U32(4294967295).render(), "4294967295");
    assert_eq!(Value::I64(1234567890).render(), "1234567890");
    assert_eq!(Value::Text("x y".to_string()).render(), "x y");
    assert_eq!(zero_of(ValueType::Text), Value::Text(String::new()));
    assert_eq!(zero_of(ValueType::U64).copy(), Value::U64(0));
    assert_eq!(Value::I64(-5).value_type(), ValueType::I64);
}

#[test]
fn custom_fields_carry_text() {
    let mut level = BasicOptAttrs::new("level", ValueType::Custom);
    level.default = text("High");
    let mut mode = BasicOptAttrs::new("mode", ValueType::Custom);
    mode.no_short = true;
    mode.type_default = text("Auto");
    let opts = compile(vec![level, mode]);
    assert_eq!(opts[0].default, Some(Value::Custom("High".to_string())));
    assert_eq!(opts[1].default, Some(Value::Custom("Auto".to_string())));
    assert_eq!(
        opts[0].resolve(&ArgValue::Text("Low".to_string()), &text("Mid")).unwrap(),
        Some(Value::Custom("Low".to_string()))
    );
    assert_eq!(
        opts[1].resolve(&ArgValue::Absent, &None).unwrap(),
        Some(Value::Custom("Auto".to_string()))
    );
    // Every value is written, the type's own default too.
    let vals = vec![
        Some(Value::Custom("Mid".to_string())),
        Some(Value::Custom("Auto".to_string())),
    ];
    let ops = write_ops(&opts, &vals);
    assert_eq!(ops.len(), 2);
    assert_eq!(ops[0].text, "Mid");
    assert_eq!((ops[1].key.as_str(), ops[1].text.as_str()), ("mode", "Auto"));
    let file = write_ini(&opts, &vals);
    assert_eq!(file.get_from(Some("Defaults"), "mode"), Some("Auto"));
    let flags = build_cli_schema(&opts);
    let args = matches(&flags, &["test"]);
    assert_eq!(resolve_all(&opts, &args, &file).unwrap(), vals);
    assert_eq!(Value::Custom("x".to_string()).render(), "x");
    assert_eq!(parse_text(ValueType::Custom, "A;b"), Some(Value::Custom("A;b".to_string())));
    // A custom field cannot be negated.
    let mut bad = BasicOptAttrs::new("bad", ValueType::Custom);
    bad.negated = true;
    assert_eq!(
        derive_conf(&vec![bad]).unwrap_err().kind,
        structconf::error::ErrorKind::Value("negated".to_string(), "custom".to_string())
    );
    // Without a declared default, a custom field needs its type's default text.
    let bare = BasicOptAttrs::new("bare", ValueType::Custom);
    assert_eq!(
        derive_conf(&vec![bare]).unwrap_err().kind,
        structconf::error::ErrorKind::Value("type_default".to_string(), "none given".to_string())
    );
    // An optional one is absent instead.
    let mut maybe = BasicOptAttrs::new("maybe", ValueType::Custom);
    maybe.is_option = true;
    assert_eq!(one(maybe).default, None);
}

#[test]
fn hand_built_flag_ignores_takes_value() {
    let mut opt = one(BasicOptAttrs::new("verbose", ValueType::Bool));
    opt.takes_value = true;
    assert!(opt.is_flag());
    assert_eq!(opt.resolve(&ArgValue::Present, &text("false")).unwrap(), Some(Value::Bool(true)));
    assert!(!opt.into_arg_init().unwrap().takes_value);
}

#[test]
fn default_sums() {
    assert_eq!(parse_default(ValueType::I64, "123 + 123"), Some(Value::I64(246)));
    assert_eq!(parse_default(ValueType::I32, "1+2"), Some(Value::I32(3)));
    assert_eq!(parse_default(ValueType::I32, "-3 + 10 + 0"), Some(Value::I32(7)));
    assert_eq!(parse_default(ValueType::I32, "+5"), Some(Value::I32(5)));
    assert_eq!(parse_default(ValueType::I32, " 5 "), Some(Value::I32(5)));
    assert_eq!(parse_default(ValueType::U32, "4294967290 + 5"), Some(Value::U32(u32::MAX)));
    assert_eq!(parse_default(ValueType::U32, "4294967290 + 6"), None);
    assert_eq!(parse_default(ValueType::U32, "1 + -1"), None);
    assert_eq!(parse_default(ValueType::I32, "1 +"), None);
    assert_eq!(parse_default(ValueType::I32, "1 2"), None);
    assert_eq!(parse_default(ValueType::Text, "a + b"), Some(Value::Text("a + b".to_string())));
    assert_eq!(parse_default(ValueType::Bool, "true + false"), None);
    let mut count = BasicOptAttrs::new("count", ValueType::I64);
    count.default = text("123 + 123");
    assert_eq!(one(count).default, Some(Value::I64(246)));
}
