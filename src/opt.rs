//! Option descriptors: the validated form of a field, with its argument and
//! file projections, and what each descriptor does on its own: resolving its
//! value from the sources, describing its flag, and writing its value.
use vstd::prelude::*;
use crate::attrs::{BasicOptAttrs, compiled};
use crate::sources::{arg_present, arg_text, cli_matches, ini_get, ini_values};
use crate::error::Error;
use crate::value::{Value, ValueType, ValueView, has_type, opt_value_view, parse_text, parse_value, render_value};

verus! {

/// How a field appears among the command-line arguments.
#[derive(Debug, Clone, PartialEq, Eq)]
pub struct OptArgData {
    pub long: Option<String>,
    pub short: Option<String>,
    pub help: Option<String>,
    /// Whether giving the flag means `false` rather than `true`.
    pub negated: bool,
}

/// Where a field is stored in the configuration file.
#[derive(Debug, Clone, PartialEq, Eq)]
pub struct OptFileData {
    /// The key.
    pub name: String,
    pub section: String,
}

/// The validated description of one field.
#[derive(Debug, Clone, PartialEq)]
pub struct Opt {
    pub name: String,
    /// The type that raw texts are coerced into (the inner type of an
    /// optional field).
    pub ty: ValueType,
    /// Whether the field may hold no value at all.
    pub is_option: bool,
    /// The value taken when no source gives one; `None` only for an optional
    /// field without an explicit default.
    pub default: Option<Value>,
    /// Whether the argument takes a value: `false` exactly for a boolean
    /// flag, as compilation sets it. Resolution and the flag schema go by
    /// the type and the argument projection themselves (`is_flag`).
    pub takes_value: bool,
    pub file: Option<OptFileData>,
    pub arg: Option<OptArgData>,
}

pub ghost struct ArgDataView {
    pub long: Option<Seq<char>>,
    pub short: Option<Seq<char>>,
    pub help: Option<Seq<char>>,
    pub negated: bool,
}

pub ghost struct FileDataView {
    pub name: Seq<char>,
    pub section: Seq<char>,
}

pub ghost struct OptView {
    pub name: Seq<char>,
    pub ty: ValueType,
    pub is_option: bool,
    pub default: Option<ValueView>,
    pub takes_value: bool,
    pub file: Option<FileDataView>,
    pub arg: Option<ArgDataView>,
}

/// The view of an optional text.
pub open spec fn opt_str(o: Option<String>) -> Option<Seq<char>> {
    match o {
        Some(s) => Some(s@),
        None => None,
    }
}

impl View for OptArgData {
    type V = ArgDataView;

    open spec fn view(&self) -> ArgDataView {
        ArgDataView {
            long: opt_str(self.long),
            short: opt_str(self.short),
            help: opt_str(self.help),
            negated: self.negated,
        }
    }
}

impl View for OptFileData {
    type V = FileDataView;

    open spec fn view(&self) -> FileDataView {
        FileDataView { name: self.name@, section: self.section@ }
    }
}

pub open spec fn opt_arg_view(o: Option<OptArgData>) -> Option<ArgDataView> {
    match o {
        Some(a) => Some(a@),
        None => None,
    }
}

pub open spec fn opt_file_view(o: Option<OptFileData>) -> Option<FileDataView> {
    match o {
        Some(f) => Some(f@),
        None => None,
    }
}

impl View for Opt {
    type V = OptView;

    open spec fn view(&self) -> OptView {
        OptView {
            name: self.name@,
            ty: self.ty,
            is_option: self.is_option,
            default: opt_value_view(self.default),
            takes_value: self.takes_value,
            file: opt_file_view(self.file),
            arg: opt_arg_view(self.arg),
        }
    }
}

/// A descriptor as schema compilation makes it: booleans with an argument
/// are flags, the default is of the field's type and is absent only for an
/// optional field, a short name is one character, and only a boolean flag
/// is negated.
pub open spec fn opt_wf(o: OptView) -> bool {
    &&& o.takes_value == !(o.ty == ValueType::Bool && o.arg is Some)
    &&& (o.default matches Some(v) ==> has_type(v, o.ty))
    &&& (o.default is None ==> o.is_option)
    &&& (o.arg matches Some(a) ==> (a.short matches Some(s) ==> s.len() == 1))
    &&& (o.arg matches Some(a) ==> (a.negated ==> o.ty == ValueType::Bool))
}

/// What the argument source reports for a field: nothing, the flag alone, or
/// a value.
#[derive(Debug, Clone, PartialEq, Eq)]
pub enum ArgValue {
    Absent,
    Present,
    Text(String),
}

pub ghost enum ArgView {
    Absent,
    Present,
    Text(Seq<char>),
}

impl View for ArgValue {
    type V = ArgView;

    open spec fn view(&self) -> ArgView {
        match self {
            ArgValue::Absent => ArgView::Absent,
            ArgValue::Present => ArgView::Present,
            ArgValue::Text(t) => ArgView::Text(t@),
        }
    }
}

/// The message of the error raised when a raw text is no value of a field.
pub open spec fn parse_message(field: Seq<char>, text: Seq<char>) -> Seq<char> {
    "invalid value `"@ + text + "` for field `"@ + field + "`"@
}

/// A raw text coerced into the field's type: the value, or the message of
/// the parse error.
pub open spec fn coerced(o: OptView, t: Seq<char>) -> Result<Option<ValueView>, Seq<char>> {
    match parse_value(o.ty, t) {
        Some(v) => Ok(Some(v)),
        None => Err(parse_message(o.name, t)),
    }
}

/// Whether the field is a flag: a boolean with an argument projection,
/// whose argument takes no value.
pub open spec fn is_flag(o: OptView) -> bool {
    o.ty == ValueType::Bool && o.arg is Some
}

/// Whether the argument source alone settles the field: a flag that was
/// given, or an argument with a value.
pub open spec fn arg_decides(o: OptView, arg: ArgView) -> bool {
    o.arg is Some && if is_flag(o) {
        !(arg is Absent)
    } else {
        arg is Text
    }
}

/// The value of a field, by priority: the argument, then the file, then the
/// default. `file` is what the file holds under the field's section and key.
/// A flag that was given is `true`, or `false` when negated.
pub open spec fn resolved(o: OptView, arg: ArgView, file: Option<Seq<char>>) -> Result<Option<ValueView>, Seq<char>> {
    if arg_decides(o, arg) {
        if is_flag(o) {
            Ok(Some(ValueView::Bool(!o.arg->0.negated)))
        } else {
            coerced(o, arg->Text_0)
        }
    } else if o.file is Some && file is Some {
        coerced(o, file->0)
    } else {
        Ok(o.default)
    }
}

/// What the argument matches report for a field.
pub open spec fn arg_of(o: OptView, m: Map<Seq<char>, Option<Seq<char>>>) -> ArgView {
    if o.arg is None {
        ArgView::Absent
    } else if is_flag(o) {
        if m.contains_key(o.name) {
            ArgView::Present
        } else {
            ArgView::Absent
        }
    } else if m.contains_key(o.name) && m[o.name] is Some {
        ArgView::Text(m[o.name]->0)
    } else {
        ArgView::Absent
    }
}

/// What the file store holds under a field's section and key.
pub open spec fn file_of(o: OptView, store: Map<(Seq<char>, Seq<char>), Seq<char>>) -> Option<Seq<char>> {
    match o.file {
        Some(f) => if store.contains_key((f.section, f.name)) {
            Some(store[(f.section, f.name)])
        } else {
            None
        },
        None => None,
    }
}

/// The view of a resolution result: the value, or the parse error's message.
pub open spec fn result_view(r: Result<Option<Value>, crate::Error>) -> Result<Option<ValueView>, Seq<char>> {
    match r {
        Ok(v) => Ok(opt_value_view(v)),
        Err(crate::Error::Parse(m)) => Err(m@),
        Err(_) => Err(Seq::empty()),
    }
}

/// The flag that a field with an argument projection contributes to the
/// command-line schema.
#[derive(Debug, Clone, PartialEq, Eq)]
pub struct FlagSpec {
    pub name: String,
    pub help: Option<String>,
    pub long: Option<String>,
    pub short: Option<String>,
    pub takes_value: bool,
}

pub ghost struct FlagSpecView {
    pub name: Seq<char>,
    pub help: Option<Seq<char>>,
    pub long: Option<Seq<char>>,
    pub short: Option<Seq<char>>,
    pub takes_value: bool,
}

impl View for FlagSpec {
    type V = FlagSpecView;

    open spec fn view(&self) -> FlagSpecView {
        FlagSpecView {
            name: self.name@,
            help: opt_str(self.help),
            long: opt_str(self.long),
            short: opt_str(self.short),
            takes_value: self.takes_value,
        }
    }
}

/// The flag of a field, if it has an argument projection.
pub open spec fn flag_of(o: OptView) -> Option<FlagSpecView> {
    match o.arg {
        Some(a) => Some(
            FlagSpecView {
                name: o.name,
                help: a.help,
                long: a.long,
                short: a.short,
                takes_value: !is_flag(o),
            },
        ),
        None => None,
    }
}

/// One value to store in the configuration file.
#[derive(Debug, Clone, PartialEq, Eq)]
pub struct WriteOp {
    pub section: String,
    pub key: String,
    pub text: String,
}

pub ghost struct WriteOpView {
    pub section: Seq<char>,
    pub key: Seq<char>,
    pub text: Seq<char>,
}

impl View for WriteOp {
    type V = WriteOpView;

    open spec fn view(&self) -> WriteOpView {
        WriteOpView { section: self.section@, key: self.key@, text: self.text@ }
    }
}

/// What a field writes to the file: its value's text under its section and
/// key, when it has a file projection and a value. An absent optional value
/// is not written.
pub open spec fn write_of(o: OptView, v: Option<ValueView>) -> Option<WriteOpView> {
    match o.file {
        Some(f) => match v {
            Some(x) => Some(WriteOpView { section: f.section, key: f.name, text: render_value(x) }),
            None => None,
        },
        None => None,
    }
}

pub(crate) fn copy_text(o: &Option<String>) -> (r: Option<String>)
    ensures
        opt_str(r) == opt_str(*o),
{
    match o {
        Some(s) => Some(s.clone()),
        None => None,
    }
}

impl Opt {
    /// Compiles a field's declaration into its descriptor.
    pub fn parse(field: BasicOptAttrs) -> (r: Result<Opt, Error>)
        requires
            field.name@.len() > 0,
        ensures
            match compiled(field) {
                Ok(o) => r matches Ok(x) && x@ == o,
                Err(e) => r matches Err(x) && x@ == e,
            },
    {
        let attrs = match field.init() {
            Ok(a) => a,
            Err(e) => return Err(e),
        };
        attrs.parse_opt()
    }

    /// Whether the field is a flag: a boolean with an argument projection.
    pub fn is_flag(&self) -> (r: bool)
        ensures
            r == is_flag(self@),
    {
        self.ty == ValueType::Bool && self.arg.is_some()
    }

    /// Coerces a raw text into the field's type.
    fn coerce(&self, t: &str) -> (r: Result<Option<Value>, crate::Error>)
        ensures
            r matches Err(e) ==> e is Parse,
            result_view(r) == coerced(self@, t@),
    {
        match parse_text(self.ty, t) {
            Some(v) => Ok(Some(v)),
            None => {
                let mut m = String::from_str("invalid value `");
                m.append(t);
                m.append("` for field `");
                m.append(self.name.as_str());
                m.append("`");
                Err(crate::Error::Parse(m))
            },
        }
    }

    /// The field's value from what the argument source reports for it and
    /// what the file holds under its section and key.
    pub fn resolve(&self, arg: &ArgValue, file: &Option<String>) -> (r: Result<Option<Value>, crate::Error>)
        ensures
            r matches Err(e) ==> e is Parse,
            result_view(r) == resolved(self@, arg@, opt_str(*file)),
    {
        if self.arg.is_some() {
            if !self.is_flag() {
                if let ArgValue::Text(t) = arg {
                    return self.coerce(t.as_str());
                }
            } else {
                match arg {
                    ArgValue::Absent => {},
                    _ => {
                        let negated = match &self.arg {
                            Some(a) => a.negated,
                            None => false,
                        };
                        return Ok(Some(Value::Bool(!negated)));
                    },
                }
            }
        }
        if self.file.is_some() {
            if let Some(t) = file {
                return self.coerce(t.as_str());
            }
        }
        match &self.default {
            Some(v) => Ok(Some(v.copy())),
            None => Ok(None),
        }
    }

    /// What the argument matches report for the field.
    fn arg_lookup(&self, args: &clap::ArgMatches) -> (r: ArgValue)
        ensures
            r@ == arg_of(self@, cli_matches(*args)),
    {
        if self.arg.is_none() {
            ArgValue::Absent
        } else if self.is_flag() {
            if arg_present(args, self.name.as_str()) {
                ArgValue::Present
            } else {
                ArgValue::Absent
            }
        } else {
            match arg_text(args, self.name.as_str()) {
                Some(t) => ArgValue::Text(t),
                None => ArgValue::Absent,
            }
        }
    }

    /// The field's value from the argument matches, the file store and its
    /// default, by that priority. The file is looked up only when the
    /// arguments do not settle the field.
    pub fn into_field_init(&self, args: &clap::ArgMatches, file: &ini::Ini) -> (r: Result<Option<Value>, crate::Error>)
        ensures
            r matches Err(e) ==> e is Parse,
            result_view(r) == resolved(
                self@,
                arg_of(self@, cli_matches(*args)),
                file_of(self@, ini_values(*file)),
            ),
    {
        let arg = self.arg_lookup(args);
        let decided = match (&self.arg, &arg) {
            (None, _) => false,
            (Some(_), ArgValue::Text(_)) => true,
            (Some(_), ArgValue::Present) => self.is_flag(),
            (Some(_), ArgValue::Absent) => false,
        };
        if decided {
            return self.resolve(&arg, &None);
        }
        let text = match &self.file {
            Some(f) => ini_get(file, f.section.as_str(), f.name.as_str()),
            None => None,
        };
        self.resolve(&arg, &text)
    }

    /// The flag that the field contributes to the command-line schema, if it
    /// has an argument projection.
    pub fn into_arg_init(&self) -> (r: Option<FlagSpec>)
        ensures
            match r {
                Some(f) => flag_of(self@) == Some(f@),
                None => flag_of(self@) is None,
            },
    {
        match &self.arg {
            Some(a) => Some(
                FlagSpec {
                    name: self.name.clone(),
                    help: copy_text(&a.help),
                    long: copy_text(&a.long),
                    short: copy_text(&a.short),
                    takes_value: !self.is_flag(),
                },
            ),
            None => None,
        }
    }

    /// What the field writes to the file for the given value.
    pub fn into_to_file(&self, value: &Option<Value>) -> (r: Option<WriteOp>)
        ensures
            match r {
                Some(w) => write_of(self@, opt_value_view(*value)) == Some(w@),
                None => write_of(self@, opt_value_view(*value)) is None,
            },
    {
        match &self.file {
            Some(f) => match value {
                Some(v) => Some(
                    WriteOp { section: f.section.clone(), key: f.name.clone(), text: v.render() },
                ),
                None => None,
            },
            None => None,
        }
    }
}

/// A field with neither argument nor file projection always takes its
/// default, whatever the sources hold.
pub proof fn lemma_empty_field_default(o: OptView, arg: ArgView, file: Option<Seq<char>>)
    requires
        o.arg is None,
        o.file is None,
    ensures
        resolved(o, arg, file) == Ok::<Option<ValueView>, Seq<char>>(o.default),
{
}

/// A boolean flag that is given is `false` when negated and `true` when
/// not; one that is not given falls through to the file and the default.
pub proof fn lemma_flag_negation(o: OptView, arg: ArgView, file: Option<Seq<char>>)
    requires
        o.ty == ValueType::Bool,
        o.arg is Some,
    ensures
        !(arg is Absent) ==> resolved(o, arg, file) == Ok::<Option<ValueView>, Seq<char>>(
            Some(ValueView::Bool(!o.arg->0.negated)),
        ),
        o.arg->0.negated && !(arg is Absent) ==> resolved(o, arg, file) == Ok::<
            Option<ValueView>,
            Seq<char>,
        >(Some(ValueView::Bool(false))),
        !o.arg->0.negated && !(arg is Absent) ==> resolved(o, arg, file) == Ok::<
            Option<ValueView>,
            Seq<char>,
        >(Some(ValueView::Bool(true))),
        arg is Absent ==> resolved(o, arg, file) == if o.file is Some && file is Some {
            coerced(o, file->0)
        } else {
            Ok(o.default)
        },
{
}

/// When the argument source settles a field that also has a file
/// projection, what the file holds makes no difference.
pub proof fn lemma_argument_priority(
    o: OptView,
    arg: ArgView,
    file1: Option<Seq<char>>,
    file2: Option<Seq<char>>,
)
    requires
        o.arg is Some,
        o.file is Some,
        arg_decides(o, arg),
    ensures
        resolved(o, arg, file1) == resolved(o, arg, file2),
{
}

} // verus!
