//! The attributes that a schema author gives a field, the checks on how they
//! combine, and their compilation into an option descriptor.
use vstd::prelude::*;
use crate::error::{Error, ErrorKind, ErrorKindView, ErrorView};
use crate::opt::{
    ArgDataView, FileDataView, Opt, OptArgData, OptFileData, OptView, copy_text, opt_arg_view,
    opt_file_view, opt_str, opt_wf,
};
use crate::expr::{default_value, lemma_default_has_type, parse_default};
use crate::value::{Value, ValueType, ValueView, zero_of, zero_value};

verus! {

/// The section used when a field names none.
pub const DEFAULT_SECTION: &'static str = "Defaults";

/// A field's declaration: its name, its type and its attributes.
#[derive(Debug, Clone, PartialEq, Eq)]
pub struct BasicOptAttrs {
    pub name: String,
    /// The type of the field, or its inner type when it is optional.
    pub ty: ValueType,
    pub is_option: bool,
    /// Text of the default value: a value of the field's type, or for an
    /// integer type a sum of literals such as `123 + 123`.
    pub default: Option<String>,
    pub no_long: bool,
    pub long: Option<String>,
    pub no_short: bool,
    pub short: Option<String>,
    pub help: Option<String>,
    pub negated: bool,
    pub no_file: bool,
    pub file: Option<String>,
    pub section: Option<String>,
    /// For a custom type, the text form of the type's own default value,
    /// which the library cannot make up: a non-optional custom field without
    /// a declared default takes it. Not an attribute: other types ignore it.
    pub type_default: Option<String>,
}

/// Whether a field has neither argument nor file projection.
pub open spec fn is_empty_field(a: BasicOptAttrs) -> bool {
    a.no_short && a.no_long && a.no_file
}

/// The first pair of attributes of the field that cannot go together, in
/// the order the checks are made.
pub open spec fn attr_conflict(a: BasicOptAttrs) -> Option<(Seq<char>, Seq<char>)> {
    let empty = "no_short, no_long and no_file"@;
    let no_arg = "no_short and no_long"@;
    if is_empty_field(a) && a.default is Some {
        Some((empty, "default"@))
    } else if is_empty_field(a) && a.long is Some {
        Some((empty, "long"@))
    } else if is_empty_field(a) && a.short is Some {
        Some((empty, "short"@))
    } else if is_empty_field(a) && a.help is Some {
        Some((empty, "help"@))
    } else if is_empty_field(a) && a.negated {
        Some((empty, "negated"@))
    } else if is_empty_field(a) && a.file is Some {
        Some((empty, "file"@))
    } else if is_empty_field(a) && a.section is Some {
        Some((empty, "section"@))
    } else if a.no_short && a.short is Some {
        Some(("no_short"@, "short"@))
    } else if a.no_long && a.long is Some {
        Some(("no_long"@, "long"@))
    } else if a.no_short && a.no_long && a.negated {
        Some((no_arg, "negated"@))
    } else if a.no_short && a.no_long && a.help is Some {
        Some((no_arg, "help"@))
    } else if a.no_file && a.file is Some {
        Some(("no_file"@, "file"@))
    } else if a.no_file && a.section is Some {
        Some(("no_file"@, "section"@))
    } else {
        None
    }
}

/// The name of a value type, as the schema author writes it.
pub open spec fn type_label(ty: ValueType) -> Seq<char> {
    match ty {
        ValueType::Bool => "bool"@,
        ValueType::I32 => "i32"@,
        ValueType::I64 => "i64"@,
        ValueType::U32 => "u32"@,
        ValueType::U64 => "u64"@,
        ValueType::Text => "String"@,
        ValueType::Custom => "custom"@,
    }
}

/// The first error in the attributes themselves: a conflicting pair, or a
/// negation of a field that is not boolean.
pub open spec fn attrs_error(a: BasicOptAttrs) -> Option<ErrorView> {
    match attr_conflict(a) {
        Some((x, y)) => Some(ErrorView { kind: ErrorKindView::ConflictAttrs(x, y), field: a.name@ }),
        None => if a.negated && a.ty != ValueType::Bool {
            Some(
                ErrorView {
                    kind: ErrorKindView::Value("negated"@, type_label(a.ty)),
                    field: a.name@,
                },
            )
        } else {
            None
        },
    }
}

/// Whether the field has an argument projection.
pub open spec fn has_arg(a: BasicOptAttrs) -> bool {
    !(a.no_long && a.no_short)
}

/// A short name override that is not exactly one character.
pub open spec fn bad_short(a: BasicOptAttrs) -> bool {
    has_arg(a) && !a.no_short && (a.short matches Some(s) && s@.len() != 1)
}

/// A text with every underscore turned into a hyphen.
pub open spec fn hyphenated(s: Seq<char>) -> Seq<char> {
    s.map_values(|c: char| if c == '_' { '-' } else { c })
}

/// The argument projection: the long name (override or field name, with
/// hyphens for underscores), the short name (override or first character of
/// the field name), the help text and the negation.
pub open spec fn arg_data(a: BasicOptAttrs) -> Option<ArgDataView> {
    if !has_arg(a) {
        None
    } else {
        Some(
            ArgDataView {
                long: if a.no_long {
                    None
                } else {
                    Some(
                        hyphenated(
                            match a.long {
                                Some(l) => l@,
                                None => a.name@,
                            },
                        ),
                    )
                },
                short: if a.no_short {
                    None
                } else {
                    Some(
                        match a.short {
                            Some(s) => s@,
                            None => a.name@.subrange(0, 1),
                        },
                    )
                },
                help: opt_str(a.help),
                negated: a.negated,
            },
        )
    }
}

/// The file projection: the key (override or field name) and the section
/// (override or the default section).
pub open spec fn file_data(a: BasicOptAttrs) -> Option<FileDataView> {
    if a.no_file {
        None
    } else {
        Some(
            FileDataView {
                name: match a.file {
                    Some(f) => f@,
                    None => a.name@,
                },
                section: match a.section {
                    Some(s) => s@,
                    None => DEFAULT_SECTION@,
                },
            },
        )
    }
}

/// Whether the field's argument takes a value: all do but boolean flags.
pub open spec fn takes_value_of(a: BasicOptAttrs) -> bool {
    !(a.ty == ValueType::Bool && has_arg(a))
}

/// The default: `Some(d)` with `d` the value of the field when no source
/// gives one, or `None` when the explicit default text is not a value of the
/// field's type or a custom field lacks its type's default text. Without a
/// declared default an optional field is absent, a negated flag is `true`
/// (giving the flag turns it off), a custom field takes the text of its
/// type's own default, and any other field takes its type's zero value.
pub open spec fn default_of(a: BasicOptAttrs) -> Option<Option<ValueView>> {
    match a.default {
        Some(t) => match default_value(a.ty, t@) {
            Some(v) => Some(Some(v)),
            None => None,
        },
        None => if a.is_option {
            Some(None)
        } else if a.negated {
            Some(Some(ValueView::Bool(true)))
        } else if a.ty == ValueType::Custom {
            match a.type_default {
                Some(t) => Some(Some(ValueView::Custom(t@))),
                None => None,
            }
        } else {
            Some(Some(zero_value(a.ty)))
        },
    }
}

/// Why a field has no default: its declared default text is no value of
/// its type, or it is a custom field without its type's default text.
pub open spec fn default_error(a: BasicOptAttrs) -> ErrorKindView {
    match a.default {
        Some(t) => ErrorKindView::Value("default"@, t@),
        None => ErrorKindView::Value("type_default"@, "none given"@),
    }
}

/// The descriptor that a field compiles to, or the first error in it.
pub open spec fn compiled(a: BasicOptAttrs) -> Result<OptView, ErrorView> {
    match attrs_error(a) {
        Some(e) => Err(e),
        None => if bad_short(a) {
            Err(ErrorView { kind: ErrorKindView::Value("short"@, a.short->0@), field: a.name@ })
        } else {
            match default_of(a) {
                None => Err(ErrorView { kind: default_error(a), field: a.name@ }),
                Some(d) => Ok(
                    OptView {
                        name: a.name@,
                        ty: a.ty,
                        is_option: a.is_option,
                        default: d,
                        takes_value: takes_value_of(a),
                        file: file_data(a),
                        arg: arg_data(a),
                    },
                ),
            }
        },
    }
}

/// A descriptor compiled from a field with a name is well formed.
pub proof fn lemma_compiled_wf(a: BasicOptAttrs)
    requires
        a.name@.len() > 0,
        compiled(a) is Ok,
    ensures
        opt_wf(compiled(a)->Ok_0),
{
    if let Some(t) = a.default {
        lemma_default_has_type(a.ty, t@);
    }
}

/// A text with every underscore turned into a hyphen.
fn hyphenate(s: &str) -> (r: String)
    ensures
        r@ == hyphenated(s@),
{
    let n = s.unicode_len();
    let mut out = String::new();
    let mut start: usize = 0;
    let mut i: usize = 0;
    while i < n
        invariant
            n == s@.len(),
            start <= i <= n,
            out@ + s@.subrange(start as int, i as int) == hyphenated(s@.subrange(0, i as int)),
        decreases n - i,
    {
        let c = s.get_char(i);
        let ghost before = out@ + s@.subrange(start as int, i as int);
        assert(hyphenated(s@.subrange(0, i + 1)) =~= hyphenated(s@.subrange(0, i as int)).push(
            if c == '_' { '-' } else { c },
        ));
        if c == '_' {
            out.append(s.substring_char(start, i));
            assert(out@ == before);
            out.append("-");
            proof {
                reveal_strlit("-");
            }
            assert("-"@ =~= seq!['-']);
            assert(out@ =~= before.push('-'));
            start = i + 1;
            assert(s@.subrange(start as int, i + 1) =~= Seq::<char>::empty());
            assert(out@ + s@.subrange(start as int, i + 1) =~= before.push('-'));
        } else {
            assert(out@ + s@.subrange(start as int, i + 1) =~= before.push(c));
        }
        i = i + 1;
    }
    assert(s@.subrange(0, n as int) =~= s@);
    out.append(s.substring_char(start, n));
    out
}

fn conflict(a: &str, b: &str, field: &String) -> (r: Result<(), Error>)
    ensures
        r matches Err(e) && e@ == (ErrorView {
            kind: ErrorKindView::ConflictAttrs(a@, b@),
            field: field@,
        }),
{
    Err(Error::new(ErrorKind::ConflictAttrs(a.to_owned(), b.to_owned()), field.as_str()))
}

fn type_label_str(ty: ValueType) -> (r: &'static str)
    ensures
        r@ == type_label(ty),
{
    match ty {
        ValueType::Bool => "bool",
        ValueType::I32 => "i32",
        ValueType::I64 => "i64",
        ValueType::U32 => "u32",
        ValueType::U64 => "u64",
        ValueType::Text => "String",
        ValueType::Custom => "custom",
    }
}

impl BasicOptAttrs {
    /// A field of the given name and type with no attributes set.
    pub fn new(name: &str, ty: ValueType) -> (r: BasicOptAttrs)
        ensures
            r.name@ == name@,
            r.ty == ty,
            !r.is_option,
            r.default is None,
            !r.no_long,
            r.long is None,
            !r.no_short,
            r.short is None,
            r.help is None,
            !r.negated,
            !r.no_file,
            r.file is None,
            r.section is None,
            r.type_default is None,
    {
        BasicOptAttrs {
            name: name.to_owned(),
            ty,
            is_option: false,
            default: None,
            no_long: false,
            long: None,
            no_short: false,
            short: None,
            help: None,
            negated: false,
            no_file: false,
            file: None,
            section: None,
            type_default: None,
        }
    }

    /// Checks that no two of the field's attributes conflict.
    fn check_conflicts(&self) -> (r: Result<(), Error>)
        ensures
            r is Ok <==> attr_conflict(*self) is None,
            r matches Err(e) ==> attr_conflict(*self) matches Some((x, y)) && e@ == (ErrorView {
                kind: ErrorKindView::ConflictAttrs(x, y),
                field: self.name@,
            }),
    {
        let empty = self.no_short && self.no_long && self.no_file;
        let no_arg = "no_short and no_long";
        let all = "no_short, no_long and no_file";
        if empty && self.default.is_some() {
            return conflict(all, "default", &self.name);
        }
        if empty && self.long.is_some() {
            return conflict(all, "long", &self.name);
        }
        if empty && self.short.is_some() {
            return conflict(all, "short", &self.name);
        }
        if empty && self.help.is_some() {
            return conflict(all, "help", &self.name);
        }
        if empty && self.negated {
            return conflict(all, "negated", &self.name);
        }
        if empty && self.file.is_some() {
            return conflict(all, "file", &self.name);
        }
        if empty && self.section.is_some() {
            return conflict(all, "section", &self.name);
        }
        if self.no_short && self.short.is_some() {
            return conflict("no_short", "short", &self.name);
        }
        if self.no_long && self.long.is_some() {
            return conflict("no_long", "long", &self.name);
        }
        if self.no_short && self.no_long && self.negated {
            return conflict(no_arg, "negated", &self.name);
        }
        if self.no_short && self.no_long && self.help.is_some() {
            return conflict(no_arg, "help", &self.name);
        }
        if self.no_file && self.file.is_some() {
            return conflict("no_file", "file", &self.name);
        }
        if self.no_file && self.section.is_some() {
            return conflict("no_file", "section", &self.name);
        }
        Ok(())
    }

    /// Checks that no two of the field's attributes conflict and that only a
    /// boolean field is negated.
    fn check_attrs(&self) -> (r: Result<(), Error>)
        ensures
            match attrs_error(*self) {
                Some(e) => r matches Err(x) && x@ == e,
                None => r is Ok,
            },
    {
        match self.check_conflicts() {
            Err(e) => return Err(e),
            Ok(()) => {},
        }
        if self.negated && self.ty != ValueType::Bool {
            let kind = ErrorKind::Value("negated".to_owned(), type_label_str(self.ty).to_owned());
            return Err(Error::new(kind, self.name.as_str()));
        }
        Ok(())
    }

    /// Checks the attributes of the field: no two of them conflict, and only
    /// a boolean field is negated.
    pub fn init(self) -> (r: Result<BasicOptAttrs, Error>)
        ensures
            match attrs_error(self) {
                Some(e) => r matches Err(x) && x@ == e,
                None => r == Ok::<BasicOptAttrs, Error>(self),
            },
    {
        match self.check_attrs() {
            Err(e) => Err(e),
            Ok(()) => Ok(self),
        }
    }

    /// Whether the field's argument takes a value: all do but boolean flags.
    pub fn takes_value(&self) -> (r: bool)
        ensures
            r == takes_value_of(*self),
    {
        !(self.ty == ValueType::Bool && !(self.no_long && self.no_short))
    }

    /// The field's file projection, if it has one.
    pub fn parse_file(&self) -> (r: Option<OptFileData>)
        ensures
            opt_file_view(r) == file_data(*self),
    {
        if self.no_file {
            None
        } else {
            let name = match &self.file {
                Some(f) => f.clone(),
                None => self.name.clone(),
            };
            let section = match &self.section {
                Some(s) => s.clone(),
                None => DEFAULT_SECTION.to_owned(),
            };
            Some(OptFileData { name, section })
        }
    }

    /// The field's argument projection, if it has one; an error when a
    /// short name override is not exactly one character.
    pub fn parse_arg(&self) -> (r: Result<Option<OptArgData>, Error>)
        requires
            self.name@.len() > 0,
        ensures
            bad_short(*self) ==> (r matches Err(e) && e@ == (ErrorView {
                kind: ErrorKindView::Value("short"@, self.short->0@),
                field: self.name@,
            })),
            !bad_short(*self) ==> (r matches Ok(d) && opt_arg_view(d) == arg_data(*self)),
    {
        if self.no_long && self.no_short {
            return Ok(None);
        }
        let long = if self.no_long {
            None
        } else {
            match &self.long {
                Some(l) => Some(hyphenate(l.as_str())),
                None => Some(hyphenate(self.name.as_str())),
            }
        };
        let short = if self.no_short {
            None
        } else {
            match &self.short {
                Some(s) => {
                    if s.as_str().unicode_len() != 1 {
                        let kind = ErrorKind::Value("short".to_owned(), s.clone());
                        return Err(Error::new(kind, self.name.as_str()));
                    }
                    Some(s.clone())
                },
                None => Some(self.name.as_str().substring_char(0, 1).to_owned()),
            }
        };
        Ok(Some(OptArgData { long, short, help: copy_text(&self.help), negated: self.negated }))
    }

    /// The field's descriptor, or the first error in its declaration.
    pub fn parse_opt(&self) -> (r: Result<Opt, Error>)
        requires
            self.name@.len() > 0,
        ensures
            match compiled(*self) {
                Ok(o) => r matches Ok(x) && x@ == o,
                Err(e) => r matches Err(x) && x@ == e,
            },
    {
        match self.check_attrs() {
            Err(e) => return Err(e),
            Ok(()) => {},
        }
        let arg = match self.parse_arg() {
            Err(e) => return Err(e),
            Ok(a) => a,
        };
        let default = match &self.default {
            Some(t) => match parse_default(self.ty, t.as_str()) {
                Some(v) => Some(v),
                None => {
                    let kind = ErrorKind::Value("default".to_owned(), t.clone());
                    return Err(Error::new(kind, self.name.as_str()));
                },
            },
            None => if self.is_option {
                None
            } else if self.negated {
                Some(Value::Bool(true))
            } else if self.ty == ValueType::Custom {
                match &self.type_default {
                    Some(t) => Some(Value::Custom(t.clone())),
                    None => {
                        let kind = ErrorKind::Value("type_default".to_owned(), "none given".to_owned());
                        return Err(Error::new(kind, self.name.as_str()));
                    },
                }
            } else {
                Some(zero_of(self.ty))
            },
        };
        Ok(
            Opt {
                name: self.name.clone(),
                ty: self.ty,
                is_option: self.is_option,
                default,
                takes_value: self.takes_value(),
                file: self.parse_file(),
                arg,
            },
        )
    }
}

} // verus!
