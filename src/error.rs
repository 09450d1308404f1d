//! Errors found while compiling a schema: attributes that cannot go
//! together, identifiers shared by two fields, and values that are invalid
//! for an attribute.
use vstd::prelude::*;

verus! {

/// What is wrong with a field's declaration.
#[derive(Debug, Clone, PartialEq, Eq)]
pub enum ErrorKind {
    /// Two attributes that cannot go together in one field.
    ConflictAttrs(String, String),
    /// An identifier of the given class (`short`, `long` or `file`), with the
    /// given value, already taken by the field named last.
    ConflictIDs(String, String, String),
    /// An attribute whose value is invalid, with that value.
    Value(String, String),
}

/// A schema error, with the field that it was found in.
#[derive(Debug, Clone, PartialEq, Eq)]
pub struct Error {
    pub kind: ErrorKind,
    pub field: String,
}

pub ghost enum ErrorKindView {
    ConflictAttrs(Seq<char>, Seq<char>),
    ConflictIDs(Seq<char>, Seq<char>, Seq<char>),
    Value(Seq<char>, Seq<char>),
}

pub ghost struct ErrorView {
    pub kind: ErrorKindView,
    pub field: Seq<char>,
}

impl View for ErrorKind {
    type V = ErrorKindView;

    open spec fn view(&self) -> ErrorKindView {
        match self {
            ErrorKind::ConflictAttrs(a, b) => ErrorKindView::ConflictAttrs(a@, b@),
            ErrorKind::ConflictIDs(c, v, f) => ErrorKindView::ConflictIDs(c@, v@, f@),
            ErrorKind::Value(a, v) => ErrorKindView::Value(a@, v@),
        }
    }
}

impl View for Error {
    type V = ErrorView;

    open spec fn view(&self) -> ErrorView {
        ErrorView { kind: self.kind@, field: self.field@ }
    }
}

/// The text that describes an error.
pub open spec fn error_message(e: ErrorView) -> Seq<char> {
    match e.kind {
        ErrorKindView::ConflictAttrs(a, b) => "`"@ + a + "` and `"@ + b
            + "` are conflicting attributes in field `"@ + e.field + "`"@,
        ErrorKindView::ConflictIDs(c, v, f) => "the `"@ + c + "` identifier `"@ + v
            + "` of field `"@ + e.field + "` is already used by field `"@ + f + "`"@,
        ErrorKindView::Value(a, v) => "invalid value for `"@ + a + "` in field `"@ + e.field
            + "`: "@ + v,
    }
}

impl Error {
    /// An error of the given kind in the named field.
    pub fn new(kind: ErrorKind, field: &str) -> (r: Error)
        ensures
            r@ == (ErrorView { kind: kind@, field: field@ }),
    {
        Error { kind, field: field.to_owned() }
    }

    /// A description of the error for people.
    pub fn message(&self) -> (r: String)
        ensures
            r@ == error_message(self@),
    {
        match &self.kind {
            ErrorKind::ConflictAttrs(a, b) => {
                let mut s = String::from_str("`");
                s.append(a.as_str());
                s.append("` and `");
                s.append(b.as_str());
                s.append("` are conflicting attributes in field `");
                s.append(self.field.as_str());
                s.append("`");
                s
            },
            ErrorKind::ConflictIDs(c, v, f) => {
                let mut s = String::from_str("the `");
                s.append(c.as_str());
                s.append("` identifier `");
                s.append(v.as_str());
                s.append("` of field `");
                s.append(self.field.as_str());
                s.append("` is already used by field `");
                s.append(f.as_str());
                s.append("`");
                s
            },
            ErrorKind::Value(a, v) => {
                let mut s = String::from_str("invalid value for `");
                s.append(a.as_str());
                s.append("` in field `");
                s.append(self.field.as_str());
                s.append("`: ");
                s.append(v.as_str());
                s
            },
        }
    }
}

} // verus!
