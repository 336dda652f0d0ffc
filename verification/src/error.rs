//! Errors the library's rules can raise.

use vstd::prelude::*;
use vstd::string::StringExecFns;

verus! {

/// Failures of the database layer that the rules here decide on.
#[derive(Debug, Clone)]
pub enum DatabaseError {
    /// The request conflicts with the current state of a row.
    Conflict(String),
    /// A row with the same unique key exists already.
    UniqueViolation(String),
}

/// Errors raised by the library's rules.
#[derive(Debug, Clone)]
pub enum WyrmError {
    /// A folder name was empty once trimmed.
    EmptyFolderName,
    Database(DatabaseError),
}

/// What can be wrong with a custom webhook's payload template.
#[derive(Debug, Clone)]
pub enum TemplateError {
    /// A `Custom` webhook had no `payload_template`.
    Missing,
    /// The template was not valid JSON; the parser's message.
    InvalidJson(String),
    /// A `${...}` placeholder named a variable that does not exist.
    UnknownVar(String),
    /// An array or object variable was interpolated inside a string.
    NonScalarInString(String),
    /// A `${` was never closed with `}`.
    UnterminatedToken(String),
}

pub open spec fn template_message(e: TemplateError) -> Seq<char> {
    match e {
        TemplateError::Missing => "custom webhook requires a payload template"@,
        TemplateError::InvalidJson(m) => "template is not valid JSON: "@ + m@,
        TemplateError::UnknownVar(v) => "unknown template variable `${"@ + v@ + "}`"@,
        TemplateError::NonScalarInString(v) => "cannot embed array/object variable `${"@ + v@
            + "}` inside a string; use it as the whole value instead"@,
        TemplateError::UnterminatedToken(t) => "unterminated `${` in template string `"@ + t@ + "`"@,
    }
}

impl TemplateError {
    /// The text shown for the error.
    pub fn message(&self) -> (s: String)
        ensures
            s@ == template_message(*self),
    {
        match self {
            TemplateError::Missing => String::from_str("custom webhook requires a payload template"),
            TemplateError::InvalidJson(m) => {
                let mut s = String::from_str("template is not valid JSON: ");
                s.append(m.as_str());
                s
            },
            TemplateError::UnknownVar(v) => {
                let mut s = String::from_str("unknown template variable `${");
                s.append(v.as_str());
                s.append("}`");
                s
            },
            TemplateError::NonScalarInString(v) => {
                let mut s = String::from_str("cannot embed array/object variable `${");
                s.append(v.as_str());
                s.append("}` inside a string; use it as the whole value instead");
                s
            },
            TemplateError::UnterminatedToken(t) => {
                let mut s = String::from_str("unterminated `${` in template string `");
                s.append(t.as_str());
                s.append("`");
                s
            },
        }
    }
}

} // verus!
