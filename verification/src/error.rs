//! What can go wrong, and how it reads.

use crate::number::{append_decimal, decimal};
use vstd::prelude::*;
use vstd::string::StringExecFns;

verus! {

/// `std::io::Error`, the cause of a failure to read or write. It is
/// carried along and never looked into.
#[verifier::external_type_specification]
#[verifier::external_body]
pub struct ExIoError(std::io::Error);

/// What went wrong.
#[derive(Debug)]
pub enum AamlError {
    /// Reading or writing a file failed.
    IoError(std::io::Error),
    /// A line, or the arguments of a directive, are not well formed.
    /// `line` counts from 1; a directive's handler, which does not know its
    /// line, gives 0.
    ParseError { line: usize, content: String, details: String },
    /// No type, or no built-in type, of that name.
    NotFound(String),
    /// A value does not meet the rule of a type.
    InvalidValue(String),
    /// A value does not meet the rule of the type registered as `name`.
    InvalidType { name: String, details: String },
}

/// An [`AamlError`] with its texts as character sequences. The cause of an
/// I/O failure is not part of it.
pub enum ErrorView {
    Io,
    Parse { line: nat, content: Seq<char>, details: Seq<char> },
    NotFound(Seq<char>),
    InvalidValue(Seq<char>),
    InvalidType { name: Seq<char>, details: Seq<char> },
}

impl ErrorView {
    /// How the error reads. Of an I/O failure this is the start only: the
    /// description of its cause follows.
    pub open spec fn text(self) -> Seq<char> {
        match self {
            ErrorView::Io => "IO Error: "@,
            ErrorView::Parse { line, content, details } => "Parse Error at line "@ + decimal(line)
                + ": '"@ + content + "'. Reason: "@ + details,
            ErrorView::NotFound(key) => "Key not found: '"@ + key + "'"@,
            ErrorView::InvalidValue(message) => "Invalid value: "@ + message,
            ErrorView::InvalidType { name, details } => "Invalid type '"@ + name
                + "': "@ + details,
        }
    }
}

impl View for AamlError {
    type V = ErrorView;

    open spec fn view(&self) -> ErrorView {
        match self {
            AamlError::IoError(_) => ErrorView::Io,
            AamlError::ParseError { line, content, details } => ErrorView::Parse {
                line: *line as nat,
                content: content@,
                details: details@,
            },
            AamlError::NotFound(key) => ErrorView::NotFound(key@),
            AamlError::InvalidValue(message) => ErrorView::InvalidValue(message@),
            AamlError::InvalidType { name, details } => ErrorView::InvalidType {
                name: name@,
                details: details@,
            },
        }
    }
}

/// A result without a value, its error taken by its view.
pub open spec fn outcome(r: Result<(), AamlError>) -> Result<(), ErrorView> {
    match r {
        Ok(_) => Ok(()),
        Err(e) => Err(e@),
    }
}

/// The description that `std::io::Error` gives of itself through
/// `Display`. It depends on the operating system, so nothing is claimed of
/// it.
#[verifier::external_body]
fn io_error_text(err: &std::io::Error) -> String {
    format!("{}", err)
}

/// `before`, `middle` and `after` in one text.
pub fn join3(before: &str, middle: &str, after: &str) -> (r: String)
    ensures
        r@ == before@ + middle@ + after@,
{
    let mut r = String::from_str(before);
    r.append(middle);
    r.append(after);
    r
}

impl AamlError {
    /// The error of a value that does not meet a type's rule, its message
    /// made of `value` between two fixed texts.
    pub fn invalid_value(before: &str, value: &str, after: &str) -> (e: AamlError)
        ensures
            e@ == ErrorView::InvalidValue(before@ + value@ + after@),
    {
        AamlError::InvalidValue(join3(before, value, after))
    }

    /// The error of a name that stands for nothing.
    pub fn not_found(name: &str) -> (e: AamlError)
        ensures
            e@ == ErrorView::NotFound(name@),
    {
        AamlError::NotFound(String::from_str(name))
    }

    /// The error of arguments that a directive's handler cannot take.
    pub fn bad_arguments(args: &str, details: &str) -> (e: AamlError)
        ensures
            e@ == (ErrorView::Parse { line: 0, content: args@, details: details@ }),
    {
        AamlError::ParseError {
            line: 0,
            content: String::from_str(args),
            details: String::from_str(details),
        }
    }

    /// How the error reads.
    pub fn message(&self) -> (r: String)
        ensures
            self@ is Io ==> self@.text().is_prefix_of(r@),
            !(self@ is Io) ==> r@ == self@.text(),
    {
        match self {
            AamlError::IoError(err) => {
                let cause = io_error_text(err);
                let mut r = String::from_str("IO Error: ");
                r.append(cause.as_str());
                assert(r@.subrange(0, "IO Error: "@.len() as int) =~= "IO Error: "@);
                r
            },
            AamlError::ParseError { line, content, details } => {
                let mut r = String::from_str("Parse Error at line ");
                append_decimal(&mut r, *line);
                r.append(": '");
                r.append(content.as_str());
                r.append("'. Reason: ");
                r.append(details.as_str());
                assert(r@ =~= self@.text());
                r
            },
            AamlError::NotFound(key) => join3("Key not found: '", key.as_str(), "'"),
            AamlError::InvalidValue(message) => {
                let mut r = String::from_str("Invalid value: ");
                r.append(message.as_str());
                r
            },
            AamlError::InvalidType { name, details } => {
                let mut r = join3("Invalid type '", name.as_str(), "': ");
                r.append(details.as_str());
                assert(r@ =~= self@.text());
                r
            },
        }
    }
}

impl From<std::io::Error> for AamlError {
    fn from(err: std::io::Error) -> (r: AamlError) {
        AamlError::IoError(err)
    }
}

impl vstd::std_specs::convert::FromSpecImpl<std::io::Error> for AamlError {
    open spec fn obeys_from_spec() -> bool {
        true
    }

    open spec fn from_spec(err: std::io::Error) -> AamlError {
        AamlError::IoError(err)
    }
}

} // verus!
