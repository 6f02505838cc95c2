use vstd::prelude::*;

verus! {

/// A message that does not have the Conventional Commit shape.
#[derive(Debug, Clone, PartialEq, Eq)]
pub struct ParseError {
    pub kind: ParseErrorKind,
    pub message: String,
}

#[derive(Debug, Clone, Copy, PartialEq, Eq, Structural)]
pub enum ParseErrorKind {
    EmptyMessage,
    MissingType,
    InvalidType,
    InvalidScope,
    MissingColon,
    MissingDescription,
    InvalidBody,
    InvalidFooter,
    InvalidFormat,
}

/// A well-formed message that breaks the configured policy.
#[derive(Debug, Clone, PartialEq, Eq)]
pub struct LintError {
    pub kind: LintErrorKind,
    pub message: String,
}

#[derive(Debug, Clone, PartialEq, Eq)]
pub enum LintErrorKind {
    SubjectTooLong { max: usize, actual: usize },
    SubjectEndsWithPunctuation,
    BannedPhrase { phrase: String },
    DisallowedType { ty: String },
}

#[derive(Debug, Clone, PartialEq, Eq)]
pub enum MessageError {
    Parse(ParseError),
    Lint(LintError),
}

/// The text that goes with each kind of parse error.
pub open spec fn parse_error_text(kind: ParseErrorKind) -> Seq<char> {
    match kind {
        ParseErrorKind::EmptyMessage => "generated commit message is empty"@,
        ParseErrorKind::InvalidBody => "commit body must be separated from subject by a blank line"@,
        ParseErrorKind::InvalidFooter => "commit footer is invalid"@,
        _ => "commit subject must look like '<type>: <summary>'"@,
    }
}

impl ParseError {
    pub(crate) fn new(kind: ParseErrorKind, message: String) -> (r: ParseError)
        ensures
            r.kind == kind,
            r.message@ == message@,
    {
        ParseError { kind, message }
    }

    /// The error for a kind, with its fixed text.
    pub(crate) fn of_kind(kind: ParseErrorKind) -> (r: ParseError)
        ensures
            r.kind == kind,
            r.message@ == parse_error_text(kind),
    {
        let text = match kind {
            ParseErrorKind::EmptyMessage => "generated commit message is empty",
            ParseErrorKind::InvalidBody => "commit body must be separated from subject by a blank line",
            ParseErrorKind::InvalidFooter => "commit footer is invalid",
            _ => conventional_shape_text(),
        };
        ParseError::new(kind, text.to_owned())
    }

    /// The error's text.
    pub fn to_string(&self) -> (r: String)
        ensures
            r@ == self.message@,
    {
        self.message.clone()
    }
}

fn conventional_shape_text() -> (r: &'static str)
    ensures
        r@ == "commit subject must look like '<type>: <summary>'"@,
{
    "commit subject must look like '<type>: <summary>'"
}

/// The error of a malformed header.
pub(crate) fn conventional_shape_error(kind: ParseErrorKind) -> (r: ParseError)
    ensures
        r.kind == kind,
        r.message@ == "commit subject must look like '<type>: <summary>'"@,
{
    ParseError::new(kind, conventional_shape_text().to_owned())
}

impl LintError {
    pub(crate) fn new(kind: LintErrorKind, message: String) -> (r: LintError)
        ensures
            r.kind == kind,
            r.message@ == message@,
    {
        LintError { kind, message }
    }

    /// The error's text.
    pub fn to_string(&self) -> (r: String)
        ensures
            r@ == self.message@,
    {
        self.message.clone()
    }
}

/// The text of a message error: that of the error inside.
pub open spec fn message_error_text(e: MessageError) -> Seq<char> {
    match e {
        MessageError::Parse(p) => p.message@,
        MessageError::Lint(l) => l.message@,
    }
}

impl MessageError {
    /// The error's text.
    pub fn to_string(&self) -> (r: String)
        ensures
            r@ == message_error_text(*self),
    {
        match self {
            MessageError::Parse(error) => error.to_string(),
            MessageError::Lint(error) => error.to_string(),
        }
    }
}

} // verus!
