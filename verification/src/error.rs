//! Error values reported by the search pipeline.

use vstd::prelude::*;
use vstd::std_specs::cmp::PartialEqSpecImpl;
use vstd::std_specs::convert::FromSpecImpl;

verus! {

/// `subparse::errors::Error`, the error of the subtitle parser: an opaque
/// value, of which only its display text is used.
#[verifier::external_type_specification]
#[verifier::external_body]
pub struct ExParseFailure(subparse::errors::Error);

/// `regex::Error`, the error of the pattern compiler: an opaque value, of
/// which only its display text is used.
#[verifier::external_type_specification]
#[verifier::external_body]
pub struct ExPatternFailure(regex::Error);

/// Why the matches of one file could not be extracted.
#[derive(Clone, Copy, Debug, PartialEq, Eq, Structural)]
pub enum ExtractError {
    /// Neither the extension nor the content identifies a subtitle format.
    UnsupportedFormat,
    /// The content is not a well-formed file of the detected format.
    MalformedContent,
    /// The search pattern is not a valid regular expression.
    InvalidPattern,
}

impl ExtractError {
    /// The kind under which this error is reported.
    pub open spec fn kind_text(self) -> Seq<char> {
        match self {
            ExtractError::UnsupportedFormat => "format"@,
            ExtractError::MalformedContent => "parse"@,
            ExtractError::InvalidPattern => "regex"@,
        }
    }

    /// The message with which this error is reported.
    pub open spec fn message_text(self) -> Seq<char> {
        match self {
            ExtractError::UnsupportedFormat => "invalid file format"@,
            ExtractError::MalformedContent => "parsing the subtitle data failed"@,
            ExtractError::InvalidPattern => "invalid search pattern"@,
        }
    }
}

/// The text that the subtitle parser's error displays.
pub uninterp spec fn parse_failure_text(failure: subparse::errors::Error) -> Seq<char>;

/// The text that the pattern compiler's error displays.
pub uninterp spec fn pattern_failure_text(failure: regex::Error) -> Seq<char>;

/// Formats a `subparse::errors::Error` through its `Display` impl.
///
/// The error's display text depends on the error value alone; it is named by
/// [`parse_failure_text`].
#[verifier::external_body]
fn display_parse_failure(failure: &subparse::errors::Error) -> (text: String)
    ensures
        text@ == parse_failure_text(*failure),
{
    failure.to_string()
}

/// Formats a `regex::Error` through its `Display` impl.
///
/// The error's display text depends on the error value alone; it is named by
/// [`pattern_failure_text`].
#[verifier::external_body]
fn display_pattern_failure(failure: &regex::Error) -> (text: String)
    ensures
        text@ == pattern_failure_text(*failure),
{
    failure.to_string()
}

/// A reportable error: a short kind and a message for the user.
#[derive(Debug)]
pub struct AppError {
    kind: String,
    message: String,
}

impl AppError {
    /// The kind of the error, as text.
    pub closed spec fn spec_kind(&self) -> Seq<char> {
        self.kind@
    }

    /// The message of the error, as text.
    pub closed spec fn spec_message(&self) -> Seq<char> {
        self.message@
    }

    /// Whether this error carries the given kind and message.
    pub open spec fn reports(&self, kind: Seq<char>, message: Seq<char>) -> bool {
        self.spec_kind() == kind && self.spec_message() == message
    }

    /// An error of the given kind with the given message.
    pub fn new(kind: String, message: String) -> (error: AppError)
        ensures
            error.reports(kind@, message@),
    {
        AppError { kind, message }
    }

    /// The kind of the error: `format`, `parse`, `regex`, or one of the
    /// caller's own.
    pub fn kind(&self) -> (kind: &str)
        ensures
            kind@ == self.spec_kind(),
    {
        self.kind.as_str()
    }

    /// The message for the user.
    pub fn message(&self) -> (message: &str)
        ensures
            message@ == self.spec_message(),
    {
        self.message.as_str()
    }

    /// The full text of the error: the kind, a line feed and the message.
    pub fn debug_text(&self) -> (text: String)
        ensures
            text@ == self.spec_kind() + seq!['\n'] + self.spec_message(),
    {
        let mut text = self.kind.clone();
        proof {
            reveal_strlit("\n");
            assert("\n"@ =~= seq!['\n']);
        }
        text.append("\n");
        text.append(self.message.as_str());
        text
    }

    /// The text shown to the user: the message alone.
    pub fn describe(&self) -> (text: String)
        ensures
            text@ == self.spec_message(),
    {
        self.message.clone()
    }
}

impl PartialEq for AppError {
    fn eq(&self, other: &AppError) -> (equal: bool) {
        self.kind == other.kind && self.message == other.message
    }
}

impl PartialEqSpecImpl for AppError {
    open spec fn obeys_eq_spec() -> bool {
        true
    }

    open spec fn eq_spec(&self, other: &AppError) -> bool {
        self.spec_kind() == other.spec_kind() && self.spec_message() == other.spec_message()
    }
}

impl Clone for AppError {
    fn clone(&self) -> (copy: AppError)
        ensures
            copy.reports(self.spec_kind(), self.spec_message()),
    {
        AppError { kind: self.kind.clone(), message: self.message.clone() }
    }
}

/// Two errors with the same text need not be the same value, so each
/// conversion states its result in its own `ensures`.
impl FromSpecImpl<ExtractError> for AppError {
    open spec fn obeys_from_spec() -> bool {
        false
    }

    open spec fn from_spec(error: ExtractError) -> AppError {
        choose|report: AppError| report.reports(error.kind_text(), error.message_text())
    }
}

impl From<ExtractError> for AppError {
    fn from(error: ExtractError) -> (report: AppError)
        ensures
            report.reports(error.kind_text(), error.message_text()),
    {
        match error {
            ExtractError::UnsupportedFormat => AppError {
                kind: "format".to_owned(),
                message: "invalid file format".to_owned(),
            },
            ExtractError::MalformedContent => AppError {
                kind: "parse".to_owned(),
                message: "parsing the subtitle data failed".to_owned(),
            },
            ExtractError::InvalidPattern => AppError {
                kind: "regex".to_owned(),
                message: "invalid search pattern".to_owned(),
            },
        }
    }
}

impl FromSpecImpl<subparse::errors::Error> for AppError {
    open spec fn obeys_from_spec() -> bool {
        false
    }

    open spec fn from_spec(failure: subparse::errors::Error) -> AppError {
        choose|report: AppError| report.reports("parse"@, parse_failure_text(failure))
    }
}

impl From<subparse::errors::Error> for AppError {
    fn from(failure: subparse::errors::Error) -> (report: AppError)
        ensures
            report.reports("parse"@, parse_failure_text(failure)),
    {
        AppError { kind: "parse".to_owned(), message: display_parse_failure(&failure) }
    }
}

impl FromSpecImpl<regex::Error> for AppError {
    open spec fn obeys_from_spec() -> bool {
        false
    }

    open spec fn from_spec(failure: regex::Error) -> AppError {
        choose|report: AppError| report.reports("regex"@, pattern_failure_text(failure))
    }
}

impl From<regex::Error> for AppError {
    fn from(failure: regex::Error) -> (report: AppError)
        ensures
            report.reports("regex"@, pattern_failure_text(failure)),
    {
        AppError { kind: "regex".to_owned(), message: display_pattern_failure(&failure) }
    }
}

} // verus!
