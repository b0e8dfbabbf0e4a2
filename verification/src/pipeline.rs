//! From the content of one file to its matches.

use crate::cue::{parse, parse_outcome};
use crate::error::{pattern_failure_text, AppError, ExtractError};
use crate::format::{detect, detected, optional_text};
use crate::matcher::{match_entries, matches_of, spans_of};
use crate::record::{Match, Span};
use vstd::prelude::*;
use vstd::utf8::encode_utf8;

verus! {

/// What a file yields: the records of its cues in file order, or the reason
/// why it cannot be searched.
pub open spec fn extracted(
    extension: Option<Seq<char>>,
    content: Seq<char>,
    pattern: regex::Regex,
) -> Result<Seq<Span>, ExtractError> {
    match detected(extension, encode_utf8(content)) {
        Some(format) => match parse_outcome(format, content) {
            Ok(cues) => Ok(matches_of(pattern, cues)),
            Err(_) => Err(ExtractError::MalformedContent),
        },
        None => Err(ExtractError::UnsupportedFormat),
    }
}

/// Detects the format of the file, reads its cues and searches each for the
/// first occurrence of the pattern.
pub fn extract_matches(extension: Option<&str>, content: &str, pattern: &regex::Regex) -> (outcome:
    Result<Vec<Match>, ExtractError>)
    ensures
        match outcome {
            Ok(records) => {
                &&& extracted(optional_text(extension), content@, *pattern) == Ok::<
                    Seq<Span>,
                    ExtractError,
                >(spans_of(records@))
                &&& forall|i: int| 0 <= i < records.len() ==> (#[trigger] records[i])@.well_formed()
            },
            Err(error) => extracted(optional_text(extension), content@, *pattern) == Err::<
                Seq<Span>,
                ExtractError,
            >(error),
        },
{
    match detect(extension, content.as_bytes()) {
        Some(format) => match parse(format, content) {
            Ok(entries) => Ok(match_entries(pattern, &entries)),
            Err(error) => Err(error),
        },
        None => Err(ExtractError::UnsupportedFormat),
    }
}

/// Extracting from the same file with the same pattern again gives the same
/// outcome: the same error, or records that are equal one by one.
pub proof fn extraction_is_repeatable(
    extension: Option<Seq<char>>,
    content: Seq<char>,
    pattern: regex::Regex,
    first: Result<Seq<Match>, ExtractError>,
    second: Result<Seq<Match>, ExtractError>,
)
    requires
        first matches Ok(records) ==> extracted(extension, content, pattern) == Ok::<
            Seq<Span>,
            ExtractError,
        >(spans_of(records)),
        first matches Err(error) ==> extracted(extension, content, pattern) == Err::<
            Seq<Span>,
            ExtractError,
        >(error),
        second matches Ok(records) ==> extracted(extension, content, pattern) == Ok::<
            Seq<Span>,
            ExtractError,
        >(spans_of(records)),
        second matches Err(error) ==> extracted(extension, content, pattern) == Err::<
            Seq<Span>,
            ExtractError,
        >(error),
    ensures
        first is Ok <==> second is Ok,
        first is Err ==> first->Err_0 == second->Err_0,
        first is Ok ==> {
            &&& first->Ok_0.len() == second->Ok_0.len()
            &&& forall|i: int|
                0 <= i < first->Ok_0.len() ==> (#[trigger] first->Ok_0[i])@ == second->Ok_0[i]@
        },
{
    if let Ok(records) = first {
        let others = second->Ok_0;
        assert(spans_of(records).len() == records.len());
        assert(spans_of(others).len() == others.len());
        assert forall|i: int| 0 <= i < records.len() implies (#[trigger] records[i])@
            == others[i]@ by {
            assert(spans_of(records)[i] == records[i]@);
            assert(spans_of(others)[i] == others[i]@);
        }
    }
}

/// The text that a compiled pattern was made from, as
/// `regex::Regex::as_str` gives it.
pub uninterp spec fn pattern_text(pattern: regex::Regex) -> Seq<char>;

/// Compiles the pattern for searching. The compiled pattern is made from
/// the text handed in, the whole of it and nothing else. Which patterns are
/// refused is for the compiler to say; one that is refused is reported under
/// the kind `regex`, with the compiler's own message, and nothing is
/// compiled.
pub fn compile_pattern(pattern: &str) -> (outcome: Result<regex::Regex, AppError>)
    ensures
        match outcome {
            Ok(regex) => pattern_text(regex) == pattern@,
            Err(report) => exists|failure: regex::Error|
                report.reports("regex"@, #[trigger] pattern_failure_text(failure)),
        },
{
    match compile(pattern) {
        Ok(regex) => Ok(regex),
        Err(failure) => Err(AppError::from(failure)),
    }
}

/// Calls `regex::Regex::new`, which compiles the pattern or says why it
/// cannot.
///
/// The pattern that it returns holds the text it was given: `Regex::as_str`
/// hands that text back unchanged, which [`pattern_text`] names.
#[verifier::external_body]
fn compile(pattern: &str) -> (outcome: Result<regex::Regex, regex::Error>)
    ensures
        outcome matches Ok(regex) ==> pattern_text(regex) == pattern@,
{
    regex::Regex::new(pattern)
}

} // verus!
