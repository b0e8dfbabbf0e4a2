//! Reading the cues of a subtitle file.
//!
//! The file is read as a whole: one cue that cannot be read fails the file.
//! Content on which the parser would stop the program is not handed to it:
//! it is malformed. Which content that is, the module `limits` says.

use crate::error::{parse_failure_text, AppError, ExtractError};
use crate::format::SubtitleFormat;
use crate::limits::{check_limits, within_limits};
use vstd::prelude::*;
use vstd::string::StringSliceAdditionalSpecFns;
use vstd::utf8::encode_utf8;

verus! {

/// One cue as a plain value: its text, where it has any, and the time in
/// milliseconds at which it is shown and hidden.
pub struct Cue {
    pub line: Option<Seq<char>>,
    pub start_ms: int,
    pub end_ms: int,
}

/// One cue of a subtitle file. A cue of several lines holds them joined by
/// line feeds; a cue of an image format holds no text.
#[derive(Debug, PartialEq, Eq)]
pub struct SubtitleEntry {
    pub line: Option<String>,
    pub start_ms: i64,
    pub end_ms: i64,
}

impl View for SubtitleEntry {
    type V = Cue;

    open spec fn view(&self) -> Cue {
        Cue {
            line: match self.line {
                Some(text) => Some(text@),
                None => None,
            },
            start_ms: self.start_ms as int,
            end_ms: self.end_ms as int,
        }
    }
}

impl Clone for SubtitleEntry {
    fn clone(&self) -> (copy: SubtitleEntry)
        ensures
            copy@ == self@,
    {
        SubtitleEntry {
            line: match &self.line {
                Some(text) => Some(text.clone()),
                None => None,
            },
            start_ms: self.start_ms,
            end_ms: self.end_ms,
        }
    }
}

/// The cues that a sequence of entries stands for.
pub open spec fn cues_of(entries: Seq<SubtitleEntry>) -> Seq<Cue> {
    entries.map_values(|entry: SubtitleEntry| entry@)
}

/// The frames per second assumed for formats that count time in frames.
pub const FRAME_RATE: u8 = 30;

/// What the subtitle parser makes of the content: its cues in file order, or
/// the text of its error.
pub uninterp spec fn parsed(format: SubtitleFormat, content: Seq<char>, frame_rate: int) -> Result<
    Seq<Cue>,
    Seq<char>,
>;

/// Calls `subparse::parse_str` and, on the file it returns,
/// `SubtitleFile::get_subtitle_entries`.
///
/// Both are functions of their arguments alone; what they return is named by
/// [`parsed`]. The parser stops the program where it reads a number of too
/// many digits, finds the line that names the fields of the events indented,
/// or meets a line of dialogue without its two times; within
/// [`within_limits`] none of these can happen.
#[verifier::external_body]
fn read_entries(format: SubtitleFormat, content: &str, frame_rate: u8) -> (outcome: Result<
    Vec<SubtitleEntry>,
    subparse::errors::Error,
>)
    requires
        within_limits(format, content.spec_bytes()),
    ensures
        match outcome {
            Ok(entries) => parsed(format, content@, frame_rate as int) == Ok::<
                Seq<Cue>,
                Seq<char>,
            >(cues_of(entries@)),
            Err(failure) => parsed(format, content@, frame_rate as int) == Err::<
                Seq<Cue>,
                Seq<char>,
            >(parse_failure_text(failure)),
        },
{
    let format = match format {
        SubtitleFormat::SubRip => subparse::SubtitleFormat::SubRip,
        SubtitleFormat::SubStationAlpha => subparse::SubtitleFormat::SubStationAlpha,
        SubtitleFormat::VobSubIdx => subparse::SubtitleFormat::VobSubIdx,
        SubtitleFormat::VobSubSub => subparse::SubtitleFormat::VobSubSub,
        SubtitleFormat::MicroDVD => subparse::SubtitleFormat::MicroDVD,
    };
    let entries = subparse::parse_str(format, content, frame_rate.into())?.get_subtitle_entries()?;
    Ok(entries.into_iter().map(|entry| SubtitleEntry {
        line: entry.line,
        start_ms: entry.timespan.start.msecs(),
        end_ms: entry.timespan.end.msecs(),
    }).collect())
}

/// The message reported for content that cannot be handed to the parser.
pub open spec fn limits_text() -> Seq<char> {
    "content is beyond what the parser can read"@
}

/// What reading the content as the given format yields: the cues in file
/// order, or the message of the failure.
pub open spec fn parse_outcome(format: SubtitleFormat, content: Seq<char>) -> Result<
    Seq<Cue>,
    Seq<char>,
> {
    if within_limits(format, encode_utf8(content)) {
        parsed(format, content, FRAME_RATE as int)
    } else {
        Err(limits_text())
    }
}

/// Reads the cues of the content as the given format, in file order, and
/// reports a failure with the parser's own message.
pub fn parse_or_report(format: SubtitleFormat, content: &str) -> (outcome: Result<
    Vec<SubtitleEntry>,
    AppError,
>)
    ensures
        match outcome {
            Ok(entries) => parse_outcome(format, content@) == Ok::<Seq<Cue>, Seq<char>>(
                cues_of(entries@),
            ),
            Err(report) => parse_outcome(format, content@) matches Err(message) && report.reports(
                "parse"@,
                message,
            ),
        },
{
    if !check_limits(format, content.as_bytes()) {
        return Err(
            AppError::new("parse".to_owned(), "content is beyond what the parser can read".to_owned()),
        );
    }
    match read_entries(format, content, FRAME_RATE) {
        Ok(entries) => Ok(entries),
        Err(failure) => Err(AppError::from(failure)),
    }
}

/// Reads the cues of the content as the given format, in file order.
pub fn parse(format: SubtitleFormat, content: &str) -> (outcome: Result<
    Vec<SubtitleEntry>,
    ExtractError,
>)
    ensures
        match outcome {
            Ok(entries) => parse_outcome(format, content@) == Ok::<Seq<Cue>, Seq<char>>(
                cues_of(entries@),
            ),
            Err(error) => error == ExtractError::MalformedContent && parse_outcome(
                format,
                content@,
            ) is Err,
        },
{
    match parse_or_report(format, content) {
        Ok(entries) => Ok(entries),
        Err(_) => Err(ExtractError::MalformedContent),
    }
}

} // verus!
