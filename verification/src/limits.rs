//! The content that can be handed to the parser.
//!
//! The parser turns the digits of a time or a frame number into a number and
//! computes with it; on a number that is too long it stops the program. In a
//! SubStation Alpha file it does so too where the line that names the fields
//! of the events is indented, and where a line of dialogue breaks off before
//! its two times. Content is within the limits where none of this can happen:
//! every number in a place where the parser reads one has at most twelve
//! digits, zeros before it not counted, that line is not indented, and every
//! line of dialogue holds both times. Digits anywhere else, in the text of a
//! cue or in a cue number, are not limited.

use crate::format::{
    byte_order_mark, digits_end, has_prefix, skip_digits, starts_with, SubtitleFormat,
};
use crate::scan::{
    blanks_end, byte_is, check_numbers, field_end, field_end_bounds, find_field_end,
    find_line_end, find_solid_end, has_byte, has_word, line_end, line_end_bounds, numbers_fit,
    skip_blanks, skip_spaces, solid_end, spaces_end, word_at,
};
use vstd::prelude::*;
use vstd::slice::slice_subrange;
use vstd::string::StringSliceAdditionalSpecFns;

verus! {

/// The text of a file: its content without a leading byte order mark.
pub open spec fn text_of(content: Seq<u8>) -> Seq<u8> {
    if starts_with(content, byte_order_mark()) {
        content.subrange(3, content.len() as int)
    } else {
        content
    }
}

/// Cuts a leading byte order mark off the content.
pub fn text_part(content: &[u8]) -> (text: &[u8])
    ensures
        text@ == text_of(content@),
{
    let mark: [u8; 3] = [0xEF, 0xBB, 0xBF];
    assert(mark@ =~= byte_order_mark());
    if has_prefix(content, mark.as_slice()) {
        slice_subrange(content, 3, content.len())
    } else {
        content
    }
}

/// Whether the line holds white space only.
pub open spec fn is_blank(line: Seq<u8>) -> bool {
    spaces_end(line, 0) >= line.len()
}

/// Where the reader of SubRip text stands before a line.
#[derive(Clone, Copy, Debug, PartialEq, Eq, Structural)]
pub enum Place {
    /// Between two cues: a blank line or a cue number follows.
    Gap,
    /// Behind a cue number: the timing line follows.
    Timing,
    /// Inside a cue: a line of its text follows, or the blank line that ends it.
    Text,
}

/// Where the reader stands behind a line, given where it stood before it.
pub open spec fn place_after(place: Place, blank: bool) -> Place {
    match place {
        Place::Gap => if blank {
            Place::Gap
        } else {
            Place::Timing
        },
        Place::Timing => Place::Text,
        Place::Text => if blank {
            Place::Gap
        } else {
            Place::Text
        },
    }
}

/// In SubRip text read from `at`, no timing line holds a number that is too
/// long.
pub open spec fn timing_lines_fit(text: Seq<u8>, at: int, place: Place) -> bool
    decreases text.len() - at,
{
    if !(0 <= at <= text.len()) {
        true
    } else {
        let end = line_end(text, at, false);
        let line = text.subrange(at, end);
        proof {
            line_end_bounds(text, at, false);
        }
        if place == Place::Timing && !numbers_fit(line) {
            false
        } else if end >= text.len() {
            true
        } else {
            timing_lines_fit(text, end + 1, place_after(place, is_blank(line)))
        }
    }
}

/// Checks the timing lines of SubRip text.
pub fn check_timing_lines(text: &[u8]) -> (fit: bool)
    ensures
        fit == timing_lines_fit(text@, 0, Place::Gap),
{
    let mut at: usize = 0;
    let mut place = Place::Gap;
    loop
        invariant
            at <= text.len(),
            timing_lines_fit(text@, 0, Place::Gap) == timing_lines_fit(text@, at as int, place),
        decreases text.len() - at,
    {
        let end = find_line_end(text, at, false);
        let line = slice_subrange(text, at, end);
        let timing = match place {
            Place::Timing => true,
            _ => false,
        };
        if timing && !check_numbers(line) {
            return false;
        }
        if end >= text.len() {
            return true;
        }
        let blank = skip_spaces(line, 0) >= line.len();
        place = match place {
            Place::Gap => if blank {
                Place::Gap
            } else {
                Place::Timing
            },
            Place::Timing => Place::Text,
            Place::Text => if blank {
                Place::Gap
            } else {
                Place::Text
            },
        };
        at = end + 1;
    }
}

/// The index at which a number begins that stands at `at`: behind its sign,
/// where it has one.
pub open spec fn number_start(line: Seq<u8>, at: int) -> int {
    if byte_is(line, at, 0x2D) {
        at + 1
    } else {
        at
    }
}

/// The two frame numbers with which a MicroDVD line begins are not too long.
pub open spec fn frames_fit(line: Seq<u8>) -> bool {
    if byte_is(line, 0, 0x7B) {
        let first = number_start(line, 1);
        let first_end = digits_end(line, first);
        if !numbers_fit(line.subrange(first, first_end)) {
            false
        } else if first < first_end && byte_is(line, first_end, 0x7D) && byte_is(
            line,
            first_end + 1,
            0x7B,
        ) {
            let second = number_start(line, first_end + 2);
            numbers_fit(line.subrange(second, digits_end(line, second)))
        } else {
            true
        }
    } else {
        true
    }
}

fn find_number_start(line: &[u8], at: usize) -> (start: usize)
    requires
        at <= line.len(),
    ensures
        start == number_start(line@, at as int),
        at <= start <= line.len(),
{
    if has_byte(line, at, 0x2D) {
        at + 1
    } else {
        at
    }
}

/// Checks the frame numbers of one MicroDVD line.
pub fn check_frames(line: &[u8]) -> (fit: bool)
    ensures
        fit == frames_fit(line@),
{
    if !has_byte(line, 0, 0x7B) {
        return true;
    }
    let first = find_number_start(line, 1);
    let first_end = skip_digits(line, first);
    if !check_numbers(slice_subrange(line, first, first_end)) {
        return false;
    }
    if first < first_end && has_byte(line, first_end, 0x7D) && has_byte(line, first_end + 1, 0x7B) {
        let second = find_number_start(line, first_end + 2);
        let second_end = skip_digits(line, second);
        check_numbers(slice_subrange(line, second, second_end))
    } else {
        true
    }
}

/// The index behind the digits and colons that begin at `at`.
pub open spec fn stamp_end(line: Seq<u8>, at: int) -> int
    decreases line.len() - at,
{
    if 0 <= at < line.len() && ((0x30 <= line[at] <= 0x39) || line[at] == 0x3A) {
        stamp_end(line, at + 1)
    } else {
        at
    }
}

fn find_stamp_end(line: &[u8], at: usize) -> (end: usize)
    requires
        at <= line.len(),
    ensures
        end == stamp_end(line@, at as int),
        at <= end <= line.len(),
{
    let mut end: usize = at;
    while end < line.len() && ((0x30 <= line[end] && line[end] <= 0x39) || line[end] == 0x3A)
        invariant
            at <= end <= line.len(),
            stamp_end(line@, at as int) == stamp_end(line@, end as int),
        decreases line.len() - end,
    {
        end += 1;
    }
    end
}

/// The time stamp of a VobSub index line, where the line has one, holds no
/// number that is too long.
pub open spec fn stamp_fits(line: Seq<u8>) -> bool {
    let word = blanks_end(line, 0);
    if word_at(line, word, "timestamp:".spec_bytes()) {
        let stamp = blanks_end(line, word + 10);
        numbers_fit(line.subrange(stamp, stamp_end(line, stamp)))
    } else {
        true
    }
}

/// Checks the time stamp of one VobSub index line.
pub fn check_stamp(line: &[u8]) -> (fit: bool)
    ensures
        fit == stamp_fits(line@),
{
    let word = skip_blanks(line, 0);
    if has_word(line, word, "timestamp:".as_bytes()) {
        proof {
            reveal_strlit("timestamp:");
            vstd::string::is_ascii_spec_bytes("timestamp:");
        }
        let stamp = skip_blanks(line, word + 10);
        let end = find_stamp_end(line, stamp);
        check_numbers(slice_subrange(line, stamp, end))
    } else {
        true
    }
}

/// The kinds of line of which each is held to a limit of its own.
#[derive(Clone, Copy, Debug, PartialEq, Eq, Structural)]
pub enum LineKind {
    /// A line of MicroDVD text; lines end at a line feed.
    Frames,
    /// A line of a VobSub index; lines end at a line feed or a carriage return.
    Stamp,
}

impl LineKind {
    /// Whether a carriage return ends a line of this kind.
    pub open spec fn ends_at_return(self) -> bool {
        self == LineKind::Stamp
    }

    /// Whether the line is within the limit of its kind.
    pub open spec fn fits(self, line: Seq<u8>) -> bool {
        match self {
            LineKind::Frames => frames_fit(line),
            LineKind::Stamp => stamp_fits(line),
        }
    }
}

/// Every line of the text from `at` on is within the limit of its kind.
pub open spec fn lines_fit(text: Seq<u8>, at: int, kind: LineKind) -> bool
    decreases text.len() - at,
{
    if !(0 <= at <= text.len()) {
        true
    } else {
        let end = line_end(text, at, kind.ends_at_return());
        proof {
            line_end_bounds(text, at, kind.ends_at_return());
        }
        if !kind.fits(text.subrange(at, end)) {
            false
        } else if end >= text.len() {
            true
        } else {
            lines_fit(text, end + 1, kind)
        }
    }
}

/// Checks every line of the text against the limit of its kind.
pub fn check_lines(text: &[u8], kind: LineKind) -> (fit: bool)
    ensures
        fit == lines_fit(text@, 0, kind),
{
    let with_cr = match kind {
        LineKind::Frames => false,
        LineKind::Stamp => true,
    };
    let mut at: usize = 0;
    loop
        invariant
            at <= text.len(),
            with_cr == kind.ends_at_return(),
            lines_fit(text@, 0, kind) == lines_fit(text@, at as int, kind),
        decreases text.len() - at,
    {
        let end = find_line_end(text, at, with_cr);
        let line = slice_subrange(text, at, end);
        let fit = match kind {
            LineKind::Frames => check_frames(line),
            LineKind::Stamp => check_stamp(line),
        };
        if !fit {
            return false;
        }
        if end >= text.len() {
            return true;
        }
        at = end + 1;
    }
}

/// Whether the line, without the white space around it, is a section header:
/// it begins with an opening and ends with a closing bracket.
pub open spec fn is_header(line: Seq<u8>) -> bool {
    let from = spaces_end(line, 0);
    let to = solid_end(line, 0, 0);
    from < to && byte_is(line, from, 0x5B) && byte_is(line, to - 1, 0x5D)
}

/// Whether the line, without the white space around it, is the header of the
/// section of events.
pub open spec fn opens_events(line: Seq<u8>) -> bool {
    let from = spaces_end(line, 0);
    solid_end(line, 0, 0) - from == 8 && word_at(line, from, "[Events]".spec_bytes())
}

/// Whether the reader is inside the section of events behind the line, given
/// whether it was before it.
pub open spec fn in_events_after(line: Seq<u8>, before: bool) -> bool {
    if is_header(line) {
        opens_events(line)
    } else {
        before
    }
}

/// Whether the line begins with the word, white space before it set aside.
pub open spec fn begins_with(line: Seq<u8>, word: Seq<u8>) -> bool {
    word_at(line, spaces_end(line, 0), word)
}

fn read_section(line: &[u8], before: bool) -> (events: bool)
    ensures
        events == in_events_after(line@, before),
{
    let from = skip_spaces(line, 0);
    let to = find_solid_end(line);
    if from < to && has_byte(line, from, 0x5B) && has_byte(line, to - 1, 0x5D) {
        to - from == 8 && has_word(line, from, "[Events]".as_bytes())
    } else {
        before
    }
}

fn line_begins_with(line: &[u8], word: &[u8]) -> (found: bool)
    ensures
        found == begins_with(line@, word@),
{
    let from = skip_spaces(line, 0);
    has_word(line, from, word)
}

/// The index at which the first line of the section of events begins that
/// begins with `Format:`, looking from `at` on. Lines end at a line feed.
pub open spec fn format_line(text: Seq<u8>, at: int, in_events: bool) -> Option<int>
    decreases text.len() - at,
{
    if !(0 <= at <= text.len()) {
        None
    } else {
        let end = line_end(text, at, false);
        let line = text.subrange(at, end);
        proof {
            line_end_bounds(text, at, false);
        }
        if in_events_after(line, in_events) && begins_with(line, "Format:".spec_bytes()) {
            Some(at)
        } else if end >= text.len() {
            None
        } else {
            format_line(text, end + 1, in_events_after(line, in_events))
        }
    }
}

/// Finds the line that names the fields of the events.
pub fn find_format_line(text: &[u8]) -> (found: Option<usize>)
    ensures
        match found {
            Some(at) => format_line(text@, 0, false) == Some(at as int) && at <= text.len(),
            None => format_line(text@, 0, false) is None,
        },
{
    let mut at: usize = 0;
    let mut in_events = false;
    loop
        invariant
            at <= text.len(),
            format_line(text@, 0, false) == format_line(text@, at as int, in_events),
        decreases text.len() - at,
    {
        let end = find_line_end(text, at, false);
        let line = slice_subrange(text, at, end);
        in_events = read_section(line, in_events);
        if in_events && line_begins_with(line, "Format:".as_bytes()) {
            return Some(at);
        }
        if end >= text.len() {
            return None;
        }
        at = end + 1;
    }
}

/// Whether the field that begins at `at` holds the name and, around it, white
/// space only.
pub open spec fn field_named(line: Seq<u8>, at: int, name: Seq<u8>) -> bool {
    let field = line.subrange(at, field_end(line, at));
    let from = spaces_end(field, 0);
    word_at(field, from, name) && spaces_end(field, from + name.len()) >= field.len()
}

fn field_has_name(line: &[u8], at: usize, end: usize, name: &[u8]) -> (found: bool)
    requires
        at <= end <= line.len(),
        end == field_end(line@, at as int),
    ensures
        found == field_named(line@, at as int, name@),
{
    let field = slice_subrange(line, at, end);
    let from = skip_spaces(field, 0);
    if has_word(field, from, name) {
        skip_spaces(field, from + name.len()) >= field.len()
    } else {
        false
    }
}

/// The number of the first field, counted from `index` at `at`, that holds
/// the name. Fields are parted by commas.
pub open spec fn field_index(line: Seq<u8>, at: int, index: int, name: Seq<u8>) -> Option<int>
    decreases line.len() - at,
{
    if !(0 <= at <= line.len()) {
        None
    } else {
        let end = field_end(line, at);
        proof {
            field_end_bounds(line, at);
        }
        if field_named(line, at, name) {
            Some(index)
        } else if end >= line.len() {
            None
        } else {
            field_index(line, end + 1, index + 1, name)
        }
    }
}

/// Finds the number of the first field behind `from` that holds the name.
pub fn find_field(line: &[u8], from: usize, name: &[u8]) -> (found: Option<usize>)
    ensures
        match found {
            Some(index) => field_index(line@, from as int, 0, name@) == Some(index as int),
            None => field_index(line@, from as int, 0, name@) is None,
        },
{
    if from > line.len() {
        return None;
    }
    let mut at: usize = from;
    let mut index: usize = 0;
    loop
        invariant
            from <= at <= line.len(),
            index <= at,
            field_index(line@, from as int, 0, name@) == field_index(
                line@,
                at as int,
                index as int,
                name@,
            ),
        decreases line.len() - at,
    {
        let end = find_field_end(line, at);
        if field_has_name(line, at, end, name) {
            return Some(index);
        }
        if end >= line.len() {
            return None;
        }
        at = end + 1;
        index += 1;
    }
}

/// The index at which the field begins that stands `count` fields behind the
/// one at `at`, where the line has so many.
pub open spec fn nth_field(line: Seq<u8>, at: int, count: int) -> Option<int>
    decreases line.len() - at,
{
    if !(0 <= at <= line.len()) {
        None
    } else if count <= 0 {
        Some(at)
    } else {
        let end = field_end(line, at);
        proof {
            field_end_bounds(line, at);
        }
        if end >= line.len() {
            None
        } else {
            nth_field(line, end + 1, count - 1)
        }
    }
}

/// The field of that number stands in the line, closed by a comma, and holds
/// no number that is too long.
pub open spec fn time_field_fits(line: Seq<u8>, from: int, number: int) -> bool {
    match nth_field(line, from, number) {
        Some(at) => field_end(line, at) < line.len() && numbers_fit(
            line.subrange(at, field_end(line, at)),
        ),
        None => false,
    }
}

fn check_time_field(line: &[u8], from: usize, number: usize) -> (fit: bool)
    requires
        from <= line.len(),
    ensures
        fit == time_field_fits(line@, from as int, number as int),
{
    let mut at: usize = from;
    let mut left: usize = number;
    while left > 0
        invariant
            at <= line.len(),
            nth_field(line@, from as int, number as int) == nth_field(
                line@,
                at as int,
                left as int,
            ),
        decreases left,
    {
        let end = find_field_end(line, at);
        if end >= line.len() {
            return false;
        }
        at = end + 1;
        left -= 1;
    }
    let end = find_field_end(line, at);
    end < line.len() && check_numbers(slice_subrange(line, at, end))
}

/// A line of dialogue, where the line is one, holds its two times, and they
/// hold no number that is too long.
pub open spec fn dialogue_fits(line: Seq<u8>, start_field: int, end_field: int) -> bool {
    let word = spaces_end(line, 0);
    if word_at(line, word, "Dialogue:".spec_bytes()) {
        let from = blanks_end(line, word + 9);
        time_field_fits(line, from, start_field) && time_field_fits(line, from, end_field)
    } else {
        true
    }
}

/// Checks the two times of one line.
pub fn check_dialogue(line: &[u8], start_field: usize, end_field: usize) -> (fit: bool)
    ensures
        fit == dialogue_fits(line@, start_field as int, end_field as int),
{
    let word = skip_spaces(line, 0);
    if has_word(line, word, "Dialogue:".as_bytes()) {
        proof {
            reveal_strlit("Dialogue:");
            vstd::string::is_ascii_spec_bytes("Dialogue:");
        }
        let from = skip_blanks(line, word + 9);
        check_time_field(line, from, start_field) && check_time_field(line, from, end_field)
    } else {
        true
    }
}

/// Every line of dialogue in the section of events, from `at` on, holds its
/// two times, neither of them too long. Lines end at a line feed or a carriage
/// return.
pub open spec fn dialogues_fit(
    text: Seq<u8>,
    at: int,
    in_events: bool,
    start_field: int,
    end_field: int,
) -> bool
    decreases text.len() - at,
{
    if !(0 <= at <= text.len()) {
        true
    } else {
        let end = line_end(text, at, true);
        let line = text.subrange(at, end);
        proof {
            line_end_bounds(text, at, true);
        }
        if in_events_after(line, in_events) && !dialogue_fits(line, start_field, end_field) {
            false
        } else if end >= text.len() {
            true
        } else {
            dialogues_fit(text, end + 1, in_events_after(line, in_events), start_field, end_field)
        }
    }
}

/// Checks the times of the lines of dialogue.
pub fn check_dialogues(text: &[u8], start_field: usize, end_field: usize) -> (fit: bool)
    ensures
        fit == dialogues_fit(text@, 0, false, start_field as int, end_field as int),
{
    let mut at: usize = 0;
    let mut in_events = false;
    loop
        invariant
            at <= text.len(),
            dialogues_fit(text@, 0, false, start_field as int, end_field as int) == dialogues_fit(
                text@,
                at as int,
                in_events,
                start_field as int,
                end_field as int,
            ),
        decreases text.len() - at,
    {
        let end = find_line_end(text, at, true);
        let line = slice_subrange(text, at, end);
        in_events = read_section(line, in_events);
        if in_events && !check_dialogue(line, start_field, end_field) {
            return false;
        }
        if end >= text.len() {
            return true;
        }
        at = end + 1;
    }
}

/// SubStation Alpha text can be read: the line that names the fields of the
/// events is not indented, and every line of dialogue holds its two times,
/// neither of them too long. Without that line, or without a field `Start` or
/// `End` in it, no line of dialogue is read at all.
pub open spec fn events_fit(text: Seq<u8>) -> bool {
    match format_line(text, 0, false) {
        Some(at) => {
            let line = text.subrange(at, line_end(text, at, false));
            if spaces_end(line, 0) != 0 {
                false
            } else {
                match (
                    field_index(line, 7, 0, "Start".spec_bytes()),
                    field_index(line, 7, 0, "End".spec_bytes()),
                ) {
                    (Some(start_field), Some(end_field)) => dialogues_fit(
                        text,
                        0,
                        false,
                        start_field,
                        end_field,
                    ),
                    _ => true,
                }
            }
        },
        None => true,
    }
}

/// Checks SubStation Alpha text.
pub fn check_events(text: &[u8]) -> (fit: bool)
    ensures
        fit == events_fit(text@),
{
    match find_format_line(text) {
        Some(at) => {
            let end = find_line_end(text, at, false);
            let line = slice_subrange(text, at, end);
            if skip_spaces(line, 0) != 0 {
                return false;
            }
            let start_field = find_field(line, 7, "Start".as_bytes());
            let end_field = find_field(line, 7, "End".as_bytes());
            match (start_field, end_field) {
                (Some(start_field), Some(end_field)) => check_dialogues(
                    text,
                    start_field,
                    end_field,
                ),
                _ => true,
            }
        },
        None => true,
    }
}

/// The limits within which content of the given format is handed to the
/// parser.
pub open spec fn within_limits(format: SubtitleFormat, content: Seq<u8>) -> bool {
    match format {
        SubtitleFormat::SubRip => timing_lines_fit(text_of(content), 0, Place::Gap),
        SubtitleFormat::SubStationAlpha => events_fit(text_of(content)),
        SubtitleFormat::VobSubIdx => lines_fit(text_of(content), 0, LineKind::Stamp),
        SubtitleFormat::VobSubSub => true,
        SubtitleFormat::MicroDVD => lines_fit(text_of(content), 0, LineKind::Frames),
    }
}

/// Whether the content is within the limits for the given format.
pub fn check_limits(format: SubtitleFormat, content: &[u8]) -> (within: bool)
    ensures
        within == within_limits(format, content@),
{
    match format {
        SubtitleFormat::SubRip => check_timing_lines(text_part(content)),
        SubtitleFormat::SubStationAlpha => check_events(text_part(content)),
        SubtitleFormat::VobSubIdx => check_lines(text_part(content), LineKind::Stamp),
        SubtitleFormat::VobSubSub => true,
        SubtitleFormat::MicroDVD => check_lines(text_part(content), LineKind::Frames),
    }
}

} // verus!
