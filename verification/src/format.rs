//! Deciding which subtitle format a file holds.
//!
//! The extension is looked up first, without regard to letter case. Where it
//! is absent or unknown, the first bytes of the content decide.

use vstd::prelude::*;
use vstd::slice::slice_subrange;
use vstd::string::StringSliceAdditionalSpecFns;

verus! {

/// The subtitle formats that can be searched.
#[derive(Clone, Copy, Debug, PartialEq, Eq, Structural)]
pub enum SubtitleFormat {
    /// SubRip text (`.srt`).
    SubRip,
    /// SubStation Alpha text (`.ssa`, `.ass`).
    SubStationAlpha,
    /// VobSub index text (`.idx`).
    VobSubIdx,
    /// VobSub binary images (`.sub`).
    VobSubSub,
    /// MicroDVD text (`.sub`).
    MicroDVD,
}

pub const LINE_FEED: u8 = 0x0A;

pub const CARRIAGE_RETURN: u8 = 0x0D;

pub const OPEN_BRACE: u8 = 0x7B;

pub const CLOSE_BRACE: u8 = 0x7D;

/// The view of an optional string slice.
pub open spec fn optional_text(text: Option<&str>) -> Option<Seq<char>> {
    match text {
        Some(text) => Some(text@),
        None => None,
    }
}

/// The lower-case form of an ASCII capital; every other character unchanged.
pub open spec fn ascii_lower(c: char) -> char {
    if 'A' <= c && c <= 'Z' {
        ((c as u8) + 32) as char
    } else {
        c
    }
}

/// The text with each ASCII capital replaced by its lower-case form.
pub open spec fn lowered(text: Seq<char>) -> Seq<char> {
    text.map_values(|c: char| ascii_lower(c))
}

/// Whether `content` begins with `prefix`.
pub open spec fn starts_with(content: Seq<u8>, prefix: Seq<u8>) -> bool {
    prefix.len() <= content.len() && content.subrange(0, prefix.len() as int) == prefix
}

/// The four bytes with which a VobSub image file begins.
pub open spec fn vobsub_magic() -> Seq<u8> {
    seq![0x00u8, 0x00u8, 0x01u8, 0xbau8]
}

/// The UTF-8 byte order mark.
pub open spec fn byte_order_mark() -> Seq<u8> {
    seq![0xEFu8, 0xBBu8, 0xBFu8]
}

/// The format that the extension stands for. `sub` is shared by two formats,
/// which the first four bytes of the content tell apart.
pub open spec fn extension_format(extension: Option<Seq<char>>, content: Seq<u8>) -> Option<
    SubtitleFormat,
> {
    if extension == Some("sub"@) {
        if starts_with(content, vobsub_magic()) {
            Some(SubtitleFormat::VobSubSub)
        } else {
            Some(SubtitleFormat::MicroDVD)
        }
    } else if extension == Some("srt"@) {
        Some(SubtitleFormat::SubRip)
    } else if extension == Some("ssa"@) || extension == Some("ass"@) {
        Some(SubtitleFormat::SubStationAlpha)
    } else if extension == Some("idx"@) {
        Some(SubtitleFormat::VobSubIdx)
    } else {
        None
    }
}

/// Calls `str::to_ascii_lowercase`: a copy of the text in which the ASCII
/// letters `A` to `Z` are replaced by `a` to `z` and nothing else changes.
#[verifier::external_body]
fn lowercase(text: &str) -> (lower: String)
    ensures
        lower@ == lowered(text@),
{
    text.to_ascii_lowercase()
}

/// Calls `subparse::get_subtitle_format`, which compares the extension with
/// `srt`, `ssa`, `ass`, `idx` and `sub` letter for letter, and for `sub` looks
/// for the VobSub magic number at the start of the content.
#[verifier::external_body]
fn format_by_extension(extension: Option<&str>, content: &[u8]) -> (format: Option<SubtitleFormat>)
    ensures
        format == extension_format(optional_text(extension), content@),
{
    match subparse::get_subtitle_format(extension.map(|text| text.as_ref()), content) {
        Some(subparse::SubtitleFormat::SubRip) => Some(SubtitleFormat::SubRip),
        Some(subparse::SubtitleFormat::SubStationAlpha) => Some(SubtitleFormat::SubStationAlpha),
        Some(subparse::SubtitleFormat::VobSubIdx) => Some(SubtitleFormat::VobSubIdx),
        Some(subparse::SubtitleFormat::VobSubSub) => Some(SubtitleFormat::VobSubSub),
        Some(subparse::SubtitleFormat::MicroDVD) => Some(SubtitleFormat::MicroDVD),
        None => None,
    }
}

/// Whether the byte is an ASCII decimal digit.
pub open spec fn is_digit(byte: u8) -> bool {
    0x30 <= byte <= 0x39
}

/// The index at which the run of digits that begins at `start` ends.
pub open spec fn digits_end(content: Seq<u8>, start: int) -> int
    decreases content.len() - start,
{
    if 0 <= start < content.len() && is_digit(content[start]) {
        digits_end(content, start + 1)
    } else {
        start
    }
}

/// The index behind the line break at `at`, or `at` where there is none.
pub open spec fn line_break_end(content: Seq<u8>, at: int) -> int {
    if 0 <= at < content.len() && content[at] == LINE_FEED {
        at + 1
    } else if 0 <= at && at + 1 < content.len() && content[at] == CARRIAGE_RETURN && content[at
        + 1] == LINE_FEED {
        at + 2
    } else {
        at
    }
}

/// A cue number on a line of its own, followed by a line that begins with a
/// digit, as a timing line does.
pub open spec fn looks_like_subrip(text: Seq<u8>) -> bool {
    let number_end = digits_end(text, 0);
    let next_line = line_break_end(text, number_end);
    &&& 0 < number_end
    &&& number_end < next_line
    &&& next_line < text.len()
    &&& is_digit(text[next_line])
}

/// Two frame numbers in braces, each of at least one digit.
pub open spec fn looks_like_microdvd(text: Seq<u8>) -> bool {
    let first_end = digits_end(text, 1);
    let second_end = digits_end(text, first_end + 2);
    &&& 0 < text.len() && text[0] == OPEN_BRACE
    &&& 1 < first_end
    &&& first_end + 1 < text.len()
    &&& text[first_end] == CLOSE_BRACE
    &&& text[first_end + 1] == OPEN_BRACE
    &&& first_end + 2 < second_end
    &&& second_end < text.len()
    &&& text[second_end] == CLOSE_BRACE
}

/// The content without a leading byte order mark.
pub open spec fn without_mark(content: Seq<u8>) -> Seq<u8> {
    if starts_with(content, byte_order_mark()) {
        content.subrange(3, content.len() as int)
    } else {
        content
    }
}

/// The format that the start of the content shows, if any.
pub open spec fn sniffed(content: Seq<u8>) -> Option<SubtitleFormat> {
    let text = without_mark(content);
    if starts_with(content, vobsub_magic()) {
        Some(SubtitleFormat::VobSubSub)
    } else if starts_with(text, "[Script Info]".spec_bytes()) {
        Some(SubtitleFormat::SubStationAlpha)
    } else if starts_with(text, "# VobSub index file".spec_bytes()) {
        Some(SubtitleFormat::VobSubIdx)
    } else if looks_like_microdvd(text) {
        Some(SubtitleFormat::MicroDVD)
    } else if looks_like_subrip(text) {
        Some(SubtitleFormat::SubRip)
    } else {
        None
    }
}

/// The format of a file with the given extension and content: the one that
/// the extension stands for, else the one that the content shows.
pub open spec fn detected(extension: Option<Seq<char>>, content: Seq<u8>) -> Option<
    SubtitleFormat,
> {
    let known = match extension {
        Some(text) => extension_format(Some(lowered(text)), content),
        None => None,
    };
    match known {
        Some(format) => Some(format),
        None => sniffed(content),
    }
}

/// Whether `content` begins with `prefix`.
pub fn has_prefix(content: &[u8], prefix: &[u8]) -> (found: bool)
    ensures
        found == starts_with(content@, prefix@),
{
    if prefix.len() > content.len() {
        return false;
    }
    let mut i: usize = 0;
    while i < prefix.len()
        invariant
            i <= prefix.len() <= content.len(),
            content@.subrange(0, i as int) == prefix@.subrange(0, i as int),
        decreases prefix.len() - i,
    {
        if content[i] != prefix[i] {
            assert(content@.subrange(0, prefix.len() as int)[i as int] != prefix@[i as int]);
            return false;
        }
        assert(content@.subrange(0, i + 1) =~= content@.subrange(0, i as int).push(content@[i as int]));
        assert(prefix@.subrange(0, i + 1) =~= prefix@.subrange(0, i as int).push(prefix@[i as int]));
        i += 1;
    }
    assert(prefix@.subrange(0, prefix.len() as int) =~= prefix@);
    true
}

fn digit_at(content: &[u8], at: usize) -> (found: bool)
    ensures
        found == (at < content.len() && is_digit(content@[at as int])),
{
    at < content.len() && 0x30 <= content[at] && content[at] <= 0x39
}

fn byte_at(content: &[u8], at: usize, byte: u8) -> (found: bool)
    ensures
        found == (at < content.len() && content@[at as int] == byte),
{
    at < content.len() && content[at] == byte
}

/// Skips the digits that begin at `start`.
pub fn skip_digits(content: &[u8], start: usize) -> (end: usize)
    requires
        start <= content.len(),
    ensures
        end == digits_end(content@, start as int),
        start <= end <= content.len(),
{
    let mut end: usize = start;
    while digit_at(content, end)
        invariant
            start <= end <= content.len(),
            digits_end(content@, start as int) == digits_end(content@, end as int),
        decreases content.len() - end,
    {
        end += 1;
    }
    end
}

fn skip_line_break(content: &[u8], at: usize) -> (end: usize)
    requires
        at <= content.len(),
    ensures
        end == line_break_end(content@, at as int),
        at <= end <= content.len(),
{
    if byte_at(content, at, LINE_FEED) {
        at + 1
    } else if byte_at(content, at, CARRIAGE_RETURN) && byte_at(content, at + 1, LINE_FEED) {
        at + 2
    } else {
        at
    }
}

fn subrip_start(text: &[u8]) -> (found: bool)
    ensures
        found == looks_like_subrip(text@),
{
    let number_end = skip_digits(text, 0);
    let next_line = skip_line_break(text, number_end);
    0 < number_end && number_end < next_line && digit_at(text, next_line)
}

fn microdvd_start(text: &[u8]) -> (found: bool)
    ensures
        found == looks_like_microdvd(text@),
{
    if !byte_at(text, 0, OPEN_BRACE) {
        return false;
    }
    let first_end = skip_digits(text, 1);
    if !(1 < first_end && byte_at(text, first_end, CLOSE_BRACE) && byte_at(
        text,
        first_end + 1,
        OPEN_BRACE,
    )) {
        return false;
    }
    let second_end = skip_digits(text, first_end + 2);
    first_end + 2 < second_end && byte_at(text, second_end, CLOSE_BRACE)
}

/// Decides the format from the start of the content alone.
pub fn sniff(content: &[u8]) -> (format: Option<SubtitleFormat>)
    ensures
        format == sniffed(content@),
{
    let magic: [u8; 4] = [0x00, 0x00, 0x01, 0xba];
    let mark: [u8; 3] = [0xEF, 0xBB, 0xBF];
    assert(magic@ =~= vobsub_magic());
    assert(mark@ =~= byte_order_mark());
    if has_prefix(content, magic.as_slice()) {
        return Some(SubtitleFormat::VobSubSub);
    }
    let text = if has_prefix(content, mark.as_slice()) {
        slice_subrange(content, 3, content.len())
    } else {
        content
    };
    if has_prefix(text, "[Script Info]".as_bytes()) {
        Some(SubtitleFormat::SubStationAlpha)
    } else if has_prefix(text, "# VobSub index file".as_bytes()) {
        Some(SubtitleFormat::VobSubIdx)
    } else if microdvd_start(text) {
        Some(SubtitleFormat::MicroDVD)
    } else if subrip_start(text) {
        Some(SubtitleFormat::SubRip)
    } else {
        None
    }
}

/// Decides the format of a file from its extension, if it has one, and its
/// content. `None` means that the file is no subtitle file that can be read.
pub fn detect(extension: Option<&str>, content: &[u8]) -> (format: Option<SubtitleFormat>)
    ensures
        format == detected(optional_text(extension), content@),
{
    let known = match extension {
        Some(text) => {
            let lower = lowercase(text);
            format_by_extension(Some(lower.as_str()), content)
        },
        None => None,
    };
    match known {
        Some(format) => Some(format),
        None => sniff(content),
    }
}

/// An extension is advisory: where it stands for no format, the content
/// alone decides, whatever the extension is.
pub proof fn unknown_extension_defers_to_content(extension: Seq<char>, content: Seq<u8>)
    requires
        extension_format(Some(lowered(extension)), content) is None,
    ensures
        detected(Some(extension), content) == sniffed(content),
        detected(None, content) == sniffed(content),
{
}

} // verus!
