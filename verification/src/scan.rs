//! Scanning bytes of text: lines, white space, words and runs of digits.

use crate::format::{has_prefix, is_digit, starts_with, CARRIAGE_RETURN, LINE_FEED};
use vstd::prelude::*;
use vstd::slice::slice_subrange;

verus! {

/// The most digits that a number may have, zeros before it not counted.
pub const DIGIT_LIMIT: usize = 12;

/// The number of digits of the number that ends at `at`: the length of the
/// run of digits that ends there, without the zeros with which it begins.
pub open spec fn digit_run(content: Seq<u8>, at: int) -> nat
    decreases at + 1,
{
    if 0 <= at < content.len() && is_digit(content[at]) {
        let before = digit_run(content, at - 1);
        if before == 0 && content[at] == 0x30 {
            0
        } else {
            before + 1
        }
    } else {
        0
    }
}

/// No number in the content has more than [`DIGIT_LIMIT`] digits, so each is
/// below ten to the power of the limit.
pub open spec fn numbers_fit(content: Seq<u8>) -> bool {
    forall|at: int| 0 <= at < content.len() ==> #[trigger] digit_run(content, at) <= DIGIT_LIMIT
}

/// Whether no number in the content has more digits than the limit.
pub fn check_numbers(content: &[u8]) -> (fit: bool)
    ensures
        fit == numbers_fit(content@),
{
    let mut run: usize = 0;
    let mut i: usize = 0;
    while i < content.len()
        invariant
            i <= content.len(),
            run <= DIGIT_LIMIT,
            run == digit_run(content@, i - 1),
            forall|at: int| 0 <= at < i ==> #[trigger] digit_run(content@, at) <= DIGIT_LIMIT,
        decreases content.len() - i,
    {
        if 0x30 <= content[i] && content[i] <= 0x39 {
            if !(run == 0 && content[i] == 0x30) {
                run += 1;
            }
            if run > DIGIT_LIMIT {
                assert(digit_run(content@, i as int) > DIGIT_LIMIT);
                return false;
            }
        } else {
            run = 0;
        }
        i += 1;
    }
    true
}

/// Whether the byte ends a line: a line feed, or, where `with_cr` is set, a
/// carriage return too.
pub open spec fn is_break(byte: u8, with_cr: bool) -> bool {
    byte == LINE_FEED || (with_cr && byte == CARRIAGE_RETURN)
}

/// The index at which the line that holds `at` ends: that of the next line
/// break, or the length of the text.
pub open spec fn line_end(text: Seq<u8>, at: int, with_cr: bool) -> int
    decreases text.len() - at,
{
    if 0 <= at < text.len() && !is_break(text[at], with_cr) {
        line_end(text, at + 1, with_cr)
    } else {
        at
    }
}

/// A line ends at or behind the index at which it is entered, inside the
/// text.
pub proof fn line_end_bounds(text: Seq<u8>, at: int, with_cr: bool)
    requires
        0 <= at <= text.len(),
    ensures
        at <= line_end(text, at, with_cr) <= text.len(),
    decreases text.len() - at,
{
    if at < text.len() && !is_break(text[at], with_cr) {
        line_end_bounds(text, at + 1, with_cr);
    }
}

/// Finds the end of the line that holds `at`.
pub fn find_line_end(text: &[u8], at: usize, with_cr: bool) -> (end: usize)
    requires
        at <= text.len(),
    ensures
        end == line_end(text@, at as int, with_cr),
        at <= end <= text.len(),
{
    let mut end: usize = at;
    while end < text.len() && !(text[end] == LINE_FEED || (with_cr && text[end] == CARRIAGE_RETURN))
        invariant
            at <= end <= text.len(),
            line_end(text@, at as int, with_cr) == line_end(text@, end as int, with_cr),
        decreases text.len() - end,
    {
        end += 1;
    }
    end
}

/// The index at which the field that holds `at` ends: that of the next
/// comma, or the length of the line.
pub open spec fn field_end(line: Seq<u8>, at: int) -> int
    decreases line.len() - at,
{
    if 0 <= at < line.len() && line[at] != 0x2C {
        field_end(line, at + 1)
    } else {
        at
    }
}

/// A field ends at or behind the index at which it is entered, inside the
/// line.
pub proof fn field_end_bounds(line: Seq<u8>, at: int)
    requires
        0 <= at <= line.len(),
    ensures
        at <= field_end(line, at) <= line.len(),
    decreases line.len() - at,
{
    if at < line.len() && line[at] != 0x2C {
        field_end_bounds(line, at + 1);
    }
}

/// Finds the end of the field that holds `at`.
pub fn find_field_end(line: &[u8], at: usize) -> (end: usize)
    requires
        at <= line.len(),
    ensures
        end == field_end(line@, at as int),
        at <= end <= line.len(),
{
    let mut end: usize = at;
    while end < line.len() && line[end] != 0x2C
        invariant
            at <= end <= line.len(),
            field_end(line@, at as int) == field_end(line@, end as int),
        decreases line.len() - end,
    {
        end += 1;
    }
    end
}

/// The number of bytes of the white-space character that begins at `at`, or
/// 0 where none begins there. White space is what Unicode calls so: the ASCII
/// blanks and line breaks, and the spaces beyond ASCII in their UTF-8 form.
pub open spec fn space_len(text: Seq<u8>, at: int) -> int {
    if !(0 <= at < text.len()) {
        0
    } else if (0x09 <= text[at] <= 0x0D) || text[at] == 0x20 {
        1
    } else if text.len() - at >= 2 && text[at] == 0xC2 && (text[at + 1] == 0x85 || text[at + 1]
        == 0xA0) {
        2
    } else if text.len() - at >= 3 && text[at] == 0xE1 && text[at + 1] == 0x9A && text[at + 2]
        == 0x80 {
        3
    } else if text.len() - at >= 3 && text[at] == 0xE2 && text[at + 1] == 0x80 && ((0x80
        <= text[at + 2] <= 0x8A) || text[at + 2] == 0xA8 || text[at + 2] == 0xA9 || text[at + 2]
        == 0xAF) {
        3
    } else if text.len() - at >= 3 && text[at] == 0xE2 && text[at + 1] == 0x81 && text[at + 2]
        == 0x9F {
        3
    } else if text.len() - at >= 3 && text[at] == 0xE3 && text[at + 1] == 0x80 && text[at + 2]
        == 0x80 {
        3
    } else {
        0
    }
}

/// Measures the white-space character that begins at `at`.
pub fn space_at(text: &[u8], at: usize) -> (len: usize)
    ensures
        len == space_len(text@, at as int),
        len <= 3,
        len > 0 ==> at + len <= text.len(),
{
    if at >= text.len() {
        return 0;
    }
    let left = text.len() - at;
    let first = text[at];
    if (0x09 <= first && first <= 0x0D) || first == 0x20 {
        1
    } else if left >= 2 && first == 0xC2 && (text[at + 1] == 0x85 || text[at + 1] == 0xA0) {
        2
    } else if left >= 3 && first == 0xE1 && text[at + 1] == 0x9A && text[at + 2] == 0x80 {
        3
    } else if left >= 3 && first == 0xE2 && text[at + 1] == 0x80 && ((0x80 <= text[at + 2]
        && text[at + 2] <= 0x8A) || text[at + 2] == 0xA8 || text[at + 2] == 0xA9 || text[at + 2]
        == 0xAF) {
        3
    } else if left >= 3 && first == 0xE2 && text[at + 1] == 0x81 && text[at + 2] == 0x9F {
        3
    } else if left >= 3 && first == 0xE3 && text[at + 1] == 0x80 && text[at + 2] == 0x80 {
        3
    } else {
        0
    }
}

/// The index behind the white space that begins at `at`.
pub open spec fn spaces_end(text: Seq<u8>, at: int) -> int
    decreases text.len() - at,
{
    if space_len(text, at) > 0 {
        spaces_end(text, at + space_len(text, at))
    } else {
        at
    }
}

/// Skips the white space that begins at `at`.
pub fn skip_spaces(text: &[u8], at: usize) -> (end: usize)
    requires
        at <= text.len(),
    ensures
        end == spaces_end(text@, at as int),
        at <= end <= text.len(),
{
    let mut end: usize = at;
    let mut len: usize = space_at(text, end);
    while len > 0
        invariant
            at <= end <= text.len(),
            len == space_len(text@, end as int),
            spaces_end(text@, at as int) == spaces_end(text@, end as int),
        decreases text.len() - end,
    {
        end += len;
        len = space_at(text, end);
    }
    end
}

/// The index behind the last byte at or after `at` that is no part of white
/// space, or `found` where there is none.
pub open spec fn solid_end(text: Seq<u8>, at: int, found: int) -> int
    decreases text.len() - at,
{
    if !(0 <= at < text.len()) {
        found
    } else if space_len(text, at) > 0 {
        solid_end(text, at + space_len(text, at), found)
    } else {
        solid_end(text, at + 1, at + 1)
    }
}

/// Finds the end of the text without the white space behind it.
pub fn find_solid_end(text: &[u8]) -> (end: usize)
    ensures
        end == solid_end(text@, 0, 0),
        end <= text.len(),
{
    let mut at: usize = 0;
    let mut found: usize = 0;
    while at < text.len()
        invariant
            at <= text.len(),
            found <= at,
            solid_end(text@, 0, 0) == solid_end(text@, at as int, found as int),
        decreases text.len() - at,
    {
        let len = space_at(text, at);
        if len > 0 {
            at += len;
        } else {
            at += 1;
            found = at;
        }
    }
    found
}

/// The index behind the spaces and tabs that begin at `at`.
pub open spec fn blanks_end(text: Seq<u8>, at: int) -> int
    decreases text.len() - at,
{
    if 0 <= at < text.len() && (text[at] == 0x20 || text[at] == 0x09) {
        blanks_end(text, at + 1)
    } else {
        at
    }
}

/// Skips the spaces and tabs that begin at `at`.
pub fn skip_blanks(text: &[u8], at: usize) -> (end: usize)
    requires
        at <= text.len(),
    ensures
        end == blanks_end(text@, at as int),
        at <= end <= text.len(),
{
    let mut end: usize = at;
    while end < text.len() && (text[end] == 0x20 || text[end] == 0x09)
        invariant
            at <= end <= text.len(),
            blanks_end(text@, at as int) == blanks_end(text@, end as int),
        decreases text.len() - end,
    {
        end += 1;
    }
    end
}

/// Whether the word stands in the text at `at`.
pub open spec fn word_at(text: Seq<u8>, at: int, word: Seq<u8>) -> bool {
    0 <= at <= text.len() && starts_with(text.subrange(at, text.len() as int), word)
}

/// Looks for the word at `at`.
pub fn has_word(text: &[u8], at: usize, word: &[u8]) -> (found: bool)
    ensures
        found == word_at(text@, at as int, word@),
{
    at <= text.len() && has_prefix(slice_subrange(text, at, text.len()), word)
}

/// Whether the byte stands in the text at `at`.
pub open spec fn byte_is(text: Seq<u8>, at: int, byte: u8) -> bool {
    0 <= at < text.len() && text[at] == byte
}

/// Looks for the byte at `at`.
pub fn has_byte(text: &[u8], at: usize, byte: u8) -> (found: bool)
    ensures
        found == byte_is(text@, at as int, byte),
{
    at < text.len() && text[at] == byte
}

} // verus!
