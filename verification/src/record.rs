//! The record of one match inside one cue.

use vstd::prelude::*;
use vstd::std_specs::cmp::PartialEqSpecImpl;
use vstd::string::StringSliceAdditionalSpecFns;
use vstd::utf8::*;

verus! {

/// A span `[start, end)` of byte offsets into the UTF-8 encoding of `line`.
pub struct Span {
    pub line: Seq<char>,
    pub start: int,
    pub end: int,
}

impl Span {
    /// The UTF-8 encoding of the line.
    pub open spec fn bytes(self) -> Seq<u8> {
        encode_utf8(self.line)
    }

    /// The offsets are ordered, lie inside the line and split no character.
    pub open spec fn well_formed(self) -> bool {
        &&& 0 <= self.start <= self.end <= self.bytes().len()
        &&& is_char_boundary(self.bytes(), self.start)
        &&& is_char_boundary(self.bytes(), self.end)
    }

    /// The bytes that the span covers.
    pub open spec fn covered(self) -> Seq<u8> {
        self.bytes().subrange(self.start, self.end)
    }
}

/// The first match of the pattern in one cue: the cue's whole text and the
/// byte offsets of the matched part.
#[derive(Debug)]
pub struct Match {
    pub line: String,
    pub start: usize,
    pub end: usize,
}

impl View for Match {
    type V = Span;

    open spec fn view(&self) -> Span {
        Span { line: self.line@, start: self.start as int, end: self.end as int }
    }
}

impl PartialEq for Match {
    fn eq(&self, other: &Match) -> (equal: bool) {
        self.line == other.line && self.start == other.start && self.end == other.end
    }
}

impl PartialEqSpecImpl for Match {
    open spec fn obeys_eq_spec() -> bool {
        true
    }

    open spec fn eq_spec(&self, other: &Match) -> bool {
        self@ == other@
    }
}

impl Clone for Match {
    fn clone(&self) -> (copy: Match)
        ensures
            copy@ == self@,
    {
        Match { line: self.line.clone(), start: self.start, end: self.end }
    }
}

/// In valid UTF-8, a boundary of the whole is a boundary of each piece cut at
/// another boundary.
proof fn boundary_in_tail(bytes: Seq<u8>, cut: int, index: int)
    requires
        valid_utf8(bytes),
        0 <= cut <= index <= bytes.len(),
        is_char_boundary(bytes, cut),
        is_char_boundary(bytes, index),
    ensures
        valid_utf8(bytes.subrange(cut, bytes.len() as int)),
        is_char_boundary(bytes.subrange(cut, bytes.len() as int), index - cut),
{
    let tail = bytes.subrange(cut, bytes.len() as int);
    valid_utf8_split(bytes, cut);
    if index == bytes.len() {
        is_char_boundary_start_end_of_seq(tail);
    } else {
        is_char_boundary_iff_not_is_continuation_byte(bytes, index);
        is_char_boundary_iff_not_is_continuation_byte(tail, index - cut);
    }
}

impl Match {
    /// Cuts the line into the text before the match, the matched text and the
    /// text after it.
    pub fn parts(&self) -> (parts: (&str, &str, &str))
        requires
            self@.well_formed(),
        ensures
            parts.0.spec_bytes() == self@.bytes().subrange(0, self@.start),
            parts.1.spec_bytes() == self@.covered(),
            parts.2.spec_bytes() == self@.bytes().subrange(self@.end, self@.bytes().len() as int),
            parts.0@ + parts.1@ + parts.2@ == self.line@,
    {
        let line = self.line.as_str();
        let ghost bytes = line.spec_bytes();
        proof {
            encode_utf8_valid_utf8(line@);
            boundary_in_tail(bytes, self.start as int, self.end as int);
        }
        let (before, rest) = line.split_at(self.start);
        let ghost tail = bytes.subrange(self.start as int, bytes.len() as int);
        assert(rest.spec_bytes() == tail);
        let (matched, after) = rest.split_at(self.end - self.start);
        proof {
            assert(matched.spec_bytes() == self@.covered());
            assert(after.spec_bytes() == bytes.subrange(self.end as int, bytes.len() as int));
            encode_utf8_decode_utf8(line@);
            encode_utf8_decode_utf8(before@);
            encode_utf8_decode_utf8(rest@);
            encode_utf8_decode_utf8(matched@);
            encode_utf8_decode_utf8(after@);
            decode_utf8_split(bytes, self.start as int);
            decode_utf8_split(tail, self.end - self.start);
            assert(tail.subrange(0, self.end - self.start) == self@.covered());
            assert(tail.subrange(self.end - self.start, tail.len() as int) == after.spec_bytes());
            assert(line@ =~= before@ + (matched@ + after@));
            assert(before@ + matched@ + after@ =~= before@ + (matched@ + after@));
        }
        (before, matched, after)
    }
}

} // verus!
