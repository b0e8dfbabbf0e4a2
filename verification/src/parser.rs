//! Walking the matches of one file, one at a time.

use crate::cue::{cues_of, parse_or_report, parse_outcome, Cue, SubtitleEntry};
use crate::error::{AppError, ExtractError};
use crate::format::{detect, detected, optional_text};
use crate::matcher::{cue_match, first_hit, match_entry, matches_from_first_hit, matches_of};
use crate::record::{Match, Span};
use vstd::prelude::*;
use vstd::utf8::encode_utf8;

verus! {

/// The cues of one file that have not been searched yet, together with the
/// pattern to search them for.
pub struct Parser<'a> {
    regex: &'a regex::Regex,
    entries: Vec<SubtitleEntry>,
    cursor: usize,
}

impl<'a> Parser<'a> {
    #[verifier::type_invariant]
    spec fn cursor_in_range(&self) -> bool {
        self.cursor <= self.entries.len()
    }

    /// The pattern that the cues are searched for.
    pub closed spec fn pattern(&self) -> regex::Regex {
        *self.regex
    }

    /// The cues that are still to be searched, in file order.
    pub closed spec fn remaining(&self) -> Seq<Cue> {
        cues_of(self.entries@).skip(self.cursor as int)
    }

    /// A parser for the pattern that holds no cues yet.
    pub fn new(regex: &'a regex::Regex) -> (parser: Parser<'a>)
        ensures
            parser.pattern() == *regex,
            parser.remaining() == Seq::<Cue>::empty(),
    {
        let parser = Parser { regex, entries: Vec::new(), cursor: 0 };
        assert(parser.remaining() =~= Seq::<Cue>::empty());
        parser
    }

    /// Replaces the cues by those of the given file. Where the format is not
    /// known or the content cannot be read, the cues stay as they were.
    pub fn set_content(&mut self, extension: Option<&str>, content: String) -> (outcome: Result<
        (),
        AppError,
    >)
        ensures
            final(self).pattern() == old(self).pattern(),
            match outcome {
                Ok(()) => {
                    &&& detected(optional_text(extension), encode_utf8(content@)) matches Some(
                        format,
                    )
                    &&& parse_outcome(format, content@) == Ok::<Seq<Cue>, Seq<char>>(
                        final(self).remaining(),
                    )
                },
                Err(report) => {
                    &&& final(self).remaining() == old(self).remaining()
                    &&& match detected(optional_text(extension), encode_utf8(content@)) {
                        Some(format) => parse_outcome(format, content@) matches Err(message)
                            && report.reports("parse"@, message),
                        None => report.reports(
                            ExtractError::UnsupportedFormat.kind_text(),
                            ExtractError::UnsupportedFormat.message_text(),
                        ),
                    }
                },
            },
    {
        proof {
            use_type_invariant(&*self);
        }
        let text = content.as_str();
        match detect(extension, text.as_bytes()) {
            Some(format) => match parse_or_report(format, text) {
                Ok(entries) => {
                    self.cursor = 0;
                    self.entries = entries;
                    assert(self.remaining() =~= cues_of(self.entries@));
                    Ok(())
                },
                Err(report) => Err(report),
            },
            None => Err(AppError::from(ExtractError::UnsupportedFormat)),
        }
    }

    /// Searches the remaining cues in order up to the first in which the
    /// pattern occurs, and hands back its record. The cues that were searched
    /// are dropped; `None` means that no cue is left.
    pub fn next(&mut self) -> (found: Option<Match>)
        ensures
            final(self).pattern() == old(self).pattern(),
            match found {
                Some(record) => {
                    let hit = first_hit(old(self).pattern(), old(self).remaining());
                    &&& record@.well_formed()
                    &&& 0 <= hit < old(self).remaining().len()
                    &&& cue_match(old(self).pattern(), old(self).remaining()[hit]) == Some(record@)
                    &&& final(self).remaining() == old(self).remaining().skip(hit + 1)
                    &&& matches_of(old(self).pattern(), old(self).remaining()) == seq![record@]
                        + matches_of(final(self).pattern(), final(self).remaining())
                },
                None => {
                    &&& first_hit(old(self).pattern(), old(self).remaining()) == old(
                        self,
                    ).remaining().len()
                    &&& matches_of(old(self).pattern(), old(self).remaining()) == Seq::<
                        Span,
                    >::empty()
                    &&& final(self).remaining() == Seq::<Cue>::empty()
                },
            },
    {
        proof {
            use_type_invariant(&*self);
            matches_from_first_hit(self.pattern(), self.remaining());
        }
        let ghost start = self.cursor as int;
        let ghost cues = self.remaining();
        let ghost hit = first_hit(self.pattern(), cues);
        while self.cursor < self.entries.len()
            invariant
                self.regex == old(self).regex,
                self.entries == old(self).entries,
                start == old(self).cursor,
                start <= self.cursor <= self.entries.len(),
                cues == cues_of(self.entries@).skip(start),
                cues == old(self).remaining(),
                hit == first_hit(*self.regex, cues),
                self.cursor - start <= hit <= cues.len(),
                forall|j: int| 0 <= j < hit ==> cue_match(*self.regex, #[trigger] cues[j]) is None,
                hit < cues.len() ==> cue_match(*self.regex, cues[hit]) is Some,
                hit < cues.len() ==> matches_of(*self.regex, cues) == seq![
                    cue_match(*self.regex, cues[hit])->0,
                ] + matches_of(*self.regex, cues.skip(hit + 1)),
            decreases self.entries.len() - self.cursor,
        {
            let found = match_entry(self.regex, &self.entries[self.cursor]);
            assert(cues[self.cursor - start] == self.entries[self.cursor as int]@);
            self.cursor += 1;
            if let Some(record) = found {
                assert(self.cursor - start - 1 == hit);
                assert(self.remaining() =~= cues.skip(hit + 1));
                return Some(record);
            }
        }
        assert(self.remaining() =~= Seq::<Cue>::empty());
        assert(matches_of(self.pattern(), cues) =~= Seq::<Span>::empty());
        None
    }
}

} // verus!
