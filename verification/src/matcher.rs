//! Matching a compiled pattern against the cues of a file.
//!
//! Each cue is searched for the first occurrence of the pattern only. A cue
//! without text, or with empty text, is never reported.

use crate::cue::{cues_of, Cue, SubtitleEntry};
use crate::record::{Match, Span};
use vstd::prelude::*;
use vstd::string::StringSliceAdditionalSpecFns;
use vstd::utf8::is_char_boundary;

verus! {

/// `regex::Regex`, a compiled pattern: an opaque value that is handed on to
/// the search as it came.
#[verifier::external_type_specification]
#[verifier::external_body]
pub struct ExRegex(regex::Regex);

/// The byte offsets of the leftmost match of the pattern in the text, if the
/// pattern occurs in it.
pub uninterp spec fn leftmost_match(pattern: regex::Regex, text: Seq<char>) -> Option<(int, int)>;

/// Calls `regex::Regex::find` and hands back the offsets of the match.
///
/// The search depends on the pattern and the text alone; its result is named
/// by [`leftmost_match`]. The offsets are byte offsets into the text, ordered
/// and on character boundaries.
#[verifier::external_body]
fn find_span(pattern: &regex::Regex, text: &str) -> (span: Option<(usize, usize)>)
    ensures
        match span {
            Some((start, end)) => {
                &&& leftmost_match(*pattern, text@) == Some((start as int, end as int))
                &&& start <= end <= text.spec_bytes().len()
                &&& is_char_boundary(text.spec_bytes(), start as int)
                &&& is_char_boundary(text.spec_bytes(), end as int)
            },
            None => leftmost_match(*pattern, text@) is None,
        },
{
    pattern.find(text).map(|found| (found.start(), found.end()))
}

/// The record that a cue gives rise to: the first match in its text, where
/// the text is not empty.
pub open spec fn cue_match(pattern: regex::Regex, cue: Cue) -> Option<Span> {
    match cue.line {
        Some(text) => if text.len() == 0 {
            None
        } else {
            match leftmost_match(pattern, text) {
                Some((start, end)) => Some(Span { line: text, start, end }),
                None => None,
            }
        },
        None => None,
    }
}

/// The records of a sequence of cues, in the order of the cues.
pub open spec fn matches_of(pattern: regex::Regex, cues: Seq<Cue>) -> Seq<Span>
    decreases cues.len(),
{
    if cues.len() == 0 {
        Seq::empty()
    } else {
        let earlier = matches_of(pattern, cues.drop_last());
        match cue_match(pattern, cues.last()) {
            Some(span) => earlier.push(span),
            None => earlier,
        }
    }
}

/// The index of the first cue that gives rise to a record, or the number of
/// cues where none does.
pub open spec fn first_hit(pattern: regex::Regex, cues: Seq<Cue>) -> int
    decreases cues.len(),
{
    if cues.len() == 0 {
        0
    } else if cue_match(pattern, cues.first()) is Some {
        0
    } else {
        1 + first_hit(pattern, cues.drop_first())
    }
}

/// The spans that a sequence of records stands for.
pub open spec fn spans_of(records: Seq<Match>) -> Seq<Span> {
    records.map_values(|record: Match| record@)
}

/// Searches one cue for the first occurrence of the pattern.
pub fn match_entry(pattern: &regex::Regex, entry: &SubtitleEntry) -> (found: Option<Match>)
    ensures
        match found {
            Some(record) => cue_match(*pattern, entry@) == Some(record@) && record@.well_formed(),
            None => cue_match(*pattern, entry@) is None,
        },
{
    match &entry.line {
        Some(text) => {
            if text.as_str().is_empty() {
                return None;
            }
            match find_span(pattern, text.as_str()) {
                Some((start, end)) => Some(Match { line: text.clone(), start, end }),
                None => None,
            }
        },
        None => None,
    }
}

/// Searches every cue, in order, and collects one record for each cue in
/// which the pattern occurs.
pub fn match_entries(pattern: &regex::Regex, entries: &Vec<SubtitleEntry>) -> (records: Vec<Match>)
    ensures
        spans_of(records@) == matches_of(*pattern, cues_of(entries@)),
        forall|i: int| 0 <= i < records.len() ==> (#[trigger] records[i])@.well_formed(),
{
    let mut records: Vec<Match> = Vec::new();
    let mut i: usize = 0;
    assert(cues_of(entries@).take(0) =~= Seq::empty());
    while i < entries.len()
        invariant
            i <= entries.len(),
            spans_of(records@) == matches_of(*pattern, cues_of(entries@).take(i as int)),
            forall|k: int| 0 <= k < records.len() ==> (#[trigger] records[k])@.well_formed(),
        decreases entries.len() - i,
    {
        let ghost before = spans_of(records@);
        let found = match_entry(pattern, &entries[i]);
        proof {
            let cues = cues_of(entries@);
            assert(cues.take(i + 1).drop_last() =~= cues.take(i as int));
            assert(cues.take(i + 1).last() == entries[i as int]@);
        }
        if let Some(record) = found {
            records.push(record);
            assert(spans_of(records@) =~= before.push(record@));
        }
        i += 1;
    }
    assert(cues_of(entries@).take(entries.len() as int) =~= cues_of(entries@));
    records
}

/// The records of two runs of cues, one after the other, are the records of
/// the first followed by those of the second: records keep the order of the
/// cues.
pub proof fn matches_of_concat(pattern: regex::Regex, first: Seq<Cue>, second: Seq<Cue>)
    ensures
        matches_of(pattern, first + second) == matches_of(pattern, first) + matches_of(
            pattern,
            second,
        ),
    decreases second.len(),
{
    if second.len() == 0 {
        assert(first + second =~= first);
        assert(matches_of(pattern, first) + matches_of(pattern, second) =~= matches_of(
            pattern,
            first,
        ));
    } else {
        let whole = first + second;
        assert(whole.drop_last() =~= first + second.drop_last());
        assert(whole.last() == second.last());
        matches_of_concat(pattern, first, second.drop_last());
        let earlier = matches_of(pattern, second.drop_last());
        match cue_match(pattern, second.last()) {
            Some(span) => {
                assert((matches_of(pattern, first) + earlier).push(span) =~= matches_of(
                    pattern,
                    first,
                ) + earlier.push(span));
            },
            None => {},
        }
    }
}

/// Every record is the first match in the text of one of the cues: the text
/// is that cue's, not empty, and the span is where the pattern first occurs
/// in it.
pub proof fn records_are_first_matches(pattern: regex::Regex, cues: Seq<Cue>, i: int)
    requires
        0 <= i < matches_of(pattern, cues).len(),
    ensures
        ({
            let span = matches_of(pattern, cues)[i];
            &&& span.line.len() > 0
            &&& leftmost_match(pattern, span.line) == Some((span.start, span.end))
            &&& exists|j: int|
                0 <= j < cues.len() && #[trigger] cues[j].line == Some(span.line) && cue_match(
                    pattern,
                    cues[j],
                ) == Some(span)
        }),
    decreases cues.len(),
{
    let earlier = matches_of(pattern, cues.drop_last());
    if i < earlier.len() {
        records_are_first_matches(pattern, cues.drop_last(), i);
        let span = earlier[i];
        let j = choose|j: int|
            0 <= j < cues.drop_last().len() && #[trigger] cues.drop_last()[j].line == Some(
                span.line,
            ) && cue_match(pattern, cues.drop_last()[j]) == Some(span);
        assert(cues[j] == cues.drop_last()[j]);
    } else {
        let j = cues.len() - 1;
        assert(cue_match(pattern, cues[j]) == Some(matches_of(pattern, cues)[i]));
    }
}

/// Searching the same cues for the same pattern again gives the same records.
pub proof fn matching_is_repeatable(
    pattern: regex::Regex,
    entries: Seq<SubtitleEntry>,
    first: Seq<Match>,
    second: Seq<Match>,
)
    requires
        spans_of(first) == matches_of(pattern, cues_of(entries)),
        spans_of(second) == matches_of(pattern, cues_of(entries)),
    ensures
        first.len() == second.len(),
        forall|i: int| 0 <= i < first.len() ==> (#[trigger] first[i])@ == second[i]@,
{
    assert(spans_of(first).len() == first.len());
    assert(spans_of(second).len() == second.len());
    assert forall|i: int| 0 <= i < first.len() implies (#[trigger] first[i])@ == second[i]@ by {
        assert(spans_of(first)[i] == first[i]@);
        assert(spans_of(second)[i] == second[i]@);
    }
}

/// A cue without text, or with empty text, gives no record, whatever the
/// pattern is.
pub proof fn empty_text_never_matches(pattern: regex::Regex, cue: Cue)
    requires
        cue.line matches Some(text) ==> text.len() == 0,
    ensures
        cue_match(pattern, cue) is None,
{
}

/// Cues of which none has text that is not empty give no records.
pub proof fn empty_cues_give_no_records(pattern: regex::Regex, cues: Seq<Cue>)
    requires
        forall|j: int|
            0 <= j < cues.len() ==> ((#[trigger] cues[j]).line matches Some(text) ==> text.len()
                == 0),
    ensures
        matches_of(pattern, cues).len() == 0,
    decreases cues.len(),
{
    if cues.len() > 0 {
        assert forall|j: int| 0 <= j < cues.drop_last().len() implies ((
        #[trigger] cues.drop_last()[j]).line matches Some(text) ==> text.len() == 0) by {
            assert(cues.drop_last()[j] == cues[j]);
        }
        empty_cues_give_no_records(pattern, cues.drop_last());
    }
}

/// The records of a sequence of cues begin with the record of the first cue
/// that has one, followed by the records of the cues behind it.
pub proof fn matches_from_first_hit(pattern: regex::Regex, cues: Seq<Cue>)
    ensures
        0 <= first_hit(pattern, cues) <= cues.len(),
        first_hit(pattern, cues) == cues.len() ==> matches_of(pattern, cues).len() == 0,
        first_hit(pattern, cues) < cues.len() ==> {
            let hit = first_hit(pattern, cues);
            &&& cue_match(pattern, cues[hit]) is Some
            &&& matches_of(pattern, cues) == seq![cue_match(pattern, cues[hit])->0] + matches_of(
                pattern,
                cues.skip(hit + 1),
            )
        },
        forall|j: int| 0 <= j < first_hit(pattern, cues) ==> cue_match(pattern, #[trigger] cues[j]) is None,
    decreases cues.len(),
{
    if cues.len() == 0 {
    } else {
        let head = seq![cues.first()];
        let tail = cues.drop_first();
        assert(cues =~= head + tail);
        matches_of_concat(pattern, head, tail);
        assert(head.drop_last() =~= Seq::<Cue>::empty());
        assert(matches_of(pattern, head.drop_last()).len() == 0);
        if cue_match(pattern, cues.first()) is Some {
            assert(matches_of(pattern, head) =~= seq![cue_match(pattern, cues.first())->0]);
            assert(cues.skip(1) =~= tail);
        } else {
            assert(matches_of(pattern, head) =~= Seq::<Span>::empty());
            assert(matches_of(pattern, head) + matches_of(pattern, tail) =~= matches_of(
                pattern,
                tail,
            ));
            matches_from_first_hit(pattern, tail);
            let hit = first_hit(pattern, tail);
            if hit < tail.len() {
                assert(tail[hit] == cues[hit + 1]);
                assert(tail.skip(hit + 1) =~= cues.skip(hit + 2));
            }
            assert forall|j: int| 0 <= j < first_hit(pattern, cues) implies cue_match(
                pattern,
                #[trigger] cues[j],
            ) is None by {
                if j > 0 {
                    assert(cues[j] == tail[j - 1]);
                }
            }
        }
    }
}

} // verus!
