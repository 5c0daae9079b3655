//! The result assembler: from the captured output bytes to the final ordered
//! sequence of [`SearchResult`] records.
//!
//! The pipeline decodes the bytes as UTF-8, splits the text into lines,
//! keeps exactly the well-formed match and context events with a 1-based
//! line number, and returns them sorted by path and line number with ties
//! kept in arrival order. A line that fails to decode as an event — or a
//! blank separator line — is silently skipped, never an error; output with
//! no events at all assembles to the empty sequence.

use vstd::prelude::*;

use crate::events::event_of_line;
use crate::events::parse_event_line;
use crate::events::utf8_to_str;
use crate::lines::split_lines;
use crate::lines::split_lines_exec;
use crate::options::DecodeError;
use crate::options::SearchError;
use crate::options::SearchResult;
use crate::options::SearchResultView;
use crate::sort::sort_results;
use crate::sort::sort_spec;
use crate::sort::sorted;

verus! {

/// The records one output line contributes: nothing for a blank line, for a
/// line that is no well-formed match or context event, or for an event whose
/// line number is not 1-based; otherwise the event's single record.
pub open spec fn kept_event(line: Seq<char>) -> Seq<SearchResultView> {
    if line.len() == 0 {
        seq![]
    } else {
        match event_of_line(line) {
            Some(e) => if e.line_number >= 1 {
                seq![e]
            } else {
                seq![]
            },
            None => seq![],
        }
    }
}

/// All records the output lines contribute, in arrival order.
pub open spec fn events_of_lines(lines: Seq<Seq<char>>) -> Seq<SearchResultView>
    decreases lines.len(),
{
    if lines.len() == 0 {
        seq![]
    } else {
        events_of_lines(lines.drop_last()) + kept_event(lines.last())
    }
}

/// The whole assembler on decoded text: collect the events, then sort them
/// stably by path and line number.
pub open spec fn assembled(text: Seq<char>) -> Seq<SearchResultView> {
    sort_spec(events_of_lines(split_lines(text)))
}

/// Every record the lines contribute carries a 1-based line number.
pub proof fn lemma_events_one_based(lines: Seq<Seq<char>>, i: int)
    requires
        0 <= i < events_of_lines(lines).len(),
    ensures
        events_of_lines(lines)[i].line_number >= 1,
    decreases lines.len(),
{
    if lines.len() > 0 {
        let pre = events_of_lines(lines.drop_last());
        if i < pre.len() {
            lemma_events_one_based(lines.drop_last(), i);
        }
    }
}

proof fn lemma_events_step(lines: Seq<Seq<char>>, i: int)
    requires
        0 <= i < lines.len(),
    ensures
        events_of_lines(lines.take(i + 1)) == events_of_lines(lines.take(i)) + kept_event(
            lines[i],
        ),
{
    assert(lines.take(i + 1).drop_last() =~= lines.take(i));
    assert(lines.take(i + 1).last() == lines[i]);
}

/// Assemble the captured output bytes into the final record sequence.
///
/// Fails exactly when the bytes are not well-formed UTF-8; otherwise the
/// result is [`assembled`] of the decoded text — ascending by path and line
/// number — and "no events" is a success with an empty sequence.
pub fn assemble(raw: &[u8]) -> (r: Result<Vec<SearchResult>, DecodeError>)
    ensures
        r is Ok <==> vstd::utf8::valid_utf8(raw@),
        r matches Ok(rs) ==> rs.deep_view() == assembled(vstd::utf8::decode_utf8(raw@)) && sorted(
            rs.deep_view(),
        ),
        r matches Ok(rs) ==> forall|i: int|
            0 <= i < rs.deep_view().len() ==> (#[trigger] rs.deep_view()[i]).line_number >= 1,
        r matches Err(e) ==> e == DecodeError::InvalidEncoding,
{
    let text = match utf8_to_str(raw) {
        Some(t) => t,
        None => {
            return Err(DecodeError::InvalidEncoding);
        },
    };
    let lines = split_lines_exec(text);
    let ghost all = lines.deep_view();
    let mut records: Vec<SearchResult> = Vec::new();
    let mut i: usize = 0;
    proof {
        assert(all.take(0) =~= Seq::<Seq<char>>::empty());
        assert(records.deep_view() =~= events_of_lines(all.take(0)));
    }
    while i < lines.len()
        invariant
            i <= lines@.len(),
            all == lines.deep_view(),
            all == split_lines(text@),
            records.deep_view() == events_of_lines(all.take(i as int)),
        decreases lines@.len() - i,
    {
        let ghost pre = records.deep_view();
        let line = &lines[i];
        proof {
            assert(all[i as int] == line@);
        }
        if !line.as_str().is_empty() {
            if let Some(ev) = parse_event_line(line.as_str()) {
                if ev.line_number >= 1 {
                    records.push(ev);
                    proof {
                        assert(records.deep_view() =~= pre.push(ev@));
                        assert(kept_event(all[i as int]) == seq![ev@]);
                        assert(records.deep_view() =~= pre + kept_event(all[i as int]));
                    }
                }
            }
        }
        proof {
            lemma_events_step(all, i as int);
            assert(records.deep_view() =~= pre + kept_event(all[i as int]));
            assert(records.deep_view() == events_of_lines(all.take(i + 1)));
        }
        i += 1;
    }
    proof {
        assert(all.take(lines@.len() as int) =~= all);
    }
    let out = sort_results(records);
    proof {
        broadcast use vstd::seq_lib::group_to_multiset_ensures;

        let evs = events_of_lines(all);
        assert forall|k: int|
            0 <= k < out.deep_view().len() implies (#[trigger] out.deep_view()[k]).line_number
            >= 1 by {
            let e = out.deep_view()[k];
            assert(out.deep_view().contains(e));
            assert(evs.to_multiset().count(e) > 0);
            assert(evs.contains(e));
            let w = choose|w: int| 0 <= w < evs.len() && evs[w] == e;
            lemma_events_one_based(all, w);
        };
    }
    Ok(out)
}

/// Interpret the execution collaborator's report of one engine run.
///
/// A spawn-level failure (`None`) is fatal. Captured output — whatever the
/// exit status meant, since the engine exits non-zero simply to say "no
/// matches" — is assembled; only output that is not valid text fails.
pub fn search_outcome(captured: Option<Vec<u8>>) -> (r: Result<Vec<SearchResult>, SearchError>)
    ensures
        captured is None ==> r == Err::<Vec<SearchResult>, SearchError>(
            SearchError::ProcessSpawnFailed,
        ),
        captured matches Some(bytes) ==> match r {
            Ok(rs) => vstd::utf8::valid_utf8(bytes@) && rs.deep_view() == assembled(
                vstd::utf8::decode_utf8(bytes@),
            ) && sorted(rs.deep_view()),
            Err(e) => e == SearchError::OutputDecodeFailed && !vstd::utf8::valid_utf8(bytes@),
        },
{
    match captured {
        None => Err(SearchError::ProcessSpawnFailed),
        Some(bytes) => match assemble(bytes.as_slice()) {
            Ok(rs) => Ok(rs),
            Err(DecodeError::InvalidEncoding) => Err(SearchError::OutputDecodeFailed),
        },
    }
}

} // verus!
