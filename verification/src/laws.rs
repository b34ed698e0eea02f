//! What holds of the matcher as a whole, stated over the plain values that the
//! contracts of its functions speak of.

use crate::notefilter::{
    content_scan, header_scan, is_blank, is_shown, rendered, searched, tag_scan, Criterion,
    FileMatch, NoteFilter, Query,
};
use crate::phrase::{pattern_found, pattern_starts};
use crate::tagquery::{filter_accepts, keywords, tags_in};
use crate::text::{is_header, lines_of, scan_lines, without_cr};
use vstd::prelude::*;

verus! {

/// A query without terms matches nothing. Where a well-formed query has no tag term
/// and no content term, the result for any note is blank: every glyph is a space
/// and the list of matches is empty.
pub proof fn law_no_terms_no_match(query: Query, path: Seq<char>, contents: Seq<char>)
    requires
        query.wf(),
        query.tags.len() == 0,
        query.words.len() == 0,
    ensures
        is_blank(query.file_result(path, contents)),
        query.file_result(path, contents).glyphs == seq![' ', ' ', ' ', ' '],
{
    let result = query.file_result(path, contents);
    assert(result.glyphs =~= seq![' ', ' ', ' ', ' ']);
}

/// Matching is repeatable. Two runs of the same query on the same path and the same
/// text, be it with one filter or with two filters made of the same words and
/// flags, give results that are equal in every part: positions, texts and glyphs.
/// What is written for the two results is equal too.
pub proof fn law_matching_is_repeatable(
    first_filter: NoteFilter,
    second_filter: NoteFilter,
    path: Seq<char>,
    contents: Seq<char>,
    first: FileMatch,
    second: FileMatch,
)
    requires
        first_filter@ == second_filter@,
        first@ == first_filter@.file_result(path, contents),
        second@ == second_filter@.file_result(path, contents),
    ensures
        first@ == second@,
        rendered(first@) == rendered(second@),
        is_shown(first@) == is_shown(second@),
{
}

/// A blank result is never shown, in either form: nothing is printed for a note on
/// which no criterion matched.
pub proof fn law_blank_is_never_shown(result: FileMatch, out: Option<String>)
    requires
        is_blank(result@),
        match out {
            Some(text) => is_shown(result@) && text@ == rendered(result@),
            None => !is_shown(result@),
        },
    ensures
        !is_shown(result@),
        out is None,
{
}

/// Neither a line that a `'\n'` has ended nor what follows the last `'\n'` holds a
/// `'\n'`.
proof fn lemma_scan_holds_no_newline(text: Seq<char>)
    ensures
        forall|i: int|
            0 <= i < scan_lines(text).0.len() ==> !(#[trigger] scan_lines(text).0[i]).contains('\n'),
        !scan_lines(text).1.contains('\n'),
    decreases text.len(),
{
    if text.len() > 0 {
        lemma_scan_holds_no_newline(text.drop_last());
        let (ended, rest) = scan_lines(text.drop_last());
        if text.last() == '\n' {
            let line = without_cr(rest);
            if line.contains('\n') {
                let j = choose|j: int| 0 <= j < line.len() && line[j] == '\n';
                assert(rest[j] == '\n');
            }
        } else {
            let open = rest.push(text.last());
            if open.contains('\n') {
                let j = choose|j: int| 0 <= j < open.len() && open[j] == '\n';
                assert(rest[j] == '\n');
            }
        }
    }
}

/// The lines of a note are physical lines: none of them holds a `'\n'`.
pub proof fn law_lines_hold_no_newline(text: Seq<char>)
    ensures
        forall|i: int| 0 <= i < lines_of(text).len() ==> !(#[trigger] lines_of(text)[i]).contains('\n'),
{
    lemma_scan_holds_no_newline(text);
}

/// A header match is never on a line that is no header line. Each header match
/// sits, in column 1, on a header line in which the phrase is found, and carries
/// that line, as it stands in the note, as its text.
pub proof fn law_header_match_is_on_a_header_line(
    pattern: Seq<char>,
    case_sensitive: bool,
    lines: Seq<Seq<char>>,
    k: int,
)
    requires
        0 <= k < header_scan(pattern, case_sensitive, lines).len(),
    ensures
        ({
            let hit = header_scan(pattern, case_sensitive, lines)[k];
            &&& 1 <= hit.line <= lines.len()
            &&& hit.column == 1
            &&& hit.criterion == Criterion::Header
            &&& hit.text == lines[hit.line - 1]
            &&& is_header(hit.text)
            &&& pattern_found(pattern, searched(hit.text, case_sensitive))
        }),
    decreases lines.len(),
{
    if lines.len() > 0 {
        let before = header_scan(pattern, case_sensitive, lines.drop_last());
        if k < before.len() {
            law_header_match_is_on_a_header_line(pattern, case_sensitive, lines.drop_last(), k);
        }
    }
}

/// Every header line in which the phrase is found has its header match, and the
/// header matches come in the order of the lines.
pub proof fn law_header_lines_are_matched_in_order(
    pattern: Seq<char>,
    case_sensitive: bool,
    lines: Seq<Seq<char>>,
)
    ensures
        forall|i: int|
            0 <= i < lines.len() && is_header(lines[i]) && pattern_found(
                pattern,
                #[trigger] searched(lines[i], case_sensitive),
            ) ==> exists|k: int|
                0 <= k < header_scan(pattern, case_sensitive, lines).len() && (#[trigger] header_scan(
                    pattern,
                    case_sensitive,
                    lines,
                )[k]).line == i + 1,
        forall|j: int, k: int|
            0 <= j < k < header_scan(pattern, case_sensitive, lines).len() ==> (#[trigger] header_scan(
                pattern,
                case_sensitive,
                lines,
            )[j]).line < (#[trigger] header_scan(pattern, case_sensitive, lines)[k]).line,
    decreases lines.len(),
{
    if lines.len() > 0 {
        let all = header_scan(pattern, case_sensitive, lines);
        let before = header_scan(pattern, case_sensitive, lines.drop_last());
        law_header_lines_are_matched_in_order(pattern, case_sensitive, lines.drop_last());
        assert forall|i: int|
            0 <= i < lines.len() && is_header(lines[i]) && pattern_found(
                pattern,
                #[trigger] searched(lines[i], case_sensitive),
            ) implies exists|k: int| 0 <= k < all.len() && (#[trigger] all[k]).line == i + 1 by {
            if i < lines.len() - 1 {
                assert(lines.drop_last()[i] == lines[i]);
                let k = choose|k: int| 0 <= k < before.len() && (#[trigger] before[k]).line == i + 1;
                assert(all[k].line == i + 1);
            } else {
                assert(all[before.len() as int].line == i + 1);
            }
        }
        assert forall|j: int, k: int| 0 <= j < k < all.len() implies (#[trigger] all[j]).line < (
        #[trigger] all[k]).line by {
            if k >= before.len() {
                law_header_match_is_on_a_header_line(pattern, case_sensitive, lines.drop_last(), j);
            }
        }
    }
}

/// Each tag match sits, in column 1, on a line whose tags the filter accepts, and
/// carries that line as its text.
pub proof fn law_tag_match_is_on_an_accepted_line(
    wanted: Seq<Seq<char>>,
    lines: Seq<Seq<char>>,
    k: int,
)
    requires
        0 <= k < tag_scan(wanted, lines).len(),
    ensures
        ({
            let hit = tag_scan(wanted, lines)[k];
            &&& 1 <= hit.line <= lines.len()
            &&& hit.column == 1
            &&& hit.criterion == Criterion::Tags
            &&& hit.text == lines[hit.line - 1]
            &&& filter_accepts(keywords(wanted), Set::empty(), false, tags_in(hit.text))
        }),
    decreases lines.len(),
{
    if lines.len() > 0 {
        let before = tag_scan(wanted, lines.drop_last());
        if k < before.len() {
            law_tag_match_is_on_an_accepted_line(wanted, lines.drop_last(), k);
        }
    }
}

/// Every line whose tags the filter accepts has its tag match, and the tag matches
/// come in the order of the lines.
pub proof fn law_accepted_lines_are_matched_in_order(wanted: Seq<Seq<char>>, lines: Seq<Seq<char>>)
    ensures
        forall|i: int|
            0 <= i < lines.len() && filter_accepts(
                keywords(wanted),
                Set::empty(),
                false,
                #[trigger] tags_in(lines[i]),
            ) ==> exists|k: int|
                0 <= k < tag_scan(wanted, lines).len() && (#[trigger] tag_scan(wanted, lines)[k]).line
                    == i + 1,
        forall|j: int, k: int|
            0 <= j < k < tag_scan(wanted, lines).len() ==> (#[trigger] tag_scan(wanted, lines)[j]).line
                < (#[trigger] tag_scan(wanted, lines)[k]).line,
    decreases lines.len(),
{
    if lines.len() > 0 {
        let all = tag_scan(wanted, lines);
        let before = tag_scan(wanted, lines.drop_last());
        law_accepted_lines_are_matched_in_order(wanted, lines.drop_last());
        assert forall|i: int|
            0 <= i < lines.len() && filter_accepts(
                keywords(wanted),
                Set::empty(),
                false,
                #[trigger] tags_in(lines[i]),
            ) implies exists|k: int| 0 <= k < all.len() && (#[trigger] all[k]).line == i + 1 by {
            if i < lines.len() - 1 {
                assert(lines.drop_last()[i] == lines[i]);
                let k = choose|k: int| 0 <= k < before.len() && (#[trigger] before[k]).line == i + 1;
                assert(all[k].line == i + 1);
            } else {
                assert(all[before.len() as int].line == i + 1);
            }
        }
        assert forall|j: int, k: int| 0 <= j < k < all.len() implies (#[trigger] all[j]).line < (
        #[trigger] all[k]).line by {
            if k >= before.len() {
                law_tag_match_is_on_an_accepted_line(wanted, lines.drop_last(), j);
            }
        }
    }
}

/// Each contents match sits on a line of the note, one column past an offset at
/// which the phrase begins in that line as it is searched, and carries the line, as
/// it stands in the note, as its text.
pub proof fn law_contents_match_is_at_an_occurrence(
    pattern: Seq<char>,
    case_sensitive: bool,
    lines: Seq<Seq<char>>,
    k: int,
)
    requires
        0 <= k < content_scan(pattern, case_sensitive, lines).len(),
    ensures
        ({
            let hit = content_scan(pattern, case_sensitive, lines)[k];
            let starts = pattern_starts(pattern, searched(hit.text, case_sensitive));
            &&& 1 <= hit.line <= lines.len()
            &&& hit.criterion == Criterion::Contents
            &&& hit.text == lines[hit.line - 1]
            &&& exists|n: int| 0 <= n < starts.len() && hit.column == (#[trigger] starts[n]) + 1
        }),
    decreases lines.len(),
{
    if lines.len() > 0 {
        let before = content_scan(pattern, case_sensitive, lines.drop_last());
        let hit = content_scan(pattern, case_sensitive, lines)[k];
        if k < before.len() {
            law_contents_match_is_at_an_occurrence(pattern, case_sensitive, lines.drop_last(), k);
            assert(hit == before[k]);
            assert(lines.drop_last()[hit.line - 1] == lines[hit.line - 1]);
        } else {
            let starts = pattern_starts(pattern, searched(lines.last(), case_sensitive));
            let n = k - before.len();
            assert(hit.text == lines.last());
            assert(hit.column == starts[n] + 1);
        }
    }
}

/// Every line in which the phrase is found has a contents match.
pub proof fn law_line_with_phrase_has_a_contents_match(
    pattern: Seq<char>,
    case_sensitive: bool,
    lines: Seq<Seq<char>>,
    i: int,
)
    requires
        0 <= i < lines.len(),
        pattern_found(pattern, searched(lines[i], case_sensitive)),
    ensures
        exists|k: int|
            0 <= k < content_scan(pattern, case_sensitive, lines).len() && (#[trigger] content_scan(
                pattern,
                case_sensitive,
                lines,
            )[k]).line == i + 1,
    decreases lines.len(),
{
    let all = content_scan(pattern, case_sensitive, lines);
    let before = content_scan(pattern, case_sensitive, lines.drop_last());
    if i < lines.len() - 1 {
        assert(lines.drop_last()[i] == lines[i]);
        law_line_with_phrase_has_a_contents_match(pattern, case_sensitive, lines.drop_last(), i);
        let k = choose|k: int| 0 <= k < before.len() && (#[trigger] before[k]).line == i + 1;
        assert(all[k].line == i + 1);
    } else {
        assert(all[before.len() as int].line == i + 1);
    }
}

/// A header line that matches is a body line that matches: for every header match
/// of a query there is a contents match on the same line, so a note has no more
/// header matches than contents matches.
pub proof fn law_header_match_has_a_contents_match(query: Query, lines: Seq<Seq<char>>, k: int)
    requires
        0 <= k < query.header_hits(lines).len(),
    ensures
        exists|j: int|
            0 <= j < query.content_hits(lines).len() && (#[trigger] query.content_hits(lines)[j]).line
                == query.header_hits(lines)[k].line,
{
    let pattern = query.phrase->0;
    law_header_match_is_on_a_header_line(pattern, query.case_sensitive, lines, k);
    let line = query.header_hits(lines)[k].line;
    law_line_with_phrase_has_a_contents_match(pattern, query.case_sensitive, lines, line - 1);
    let found = content_scan(pattern, query.case_sensitive, lines);
    let j = choose|j: int| 0 <= j < found.len() && (#[trigger] found[j]).line == line;
    assert(query.content_hits(lines)[j].line == line);
}

} // verus!
