//! The phrase of a query: its content terms as one regular expression, compiled and
//! searched by the `regex` crate.

use crate::text::{join, joined};
use regex::Regex;
use vstd::prelude::*;
use vstd::string::*;

verus! {

/// A compiled regular expression of the `regex` crate. Nothing inside it is visible
/// here; `compiled_from` says what it was made from.
#[verifier::external_type_specification]
#[verifier::external_body]
pub struct ExRegex(Regex);

/// The error with which the `regex` crate refuses a pattern.
#[verifier::external_type_specification]
#[verifier::external_body]
pub struct ExRegexError(regex::Error);

/// The pattern of a regex that `Regex::new` made: the text that was handed to it.
/// It stands for the regex in contracts, since what such a regex finds depends on
/// its pattern and on the text alone. Of a regex that was made in another way, with
/// options of its own, the name says nothing: `compile` is the only function that
/// ties it to a text.
pub uninterp spec fn compiled_from(re: &Regex) -> Seq<char>;

/// The byte offsets in `text` at which the successive non-overlapping matches of the
/// regular expression written as `pattern` begin, in the order in which
/// `Regex::find_iter` yields them.
pub uninterp spec fn pattern_starts(pattern: Seq<char>, text: Seq<char>) -> Seq<usize>;

/// Whether the regular expression written as `pattern` matches somewhere in `text`:
/// it does where there is a first match.
pub open spec fn pattern_found(pattern: Seq<char>, text: Seq<char>) -> bool {
    pattern_starts(pattern, text).len() > 0
}

/// Whether `c` is a meta character of the pattern syntax: one of the characters that
/// have to be escaped to stand for themselves in a pattern.
pub open spec fn is_meta(c: char) -> bool {
    ||| c == '\\'
    ||| c == '.'
    ||| c == '+'
    ||| c == '*'
    ||| c == '?'
    ||| c == '('
    ||| c == ')'
    ||| c == '|'
    ||| c == '['
    ||| c == ']'
    ||| c == '{'
    ||| c == '}'
    ||| c == '^'
    ||| c == '$'
    ||| c == '#'
    ||| c == '&'
    ||| c == '-'
    ||| c == '~'
}

/// `text` with a backslash before each of its meta characters, so that as a pattern
/// it stands for `text` itself: what `regex::escape` makes of it.
pub open spec fn escaped(text: Seq<char>) -> Seq<char>
    decreases text.len(),
{
    if text.len() == 0 {
        Seq::empty()
    } else if is_meta(text.last()) {
        escaped(text.drop_last()).push('\\').push(text.last())
    } else {
        escaped(text.drop_last()).push(text.last())
    }
}

/// The pattern of a phrase: the terms, each escaped, in their order, with `\s+` (one
/// or more white-space characters) between each two neighbours. The pattern of no
/// terms is empty.
pub open spec fn phrase_pattern(terms: Seq<Seq<char>>) -> Seq<char> {
    joined(escaped_each(terms), "\\s+"@)
}

/// Each of the terms, escaped.
pub open spec fn escaped_each(terms: Seq<Seq<char>>) -> Seq<Seq<char>> {
    Seq::new(terms.len(), |i: int| escaped(terms[i]))
}

/// Tells whether `c` is a meta character of the pattern syntax.
pub fn meta(c: char) -> (yes: bool)
    ensures
        yes == is_meta(c),
{
    c == '\\' || c == '.' || c == '+' || c == '*' || c == '?' || c == '(' || c == ')' || c == '|'
        || c == '[' || c == ']' || c == '{' || c == '}' || c == '^' || c == '$' || c == '#' || c
        == '&' || c == '-' || c == '~'
}

/// Escapes `term`: copies it with a backslash before each meta character.
pub fn escape(term: &str) -> (out: String)
    ensures
        out@ == escaped(term@),
{
    broadcast use group_string_axioms;

    let mut out = String::new();
    for c in it: term.chars()
        invariant
            it.seq() == term@,
            out@ == escaped(term@.take(it.index())),
    {
        assert(term@.take(it.index() + 1).drop_last() =~= term@.take(it.index()));
        if meta(c) {
            out.push('\\');
        }
        out.push(c);
    }
    assert(term@.take(term@.len() as int) =~= term@);
    out
}

/// Calls `Regex::new`. Whether the crate accepts the pattern is left open; where it
/// does, the regex it hands back is the one compiled from `pattern`.
#[verifier::external_body]
pub(crate) fn compile(pattern: &str) -> (made: Result<Regex, regex::Error>)
    ensures
        made matches Ok(re) ==> compiled_from(&re) == pattern@,
{
    Regex::new(pattern)
}

/// Calls `Regex::is_match`, which the crate documents to answer true if and only if
/// there is a match anywhere in `text`: that is, exactly where `Regex::find_iter`
/// has a match to yield. The regex is one that `compile` made.
#[verifier::external_body]
pub(crate) fn found_in(re: &Regex, text: &str) -> (found: bool)
    ensures
        found == pattern_found(compiled_from(re), text@),
{
    re.is_match(text)
}

/// Calls `Regex::find_iter` and takes `Match::start` of each match: the byte offsets
/// at which the successive non-overlapping matches of `re` in `text` begin. They
/// depend on the pattern and the text alone and have the name `pattern_starts`; the
/// regex is one that `compile` made. The crate documents of `Match::start` that the
/// text can be sliced at the offset, so each offset lies within the text; and a
/// string is never longer than `isize::MAX` bytes, so each is below `usize::MAX`.
#[verifier::external_body]
pub(crate) fn starts_in(re: &Regex, text: &str) -> (starts: Vec<usize>)
    ensures
        starts@ == pattern_starts(compiled_from(re), text@),
        forall|i: int| 0 <= i < starts@.len() ==> starts@[i] <= text.spec_bytes().len(),
        forall|i: int| 0 <= i < starts@.len() ==> starts@[i] < usize::MAX,
{
    re.find_iter(text).map(|m| m.start()).collect()
}

/// Calls `to_string` on an error of the `regex` crate: the crate's message for it.
/// Nothing is claimed of the wording.
#[verifier::external_body]
pub(crate) fn error_text(error: &regex::Error) -> (text: String) {
    error.to_string()
}

/// Writes the pattern of the phrase made of `terms`.
pub fn phrase_text(terms: &Vec<String>) -> (pattern: String)
    ensures
        pattern@ == phrase_pattern(terms.deep_view()),
{
    let mut parts: Vec<String> = Vec::new();
    let mut i: usize = 0;
    while i < terms.len()
        invariant
            i <= terms.len(),
            parts.deep_view() == escaped_each(terms.deep_view().take(i as int)),
        decreases terms.len() - i,
    {
        let ghost before = parts.deep_view();
        let part = escape(terms[i].as_str());
        parts.push(part);
        i = i + 1;
        assert(parts.deep_view() =~= before.push(part@));
        assert(parts.deep_view() =~= escaped_each(terms.deep_view().take(i as int)));
    }
    assert(terms.deep_view().take(i as int) =~= terms.deep_view());
    join(&parts, "\\s+")
}

} // verus!
