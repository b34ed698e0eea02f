//! The tag side of a query. Which tags a line declares, and whether they satisfy the
//! tags that a query asks for, is the `tagsearch` crate's to say.

use std::collections::BTreeSet;
use crate::text::lowercased;
use tagsearch::filter::Filter;
use vstd::prelude::*;
use vstd::string::*;

verus! {

/// The tags that `text` declares, each a path of names: what
/// `tagsearch::utility::get_tags_from_string` finds in it.
pub uninterp spec fn tags_in(text: Seq<char>) -> Set<Seq<Seq<char>>>;

/// A tag filter of the `tagsearch` crate. Nothing inside it is visible here; the
/// three names below read what it holds.
#[verifier::external_type_specification]
#[verifier::external_body]
pub struct ExFilter(Filter);

/// The keywords that a filter asks for: its set `good_keywords`.
pub uninterp spec fn wanted_of(filter: &Filter) -> Set<Seq<char>>;

/// The keywords that a filter excludes: its set `bad_keywords`.
pub uninterp spec fn unwanted_of(filter: &Filter) -> Set<Seq<char>>;

/// Whether one of the keywords asked for is enough for a filter: its flag
/// `or_filter`.
pub uninterp spec fn takes_any(filter: &Filter) -> bool;

/// Whether a filter that asks for the keywords `wanted`, excludes the keywords
/// `unwanted` and has the mode `any` accepts the tags `found`: what
/// `Filter::matches` answers.
pub uninterp spec fn filter_accepts(
    wanted: Set<Seq<char>>,
    unwanted: Set<Seq<char>>,
    any: bool,
    found: Set<Seq<Seq<char>>>,
) -> bool;

/// The tags as a filter keeps them: each in lowercase, each once, in no order.
pub open spec fn keywords(tags: Seq<Seq<char>>) -> Set<Seq<char>> {
    Set::new(|k: Seq<char>| exists|i: int| 0 <= i < tags.len() && k == lowercased(#[trigger] tags[i]))
}

/// Calls `tagsearch::utility::get_tags_from_string`, which reads `text` word by word
/// and collects the tags it declares. The set depends on the text alone; the
/// contract gives it the name `tags_in`.
#[verifier::external_body]
pub(crate) fn extract_tags(text: &str) -> (found: BTreeSet<Vec<String>>)
    ensures
        found.deep_view() == tags_in(text@),
{
    tagsearch::utility::get_tags_from_string(text)
}

/// Calls `Filter::new`, which puts each tag of `wanted` and of `unwanted` in
/// lowercase, collects them into the filter's two sets, and keeps `any` as its
/// mode.
#[verifier::external_body]
pub(crate) fn tag_filter(wanted: &Vec<String>, unwanted: &Vec<String>, any: bool) -> (filter: Filter)
    ensures
        wanted_of(&filter) == keywords(wanted.deep_view()),
        unwanted_of(&filter) == keywords(unwanted.deep_view()),
        takes_any(&filter) == any,
{
    Filter::new(wanted, unwanted, any)
}

/// Calls `Filter::matches`: whether `filter` accepts the tags `found`. The answer
/// depends on the filter's two sets, on its mode and on the tags alone; the
/// contract gives it the name `filter_accepts`.
#[verifier::external_body]
pub(crate) fn accepts(filter: &Filter, found: &BTreeSet<Vec<String>>) -> (ok: bool)
    ensures
        ok == filter_accepts(
            wanted_of(filter),
            unwanted_of(filter),
            takes_any(filter),
            found.deep_view(),
        ),
{
    filter.matches(found)
}

/// Whether a query for the tags `wanted` can be asked at all: it names at least one
/// tag, and none of its tags is empty. An empty tag matches no tag, and every tag of
/// the query must match, so a query with an empty tag is satisfied nowhere.
pub open spec fn is_askable(wanted: Seq<Seq<char>>) -> bool {
    wanted.len() > 0 && forall|i: int| 0 <= i < wanted.len() ==> (#[trigger] wanted[i]).len() > 0
}

/// Tells whether a query for the tags `wanted` can be asked at all.
pub fn askable(wanted: &Vec<String>) -> (yes: bool)
    ensures
        yes == is_askable(wanted.deep_view()),
{
    if wanted.len() == 0 {
        return false;
    }
    let mut i: usize = 0;
    while i < wanted.len()
        invariant
            i <= wanted.len(),
            forall|j: int| 0 <= j < i ==> (#[trigger] wanted.deep_view()[j]).len() > 0,
        decreases wanted.len() - i,
    {
        if wanted[i].as_str().is_empty() {
            assert(wanted.deep_view()[i as int].len() == 0);
            return false;
        }
        i = i + 1;
    }
    true
}

} // verus!
