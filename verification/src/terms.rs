//! The terms of a query: the raw words, sorted into tag terms and content terms.

use crate::text::{lowercase, lowercased, text_between, to_chars};
use vstd::prelude::*;
use vstd::string::*;

verus! {

/// The character that marks a word of the query as a tag.
pub const TAG_SIGIL: char = '@';

/// Whether a word of the query asks for a tag: it begins with the sigil.
pub open spec fn is_tag_word(word: Seq<char>) -> bool {
    word.len() > 0 && word[0] == TAG_SIGIL
}

/// The words as the query uses them: as given where case matters, in lowercase
/// where it does not.
pub open spec fn normalized(words: Seq<Seq<char>>, case_sensitive: bool) -> Seq<Seq<char>> {
    if case_sensitive {
        words
    } else {
        Seq::new(words.len(), |i: int| lowercased(words[i]))
    }
}

/// The tag terms among `words`, in their order: each word that begins with the
/// sigil, without the sigil.
pub open spec fn tag_terms(words: Seq<Seq<char>>) -> Seq<Seq<char>> {
    let tagged = words.filter(|w: Seq<char>| is_tag_word(w));
    Seq::new(tagged.len(), |i: int| tagged[i].skip(1))
}

/// The content terms among `words`, in their order: each word that does not begin
/// with the sigil.
pub open spec fn content_terms(words: Seq<Seq<char>>) -> Seq<Seq<char>> {
    words.filter(|w: Seq<char>| !is_tag_word(w))
}

/// `items` without repetitions: of equal items the first stays, and the order of
/// what stays is kept.
pub open spec fn distinct(items: Seq<Seq<char>>) -> Seq<Seq<char>>
    decreases items.len(),
{
    if items.len() == 0 {
        Seq::empty()
    } else if distinct(items.drop_last()).contains(items.last()) {
        distinct(items.drop_last())
    } else {
        distinct(items.drop_last()).push(items.last())
    }
}

/// The classified terms of a query, as plain texts.
pub struct Terms {
    /// The tag terms, each once.
    pub tags: Seq<Seq<char>>,
    /// The content terms, each once.
    pub words: Seq<Seq<char>>,
    /// The content terms and the tag terms together, each once.
    pub all_words: Seq<Seq<char>>,
    /// The content terms in the order of the query, repeated where the query repeats
    /// them: the phrase that is looked for.
    pub phrase: Seq<Seq<char>>,
}

/// The terms of the query `words`.
pub open spec fn terms_of(words: Seq<Seq<char>>, case_sensitive: bool) -> Terms {
    let used = normalized(words, case_sensitive);
    Terms {
        tags: distinct(tag_terms(used)),
        words: distinct(content_terms(used)),
        all_words: distinct(distinct(content_terms(used)) + distinct(tag_terms(used))),
        phrase: content_terms(used),
    }
}

/// The classified terms of a query.
#[derive(Debug, PartialEq, Eq)]
pub struct TermSet {
    /// The tag terms, each once.
    pub tags: Vec<String>,
    /// The content terms, each once.
    pub words: Vec<String>,
    /// The content terms and the tag terms together, each once.
    pub all_words: Vec<String>,
    /// The content terms in the order of the query.
    pub phrase: Vec<String>,
}

impl View for TermSet {
    type V = Terms;

    open spec fn view(&self) -> Terms {
        Terms {
            tags: self.tags.deep_view(),
            words: self.words.deep_view(),
            all_words: self.all_words.deep_view(),
            phrase: self.phrase.deep_view(),
        }
    }
}

/// `distinct` leaves exactly the items that occur in `items`.
pub proof fn lemma_distinct_keeps(items: Seq<Seq<char>>, t: Seq<char>)
    ensures
        distinct(items).contains(t) <==> items.contains(t),
    decreases items.len(),
{
    if items.len() > 0 {
        let head = items.drop_last();
        let d = distinct(head);
        lemma_distinct_keeps(head, t);
        if items.contains(t) {
            let i = choose|i: int| 0 <= i < items.len() && items[i] == t;
            if i < items.len() - 1 {
                assert(head[i] == t);
                let j = choose|j: int| 0 <= j < d.len() && d[j] == t;
                assert(distinct(items)[j] == t);
            } else if !d.contains(t) {
                assert(distinct(items)[d.len() as int] == t);
            }
        }
        if distinct(items).contains(t) {
            let j = choose|j: int| 0 <= j < distinct(items).len() && distinct(items)[j] == t;
            if j < d.len() {
                assert(d[j] == t);
                let i = choose|i: int| 0 <= i < head.len() && head[i] == t;
                assert(items[i] == t);
            } else {
                assert(items[items.len() - 1] == t);
            }
        }
    }
}

/// Nothing occurs twice in what `distinct` leaves.
pub proof fn lemma_distinct_no_duplicates(items: Seq<Seq<char>>)
    ensures
        distinct(items).no_duplicates(),
    decreases items.len(),
{
    if items.len() > 0 {
        lemma_distinct_no_duplicates(items.drop_last());
    }
}

/// Adding one more word to a query adds it to the terms of its kind.
proof fn lemma_terms_push(words: Seq<Seq<char>>, word: Seq<char>)
    ensures
        tag_terms(words.push(word)) == if is_tag_word(word) {
            tag_terms(words).push(word.skip(1))
        } else {
            tag_terms(words)
        },
        content_terms(words.push(word)) == if is_tag_word(word) {
            content_terms(words)
        } else {
            content_terms(words).push(word)
        },
{
    reveal(Seq::filter);
    assert(words.push(word).drop_last() =~= words);
    assert(tag_terms(words.push(word)) =~= if is_tag_word(word) {
        tag_terms(words).push(word.skip(1))
    } else {
        tag_terms(words)
    });
}

/// Whether `list` holds a string with the text of `item`.
pub fn holds(list: &Vec<String>, item: &String) -> (yes: bool)
    ensures
        yes == list.deep_view().contains(item@),
{
    let mut i: usize = 0;
    while i < list.len()
        invariant
            i <= list.len(),
            forall|j: int| 0 <= j < i ==> list.deep_view()[j] != item@,
        decreases list.len() - i,
    {
        if list[i] == *item {
            assert(list.deep_view()[i as int] == item@);
            return true;
        }
        i = i + 1;
    }
    false
}

/// Adds `item` to the end of `list` unless the list holds its text already.
pub fn add_distinct(list: &mut Vec<String>, item: String)
    ensures
        final(list).deep_view() == if old(list).deep_view().contains(item@) {
            old(list).deep_view()
        } else {
            old(list).deep_view().push(item@)
        },
{
    if !holds(list, &item) {
        let ghost before = list.deep_view();
        list.push(item);
        assert(list.deep_view() =~= before.push(item@));
    }
}

/// The tag that `word` asks for, where it begins with the sigil: the word without
/// the sigil. `None` for every other word.
pub fn tag_of(word: &str) -> (tag: Option<String>)
    ensures
        match tag {
            Some(t) => is_tag_word(word@) && t@ == word@.skip(1),
            None => !is_tag_word(word@),
        },
{
    let chars = to_chars(word);
    if chars.len() > 0 && chars[0] == TAG_SIGIL {
        let tag = text_between(&chars, 1, chars.len());
        assert(tag@ =~= word@.skip(1));
        Some(tag)
    } else {
        None
    }
}

impl TermSet {
    /// Sorts the words of a query into tag terms and content terms. Where case does
    /// not matter, each word is put in lowercase first. Any word is accepted; the word
    /// that is the sigil alone gives the empty tag term.
    pub fn classify(words: &[String], case_sensitive: bool) -> (terms: TermSet)
        ensures
            terms@ == terms_of(words.deep_view(), case_sensitive),
    {
        let mut tags: Vec<String> = Vec::new();
        let mut content: Vec<String> = Vec::new();
        let mut phrase: Vec<String> = Vec::new();
        let ghost used = normalized(words.deep_view(), case_sensitive);
        let mut i: usize = 0;
        proof {
            reveal(Seq::filter);
            assert(used.take(0) =~= Seq::empty());
            assert(tag_terms(used.take(0)) =~= Seq::empty());
        }
        while i < words.len()
            invariant
                i <= words.len(),
                used == normalized(words.deep_view(), case_sensitive),
                used.len() == words.len(),
                tags.deep_view() == distinct(tag_terms(used.take(i as int))),
                content.deep_view() == distinct(content_terms(used.take(i as int))),
                phrase.deep_view() == content_terms(used.take(i as int)),
            decreases words.len() - i,
        {
            let word = if case_sensitive {
                words[i].clone()
            } else {
                lowercase(words[i].as_str())
            };
            proof {
                assert(word@ == used[i as int]);
                assert(used.take(i + 1) =~= used.take(i as int).push(word@));
                lemma_terms_push(used.take(i as int), word@);
            }
            match tag_of(word.as_str()) {
                Some(tag) => {
                    proof {
                        let seen = tag_terms(used.take(i as int));
                        assert(seen.push(tag@).drop_last() =~= seen);
                    }
                    add_distinct(&mut tags, tag);
                },
                None => {
                    proof {
                        let seen = content_terms(used.take(i as int));
                        assert(seen.push(word@).drop_last() =~= seen);
                    }
                    let ghost before = phrase.deep_view();
                    add_distinct(&mut content, word.clone());
                    phrase.push(word);
                    assert(phrase.deep_view() =~= before.push(word@));
                },
            }
            i = i + 1;
        }
        assert(used.take(i as int) =~= used);
        let all_words = Self::union(&content, &tags);
        TermSet { tags, words: content, all_words, phrase }
    }

    /// The strings of `first` and then those of `second`, each text once.
    fn union(first: &Vec<String>, second: &Vec<String>) -> (both: Vec<String>)
        ensures
            both.deep_view() == distinct(first.deep_view() + second.deep_view()),
    {
        let mut both: Vec<String> = Vec::new();
        let ghost all = first.deep_view() + second.deep_view();
        let mut i: usize = 0;
        while i < first.len()
            invariant
                i <= first.len(),
                all == first.deep_view() + second.deep_view(),
                both.deep_view() == distinct(all.take(i as int)),
            decreases first.len() - i,
        {
            assert(all.take(i + 1).drop_last() =~= all.take(i as int));
            add_distinct(&mut both, first[i].clone());
            i = i + 1;
        }
        let mut j: usize = 0;
        while j < second.len()
            invariant
                j <= second.len(),
                all == first.deep_view() + second.deep_view(),
                both.deep_view() == distinct(all.take(first.len() + j)),
            decreases second.len() - j,
        {
            assert(all.take(first.len() + j + 1).drop_last() =~= all.take(first.len() + j));
            add_distinct(&mut both, second[j].clone());
            j = j + 1;
        }
        assert(all.take(first.len() + second.len()) =~= all);
        both
    }
}

} // verus!
