//! The matcher: a query, the four criteria it checks on a note, the result for one
//! note, and the two ways of writing a result down.

use crate::phrase::{
    compile, compiled_from, error_text, found_in, pattern_found, pattern_starts, phrase_pattern,
    phrase_text, starts_in,
};
use crate::tagquery::{
    accepts, askable, extract_tags, filter_accepts, is_askable, keywords, tag_filter, tags_in,
    takes_any, unwanted_of, wanted_of,
};
use crate::terms::{
    content_terms, distinct, lemma_distinct_keeps, lemma_distinct_no_duplicates, normalized,
    tag_terms, terms_of, TermSet,
};
use crate::text::{
    decimal, file_stem, header_line, is_header, join, joined, lines_of, lowercase, lowercased,
    push_decimal, split_lines, stem_of,
};
use regex::Regex;
use vstd::prelude::*;
use vstd::string::*;

verus! {

/// A place in a note: the line and the column, both counted from 1.
pub type Position = (usize, usize);

/// The four criteria on which a note can match.
#[derive(Clone, Copy, Debug, PartialEq, Eq, Structural)]
pub enum Criterion {
    Title,
    Tags,
    Header,
    Contents,
}

/// How a result is written down.
#[derive(Clone, Copy, Debug, PartialEq, Eq, Structural)]
pub enum Displayer {
    /// One line for the note: its glyphs and its path.
    Plain,
    /// One line for each match: path, line, column and the matched text.
    Vimgrep,
}

/// Whether a title match is listed among the located matches of a result. It always
/// shows in the glyphs.
#[derive(Clone, Copy, Debug, PartialEq, Eq, Structural)]
pub enum TitleListing {
    /// The list holds tag, header and contents matches only.
    Excluded,
    /// The list begins with the title match.
    Included,
}

/// One match: the criterion that fired, with the text that matched. For the title
/// the text is the file stem, for the other criteria the matching line.
#[derive(Clone, Debug, PartialEq, Eq)]
pub enum NFMatch {
    Title(String),
    Tags(String),
    Contents(String),
    Header(String),
}

/// One located match, as plain values.
pub struct Hit {
    pub line: nat,
    pub column: nat,
    pub criterion: Criterion,
    pub text: Seq<char>,
}

impl NFMatch {
    /// The criterion that fired.
    pub open spec fn criterion(&self) -> Criterion {
        match self {
            NFMatch::Title(_) => Criterion::Title,
            NFMatch::Tags(_) => Criterion::Tags,
            NFMatch::Contents(_) => Criterion::Contents,
            NFMatch::Header(_) => Criterion::Header,
        }
    }

    /// The text that matched.
    pub open spec fn text(&self) -> Seq<char> {
        match self {
            NFMatch::Title(t) => t@,
            NFMatch::Tags(t) => t@,
            NFMatch::Contents(t) => t@,
            NFMatch::Header(t) => t@,
        }
    }

    /// A match of the given criterion on the given text.
    pub fn of(criterion: Criterion, text: String) -> (found: NFMatch)
        ensures
            found.criterion() == criterion,
            found.text() == text@,
    {
        match criterion {
            Criterion::Title => NFMatch::Title(text),
            Criterion::Tags => NFMatch::Tags(text),
            Criterion::Header => NFMatch::Header(text),
            Criterion::Contents => NFMatch::Contents(text),
        }
    }
}

/// The located match that an entry of a match list stands for.
pub open spec fn hit_of(entry: (Position, NFMatch)) -> Hit {
    Hit {
        line: entry.0.0 as nat,
        column: entry.0.1 as nat,
        criterion: entry.1.criterion(),
        text: entry.1.text(),
    }
}

/// The located matches that a match list stands for.
pub open spec fn hits_of(entries: Seq<(Position, NFMatch)>) -> Seq<Hit> {
    Seq::new(entries.len(), |i: int| hit_of(entries[i]))
}

/// The match of a criterion that looks at a whole text (the title, a tag line, a
/// header line): one hit in column 1 where the text matched, none where it did not.
pub open spec fn whole_hit(criterion: Criterion, line: nat, text: Seq<char>, matched: bool) -> Seq<
    Hit,
> {
    if matched {
        seq![Hit { line, column: 1, criterion, text }]
    } else {
        Seq::empty()
    }
}

/// The contents matches on one line: one hit for each offset at which the phrase
/// begins, in the column one past that offset, with the line as its text.
pub open spec fn content_hits(line: nat, text: Seq<char>, starts: Seq<usize>) -> Seq<Hit> {
    Seq::new(
        starts.len(),
        |k: int| Hit { line, column: (starts[k] + 1) as nat, criterion: Criterion::Contents, text },
    )
}

/// Whether each of the offsets has a column. The column is one more than the
/// offset and is held in a `usize`, so the offset `usize::MAX` has none.
pub open spec fn have_columns(starts: Seq<usize>) -> bool {
    forall|k: int| 0 <= k < starts.len() ==> starts[k] < usize::MAX
}

/// The match list for a criterion that looks at a whole text.
pub fn whole_entry(criterion: Criterion, line: usize, text: String, matched: bool) -> (entries: Vec<
    (Position, NFMatch),
>)
    ensures
        hits_of(entries@) == whole_hit(criterion, line as nat, text@, matched),
{
    let mut entries: Vec<(Position, NFMatch)> = Vec::new();
    if matched {
        entries.push(((line, 1), NFMatch::of(criterion, text)));
    }
    assert(hits_of(entries@) =~= whole_hit(criterion, line as nat, text@, matched));
    entries
}

/// The match list for the contents matches on one line, given the offsets at which
/// the phrase begins in it.
pub fn content_entries(line: usize, text: &str, starts: &Vec<usize>) -> (entries: Vec<
    (Position, NFMatch),
>)
    requires
        have_columns(starts@),
    ensures
        hits_of(entries@) == content_hits(line as nat, text@, starts@),
{
    let mut entries: Vec<(Position, NFMatch)> = Vec::new();
    let mut k: usize = 0;
    while k < starts.len()
        invariant
            k <= starts.len(),
            have_columns(starts@),
            hits_of(entries@) == content_hits(line as nat, text@, starts@.take(k as int)),
        decreases starts.len() - k,
    {
        let ghost before = hits_of(entries@);
        let entry = ((line, starts[k] + 1), NFMatch::Contents(text.to_owned()));
        entries.push(entry);
        k = k + 1;
        assert(hits_of(entries@) =~= before.push(hit_of(entry)));
        assert(hits_of(entries@) =~= content_hits(line as nat, text@, starts@.take(k as int)));
    }
    assert(starts@.take(k as int) =~= starts@);
    entries
}

/// The glyph summary: one character for each criterion, in the order title, tags,
/// header, contents. A criterion that matched shows its glyph, one that did not
/// shows a space.
pub open spec fn glyphs(title: bool, tags: bool, header: bool, contents: bool) -> Seq<char> {
    seq![
        if title { 't' } else { ' ' },
        if tags { '@' } else { ' ' },
        if header { 'h' } else { ' ' },
        if contents { 'c' } else { ' ' },
    ]
}

/// The result for one note, as plain values.
pub struct FileResult {
    /// The path of the note.
    pub filename: Seq<char>,
    /// The glyph summary.
    pub glyphs: Seq<char>,
    /// The located matches, in the order in which they are listed.
    pub hits: Seq<Hit>,
    /// Whether the result is written as one line for each match.
    pub positional: bool,
}

/// The result that the four criteria give together. The glyph summary marks each
/// criterion that has at least one match. The list holds the tag matches, then the
/// header matches, then the contents matches; where title matches are listed, they
/// come first, and where they are not, a title match shows in the glyphs only.
pub open spec fn aggregated(
    filename: Seq<char>,
    title: Seq<Hit>,
    tags: Seq<Hit>,
    header: Seq<Hit>,
    contents: Seq<Hit>,
    positional: bool,
    title_listed: bool,
) -> FileResult {
    FileResult {
        filename,
        glyphs: glyphs(title.len() > 0, tags.len() > 0, header.len() > 0, contents.len() > 0),
        hits: if title_listed {
            title + tags + header + contents
        } else {
            tags + header + contents
        },
        positional,
    }
}

/// What stands before the matched text in the line for a match.
pub open spec fn prefix_of(criterion: Criterion) -> Seq<char> {
    match criterion {
        Criterion::Title => "Title "@,
        Criterion::Tags => "@ "@,
        Criterion::Header => Seq::empty(),
        Criterion::Contents => Seq::empty(),
    }
}

/// The line for one match: `path:line:column:` and then the prefix and the text.
pub open spec fn hit_line(filename: Seq<char>, hit: Hit) -> Seq<char> {
    filename + ":"@ + decimal(hit.line) + ":"@ + decimal(hit.column) + ":"@ + prefix_of(
        hit.criterion,
    ) + hit.text
}

/// The lines for the matches, one for each.
pub open spec fn hit_lines(filename: Seq<char>, hits: Seq<Hit>) -> Seq<Seq<char>> {
    Seq::new(hits.len(), |i: int| hit_line(filename, hits[i]))
}

/// A result written down. Plain: the glyphs, a space, the path. Positional: the
/// lines for the matches with a newline between each two; empty where there is no
/// match in the list.
pub open spec fn rendered(result: FileResult) -> Seq<char> {
    if result.positional {
        joined(hit_lines(result.filename, result.hits), "\n"@)
    } else {
        result.glyphs + " "@ + result.filename
    }
}

/// Whether a result says that nothing matched: every glyph is a space and the list
/// of matches is empty.
pub open spec fn is_blank(result: FileResult) -> bool {
    &&& result.hits.len() == 0
    &&& forall|i: int| 0 <= i < result.glyphs.len() ==> result.glyphs[i] == ' '
}

/// Whether a result is shown. A blank result is never shown, and in the positional
/// form a result with nothing in its list is not shown either: it has no line.
pub open spec fn is_shown(result: FileResult) -> bool {
    if result.positional {
        result.hits.len() > 0
    } else {
        !is_blank(result)
    }
}

/// The result of matching one note.
#[derive(Debug, PartialEq, Eq)]
pub struct FileMatch {
    filename: String,
    shortstr: String,
    pub matches: Vec<(Position, NFMatch)>,
    displaytype: Displayer,
}

impl View for FileMatch {
    type V = FileResult;

    closed spec fn view(&self) -> FileResult {
        FileResult {
            filename: self.filename@,
            glyphs: self.shortstr@,
            hits: hits_of(self.matches@),
            positional: self.displaytype == Displayer::Vimgrep,
        }
    }
}

impl FileMatch {
    /// Combines what the four criteria found for the note `filename` into one result.
    pub fn aggregate(
        filename: String,
        title: Vec<(Position, NFMatch)>,
        tags: Vec<(Position, NFMatch)>,
        header: Vec<(Position, NFMatch)>,
        contents: Vec<(Position, NFMatch)>,
        displaytype: Displayer,
        listing: TitleListing,
    ) -> (result: FileMatch)
        ensures
            result@ == aggregated(
                filename@,
                hits_of(title@),
                hits_of(tags@),
                hits_of(header@),
                hits_of(contents@),
                displaytype == Displayer::Vimgrep,
                listing == TitleListing::Included,
            ),
    {
        let mut shortstr = String::new();
        shortstr.push(if title.len() > 0 { 't' } else { ' ' });
        shortstr.push(if tags.len() > 0 { '@' } else { ' ' });
        shortstr.push(if header.len() > 0 { 'h' } else { ' ' });
        shortstr.push(if contents.len() > 0 { 'c' } else { ' ' });
        assert(shortstr@ =~= glyphs(
            title.len() > 0,
            tags.len() > 0,
            header.len() > 0,
            contents.len() > 0,
        ));
        let ghost listed = if listing == TitleListing::Included {
            hits_of(title@) + hits_of(tags@) + hits_of(header@) + hits_of(contents@)
        } else {
            hits_of(tags@) + hits_of(header@) + hits_of(contents@)
        };
        let mut matches: Vec<(Position, NFMatch)> = Vec::new();
        let mut title = title;
        let mut tags = tags;
        let mut header = header;
        let mut contents = contents;
        match listing {
            TitleListing::Included => {
                matches.append(&mut title);
            },
            TitleListing::Excluded => {},
        }
        matches.append(&mut tags);
        matches.append(&mut header);
        matches.append(&mut contents);
        assert(hits_of(matches@) =~= listed);
        FileMatch { filename, shortstr, matches, displaytype }
    }

    /// The path of the note.
    pub fn filename(&self) -> (path: &str)
        ensures
            path@ == self@.filename,
    {
        self.filename.as_str()
    }

    /// The glyph summary.
    pub fn shortstr(&self) -> (glyphs: &str)
        ensures
            glyphs@ == self@.glyphs,
    {
        self.shortstr.as_str()
    }

    /// How the result is written down.
    pub fn displaytype(&self) -> (form: Displayer)
        ensures
            (form == Displayer::Vimgrep) == self@.positional,
    {
        self.displaytype
    }

    /// The located matches of the result, in the order in which they are listed.
    pub fn entries(&self) -> (entries: &Vec<(Position, NFMatch)>)
        ensures
            hits_of(entries@) == self@.hits,
    {
        &self.matches
    }

    /// The line for one entry of a match list of the note `filename`.
    pub fn entry_line(filename: &str, entry: &(Position, NFMatch)) -> (line: String)
        ensures
            line@ == hit_line(filename@, hit_of(*entry)),
    {
        let mut line = filename.to_owned();
        line.append(":");
        push_decimal(&mut line, entry.0.0);
        line.append(":");
        push_decimal(&mut line, entry.0.1);
        line.append(":");
        match &entry.1 {
            NFMatch::Title(text) => {
                line.append("Title ");
                line.append(text.as_str());
            },
            NFMatch::Tags(text) => {
                line.append("@ ");
                line.append(text.as_str());
            },
            NFMatch::Contents(text) => {
                line.append(text.as_str());
            },
            NFMatch::Header(text) => {
                line.append(text.as_str());
            },
        }
        assert(line@ =~= hit_line(filename@, hit_of(*entry)));
        line
    }

    /// Writes the result down, in the form that was chosen for it.
    pub fn render(&self) -> (out: String)
        ensures
            out@ == rendered(self@),
    {
        match self.displaytype {
            Displayer::Plain => {
                let mut out = self.shortstr.clone();
                out.append(" ");
                out.append(self.filename.as_str());
                out
            },
            Displayer::Vimgrep => {
                let mut lines: Vec<String> = Vec::new();
                let mut i: usize = 0;
                while i < self.matches.len()
                    invariant
                        i <= self.matches.len(),
                        lines.deep_view() == hit_lines(
                            self.filename@,
                            hits_of(self.matches@).take(i as int),
                        ),
                    decreases self.matches.len() - i,
                {
                    let ghost before = lines.deep_view();
                    let line = Self::entry_line(self.filename.as_str(), &self.matches[i]);
                    lines.push(line);
                    i = i + 1;
                    assert(lines.deep_view() =~= before.push(line@));
                    assert(lines.deep_view() =~= hit_lines(
                        self.filename@,
                        hits_of(self.matches@).take(i as int),
                    ));
                }
                assert(hits_of(self.matches@).take(i as int) =~= hits_of(self.matches@));
                join(&lines, "\n")
            },
        }
    }

    /// Whether the result says that nothing matched.
    pub fn no_match(&self) -> (blank: bool)
        ensures
            blank == is_blank(self@),
    {
        broadcast use group_string_axioms;

        if self.matches.len() > 0 {
            return false;
        }
        for c in it: self.shortstr.as_str().chars()
            invariant
                it.seq() == self.shortstr@,
                forall|j: int| 0 <= j < it.index() ==> self.shortstr@[j] == ' ',
        {
            if c != ' ' {
                assert(self@.glyphs[it.index()] != ' ');
                return false;
            }
        }
        true
    }

    /// What is to be printed for the result: the result written down where it is
    /// shown, nothing where it is not.
    pub fn output(&self) -> (out: Option<String>)
        ensures
            match out {
                Some(text) => is_shown(self@) && text@ == rendered(self@),
                None => !is_shown(self@),
            },
            is_blank(self@) ==> out is None,
    {
        let shown = match self.displaytype {
            Displayer::Plain => !self.no_match(),
            Displayer::Vimgrep => self.matches.len() > 0,
        };
        if shown {
            Some(self.render())
        } else {
            None
        }
    }
}

/// Whether a phrase is found in `text`. A query without content terms has no
/// phrase, and no phrase is found nowhere.
pub open spec fn phrase_found(phrase: Option<Seq<char>>, text: Seq<char>) -> bool {
    phrase matches Some(pattern) && pattern_found(pattern, text)
}

/// A text as the phrase is looked for in it: as it stands where case matters, in
/// lowercase where it does not.
pub open spec fn searched(text: Seq<char>, case_sensitive: bool) -> Seq<char> {
    if case_sensitive {
        text
    } else {
        lowercased(text)
    }
}

/// The header matches in `lines`: one for each header line in which the phrase is
/// found, at its line number and with the line, as it stands in the note, as its
/// text. Where case does not matter the phrase is looked for in the line in
/// lowercase.
pub open spec fn header_scan(pattern: Seq<char>, case_sensitive: bool, lines: Seq<Seq<char>>) -> Seq<
    Hit,
>
    decreases lines.len(),
{
    if lines.len() == 0 {
        Seq::empty()
    } else {
        header_scan(pattern, case_sensitive, lines.drop_last()) + whole_hit(
            Criterion::Header,
            lines.len(),
            lines.last(),
            is_header(lines.last()) && pattern_found(
                pattern,
                searched(lines.last(), case_sensitive),
            ),
        )
    }
}

/// The contents matches in `lines`: line after line, one for each occurrence of the
/// phrase in the line, with the line, as it stands in the note, as its text. Where
/// case does not matter the occurrences are those in the line in lowercase, and the
/// columns count in that text.
pub open spec fn content_scan(pattern: Seq<char>, case_sensitive: bool, lines: Seq<Seq<char>>) -> Seq<
    Hit,
>
    decreases lines.len(),
{
    if lines.len() == 0 {
        Seq::empty()
    } else {
        content_scan(pattern, case_sensitive, lines.drop_last()) + content_hits(
            lines.len(),
            lines.last(),
            pattern_starts(pattern, searched(lines.last(), case_sensitive)),
        )
    }
}

/// The tag matches in `lines`: one for each line whose tags satisfy a filter that
/// asks for all of `wanted` and excludes nothing.
pub open spec fn tag_scan(wanted: Seq<Seq<char>>, lines: Seq<Seq<char>>) -> Seq<Hit>
    decreases lines.len(),
{
    if lines.len() == 0 {
        Seq::empty()
    } else {
        tag_scan(wanted, lines.drop_last()) + whole_hit(
            Criterion::Tags,
            lines.len(),
            lines.last(),
            filter_accepts(keywords(wanted), Set::empty(), false, tags_in(lines.last())),
        )
    }
}

/// A query, as plain values.
pub struct Query {
    /// The content terms and the tag terms together, each once.
    pub all_words: Seq<Seq<char>>,
    /// The content terms, each once.
    pub words: Seq<Seq<char>>,
    /// The tag terms, each once.
    pub tags: Seq<Seq<char>>,
    /// The pattern of the phrase; none where the query has no content terms.
    pub phrase: Option<Seq<char>>,
    /// Whether case matters.
    pub case_sensitive: bool,
    /// Whether results are written as one line for each match.
    pub positional: bool,
    /// Whether a title match is listed among the located matches.
    pub title_listed: bool,
}

impl Query {
    /// Whether the parts of the query fit together: no term is listed twice, the
    /// union holds the content terms and then the tag terms, and there is a phrase
    /// exactly where there are content terms.
    pub open spec fn wf(self) -> bool {
        &&& self.tags.no_duplicates()
        &&& self.words.no_duplicates()
        &&& self.all_words == distinct(self.words + self.tags)
        &&& (self.phrase is None <==> self.words.len() == 0)
    }

    /// The title match for the note at `path`: one, at line 1 and column 1 and with
    /// the file stem as its text, where the query has terms and its phrase is found
    /// in the stem. The whole phrase has to be found: a stem that holds only some of
    /// the words is no match, and tag terms play no part in it.
    pub open spec fn title_hits(self, path: Seq<char>) -> Seq<Hit> {
        whole_hit(
            Criterion::Title,
            1,
            stem_of(path),
            self.all_words.len() > 0 && phrase_found(self.phrase, stem_of(path)),
        )
    }

    /// The tag matches in `lines`. Tags are looked for line by line, each line with
    /// the tags that it declares itself. A query without tag terms has no tag match,
    /// and so has a query with an empty tag term.
    pub open spec fn tag_hits(self, lines: Seq<Seq<char>>) -> Seq<Hit> {
        if is_askable(self.tags) {
            tag_scan(self.tags, lines)
        } else {
            Seq::empty()
        }
    }

    /// The header matches in `lines`; none for a query without a phrase.
    pub open spec fn header_hits(self, lines: Seq<Seq<char>>) -> Seq<Hit> {
        match self.phrase {
            Some(pattern) => header_scan(pattern, self.case_sensitive, lines),
            None => Seq::empty(),
        }
    }

    /// The contents matches in `lines`; none for a query without a phrase.
    pub open spec fn content_hits(self, lines: Seq<Seq<char>>) -> Seq<Hit> {
        match self.phrase {
            Some(pattern) => content_scan(pattern, self.case_sensitive, lines),
            None => Seq::empty(),
        }
    }

    /// The result for the note at `path` with the text `contents`.
    pub open spec fn file_result(self, path: Seq<char>, contents: Seq<char>) -> FileResult {
        let lines = lines_of(contents);
        aggregated(
            path,
            self.title_hits(path),
            self.tag_hits(lines),
            self.header_hits(lines),
            self.content_hits(lines),
            self.positional,
            self.title_listed,
        )
    }
}

/// The query that the words of a command line make. Title matches are not listed
/// unless the query is told otherwise.
pub open spec fn query_of(words: Seq<Seq<char>>, case_sensitive: bool, positional: bool) -> Query {
    let terms = terms_of(words, case_sensitive);
    Query {
        all_words: terms.all_words,
        words: terms.words,
        tags: terms.tags,
        phrase: if terms.phrase.len() == 0 {
            None
        } else {
            Some(phrase_pattern(terms.phrase))
        },
        case_sensitive,
        positional,
        title_listed: false,
    }
}

/// The query that the words of a command line make is well formed.
pub proof fn lemma_query_of_wf(words: Seq<Seq<char>>, case_sensitive: bool, positional: bool)
    ensures
        query_of(words, case_sensitive, positional).wf(),
{
    let used = normalized(words, case_sensitive);
    lemma_distinct_no_duplicates(tag_terms(used));
    lemma_distinct_no_duplicates(content_terms(used));
    let content = content_terms(used);
    if content.len() > 0 {
        lemma_distinct_keeps(content, content[0]);
    }
}

/// The pattern of a query's phrase was refused when it was compiled.
#[derive(Debug, PartialEq, Eq)]
pub struct PatternError {
    /// What the `regex` crate said of the pattern.
    pub message: String,
}

/// A query, ready to be matched against notes.
#[derive(Debug)]
pub struct NoteFilter {
    pub all_words: Vec<String>,
    pub words: Vec<String>,
    word_regex: Option<Regex>,
    pub tags: Vec<String>,
    case_sensitive: bool,
    as_vimgrep: bool,
    title_listing: TitleListing,
}

impl View for NoteFilter {
    type V = Query;

    closed spec fn view(&self) -> Query {
        Query {
            all_words: self.all_words.deep_view(),
            words: self.words.deep_view(),
            tags: self.tags.deep_view(),
            phrase: match self.word_regex {
                Some(re) => Some(compiled_from(&re)),
                None => None,
            },
            case_sensitive: self.case_sensitive,
            positional: self.as_vimgrep,
            title_listed: self.title_listing == TitleListing::Included,
        }
    }
}

impl NoteFilter {
    /// Makes the query of `words`. The words are classified, and where there are
    /// content terms their phrase is compiled. The `regex` crate decides whether it
    /// accepts the pattern; a query without content terms has nothing to compile and
    /// is always made.
    pub fn new(words: &[String], case_sensitive: bool, as_vimgrep: bool) -> (made: Result<
        NoteFilter,
        PatternError,
    >)
        ensures
            made matches Ok(filter) ==> filter@ == query_of(
                words.deep_view(),
                case_sensitive,
                as_vimgrep,
            ),
            made matches Ok(filter) ==> filter@.wf(),
            terms_of(words.deep_view(), case_sensitive).phrase.len() == 0 ==> made is Ok,
    {
        proof {
            lemma_query_of_wf(words.deep_view(), case_sensitive, as_vimgrep);
        }
        let terms = TermSet::classify(words, case_sensitive);
        if terms.phrase.len() == 0 {
            Ok(
                NoteFilter {
                    all_words: terms.all_words,
                    words: terms.words,
                    word_regex: None,
                    tags: terms.tags,
                    case_sensitive,
                    as_vimgrep,
                    title_listing: TitleListing::Excluded,
                },
            )
        } else {
            let pattern = phrase_text(&terms.phrase);
            let compiled = compile(pattern.as_str());
            Self::with_phrase(terms, compiled, case_sensitive, as_vimgrep)
        }
    }

    /// Makes a query of classified terms and of what `Regex::new` gave for their
    /// phrase: the query with that phrase where the pattern was accepted, the error
    /// where it was refused. The regex has to come from `Regex::new`: one that was
    /// built with options of its own is not described by its pattern.
    pub fn with_phrase(
        terms: TermSet,
        compiled: Result<Regex, regex::Error>,
        case_sensitive: bool,
        as_vimgrep: bool,
    ) -> (made: Result<NoteFilter, PatternError>)
        ensures
            match compiled {
                Ok(re) => made matches Ok(filter) && filter@ == (Query {
                    all_words: terms@.all_words,
                    words: terms@.words,
                    tags: terms@.tags,
                    phrase: Some(compiled_from(&re)),
                    case_sensitive,
                    positional: as_vimgrep,
                    title_listed: false,
                }),
                Err(_) => made is Err,
            },
    {
        match compiled {
            Ok(re) => Ok(
                NoteFilter {
                    all_words: terms.all_words,
                    words: terms.words,
                    word_regex: Some(re),
                    tags: terms.tags,
                    case_sensitive,
                    as_vimgrep,
                    title_listing: TitleListing::Excluded,
                },
            ),
            Err(error) => Err(PatternError { message: error_text(&error) }),
        }
    }

    /// The same query with the given choice on listing title matches.
    pub fn with_title_listing(self, listing: TitleListing) -> (filter: NoteFilter)
        ensures
            filter@ == (Query { title_listed: listing == TitleListing::Included, ..self@ }),
    {
        NoteFilter {
            all_words: self.all_words,
            words: self.words,
            word_regex: self.word_regex,
            tags: self.tags,
            case_sensitive: self.case_sensitive,
            as_vimgrep: self.as_vimgrep,
            title_listing: listing,
        }
    }

    /// The tag terms of the query.
    pub fn tags(&self) -> (tags: &Vec<String>)
        ensures
            tags.deep_view() == self@.tags,
    {
        &self.tags
    }

    /// The content terms of the query.
    pub fn words(&self) -> (words: &Vec<String>)
        ensures
            words.deep_view() == self@.words,
    {
        &self.words
    }

    /// The content terms and the tag terms of the query together.
    pub fn all_words(&self) -> (all_words: &Vec<String>)
        ensures
            all_words.deep_view() == self@.all_words,
    {
        &self.all_words
    }

    /// Whether case matters to the query.
    pub fn case_sensitive(&self) -> (yes: bool)
        ensures
            yes == self@.case_sensitive,
    {
        self.case_sensitive
    }

    /// Whether results of the query are written as one line for each match.
    pub fn as_vimgrep(&self) -> (yes: bool)
        ensures
            yes == self@.positional,
    {
        self.as_vimgrep
    }

    /// Checks the title criterion on the note at `path`.
    pub fn title_matches(&self, path: &str) -> (hits: Vec<(Position, NFMatch)>)
        ensures
            hits_of(hits@) == self@.title_hits(path@),
    {
        let stem = file_stem(path);
        let found = if self.all_words.len() == 0 {
            false
        } else {
            match &self.word_regex {
                Some(re) => found_in(re, stem.as_str()),
                None => false,
            }
        };
        whole_entry(Criterion::Title, 1, stem, found)
    }

    /// Checks the contents criterion on a note with the text `contents`.
    pub fn contents_match(&self, contents: &str) -> (hits: Vec<(Position, NFMatch)>)
        ensures
            hits_of(hits@) == self@.content_hits(lines_of(contents@)),
    {
        let lines = split_lines(contents);
        self.contents_of(&lines)
    }

    /// Checks the header criterion on a note with the text `contents`.
    pub fn header_match(&self, contents: &str) -> (hits: Vec<(Position, NFMatch)>)
        ensures
            hits_of(hits@) == self@.header_hits(lines_of(contents@)),
    {
        let lines = split_lines(contents);
        self.headers_of(&lines)
    }

    /// Checks the tags criterion on a note with the text `contents`.
    pub fn tags_match(&self, contents: &str) -> (hits: Vec<(Position, NFMatch)>)
        ensures
            hits_of(hits@) == self@.tag_hits(lines_of(contents@)),
    {
        let lines = split_lines(contents);
        self.tags_of(&lines)
    }

    /// Checks all four criteria on the note at `path` with the text `contents`, and
    /// combines what they find.
    pub fn matches(&self, path: &str, contents: &str) -> (result: FileMatch)
        ensures
            result@ == self@.file_result(path@, contents@),
    {
        let lines = split_lines(contents);
        let in_title = self.title_matches(path);
        let in_tags = self.tags_of(&lines);
        let in_headers = self.headers_of(&lines);
        let in_contents = self.contents_of(&lines);
        let displaytype = if self.as_vimgrep {
            Displayer::Vimgrep
        } else {
            Displayer::Plain
        };
        FileMatch::aggregate(
            path.to_owned(),
            in_title,
            in_tags,
            in_headers,
            in_contents,
            displaytype,
            self.title_listing,
        )
    }

    fn contents_of(&self, lines: &Vec<String>) -> (hits: Vec<(Position, NFMatch)>)
        ensures
            hits_of(hits@) == self@.content_hits(lines.deep_view()),
    {
        let mut hits: Vec<(Position, NFMatch)> = Vec::new();
        match &self.word_regex {
            None => {},
            Some(re) => {
                let ghost pattern = compiled_from(re);
                let mut i: usize = 0;
                while i < lines.len()
                    invariant
                        i <= lines.len(),
                        pattern == compiled_from(re),
                        hits_of(hits@) == content_scan(
                            pattern,
                            self.case_sensitive,
                            lines.deep_view().take(i as int),
                        ),
                    decreases lines.len() - i,
                {
                    let ghost before = hits_of(hits@);
                    let starts = if self.case_sensitive {
                        starts_in(re, lines[i].as_str())
                    } else {
                        starts_in(re, lowercase(lines[i].as_str()).as_str())
                    };
                    let mut found = content_entries(i + 1, lines[i].as_str(), &starts);
                    let ghost added = hits_of(found@);
                    hits.append(&mut found);
                    i = i + 1;
                    proof {
                        assert(hits_of(hits@) =~= before + added);
                        assert(lines.deep_view().take(i as int).drop_last() =~= lines.deep_view().take(
                            i - 1,
                        ));
                    }
                }
                assert(lines.deep_view().take(i as int) =~= lines.deep_view());
            },
        }
        hits
    }

    fn headers_of(&self, lines: &Vec<String>) -> (hits: Vec<(Position, NFMatch)>)
        ensures
            hits_of(hits@) == self@.header_hits(lines.deep_view()),
    {
        let mut hits: Vec<(Position, NFMatch)> = Vec::new();
        match &self.word_regex {
            None => {},
            Some(re) => {
                let ghost pattern = compiled_from(re);
                let mut i: usize = 0;
                while i < lines.len()
                    invariant
                        i <= lines.len(),
                        pattern == compiled_from(re),
                        hits_of(hits@) == header_scan(
                            pattern,
                            self.case_sensitive,
                            lines.deep_view().take(i as int),
                        ),
                    decreases lines.len() - i,
                {
                    let ghost before = hits_of(hits@);
                    let matched = header_line(lines[i].as_str()) && if self.case_sensitive {
                        found_in(re, lines[i].as_str())
                    } else {
                        found_in(re, lowercase(lines[i].as_str()).as_str())
                    };
                    let mut found = whole_entry(Criterion::Header, i + 1, lines[i].clone(), matched);
                    let ghost added = hits_of(found@);
                    hits.append(&mut found);
                    i = i + 1;
                    proof {
                        assert(hits_of(hits@) =~= before + added);
                        assert(lines.deep_view().take(i as int).drop_last() =~= lines.deep_view().take(
                            i - 1,
                        ));
                    }
                }
                assert(lines.deep_view().take(i as int) =~= lines.deep_view());
            },
        }
        hits
    }

    fn tags_of(&self, lines: &Vec<String>) -> (hits: Vec<(Position, NFMatch)>)
        ensures
            hits_of(hits@) == self@.tag_hits(lines.deep_view()),
    {
        let mut hits: Vec<(Position, NFMatch)> = Vec::new();
        if !askable(&self.tags) {
            return hits;
        }
        let unwanted: Vec<String> = Vec::new();
        let filter = tag_filter(&self.tags, &unwanted, false);
        assert(unwanted_of(&filter) =~= Set::<Seq<char>>::empty());
        let mut i: usize = 0;
        while i < lines.len()
            invariant
                i <= lines.len(),
                wanted_of(&filter) == keywords(self.tags.deep_view()),
                unwanted_of(&filter) == Set::<Seq<char>>::empty(),
                !takes_any(&filter),
                hits_of(hits@) == tag_scan(self.tags.deep_view(), lines.deep_view().take(i as int)),
            decreases lines.len() - i,
        {
            let ghost before = hits_of(hits@);
            let declared = extract_tags(lines[i].as_str());
            let accepted = accepts(&filter, &declared);
            let mut found = whole_entry(Criterion::Tags, i + 1, lines[i].clone(), accepted);
            let ghost added = hits_of(found@);
            hits.append(&mut found);
            i = i + 1;
            proof {
                assert(hits_of(hits@) =~= before + added);
                assert(lines.deep_view().take(i as int).drop_last() =~= lines.deep_view().take(i - 1));
            }
        }
        assert(lines.deep_view().take(i as int) =~= lines.deep_view());
        hits
    }
}

} // verus!
