use notefilter::terms::TermSet;
use notefilter::notefilter::{
    content_entries, whole_entry, Criterion, Displayer, FileMatch, NFMatch, NoteFilter,
    TitleListing,
};

fn words(list: &[&str]) -> Vec<String> {
    list.iter().map(|w| w.to_string()).collect()
}

fn filter(list: &[&str], case_sensitive: bool, as_vimgrep: bool) -> NoteFilter {
    NoteFilter::new(&words(list), case_sensitive, as_vimgrep).unwrap()
}

#[test]
fn no_terms_give_a_blank_result() {
    let f = filter(&[], false, false);
    let r = f.matches("notes/alpha.md", "# Alpha\nalpha beta @project\n");
    assert_eq!(r.shortstr(), "    ");
    assert!(r.matches.is_empty());
    assert!(r.no_match());
    assert_eq!(r.output(), None);
}

#[test]
fn phrase_matches_across_white_space_in_order() {
    let f = filter(&["alpha", "beta"], false, false);
    let hits = f.contents_match("first\nalpha   beta\nlast\n");
    assert_eq!(hits, vec![((2, 1), NFMatch::Contents("alpha   beta".to_string()))]);
    assert!(f.contents_match("beta alpha\n").is_empty());
}

#[test]
fn lowercase_query_matches_lowercase_body() {
    let f = filter(&["Alpha"], false, false);
    assert_eq!(f.words, words(&["alpha"]));
    let hits = f.contents_match("the alpha case");
    assert_eq!(hits, vec![((1, 5), NFMatch::Contents("the alpha case".to_string()))]);
    let g = filter(&["Alpha"], true, false);
    assert_eq!(g.words, words(&["Alpha"]));
    assert!(g.contents_match("the alpha case").is_empty());
}

#[test]
fn header_line_matches_as_header() {
    let f = filter(&["alpha", "beta"], false, false);
    let hits = f.header_match("# Alpha Beta\n");
    assert_eq!(hits, vec![((1, 1), NFMatch::Header("# Alpha Beta".to_string()))]);
    assert!(f.header_match("Alpha Beta\n").is_empty());
    assert!(f.header_match("alpha beta\n").is_empty());
    let body = f.contents_match("Alpha Beta\n");
    assert_eq!(body, vec![((1, 1), NFMatch::Contents("Alpha Beta".to_string()))]);
    let lower = f.contents_match("alpha beta\n");
    assert_eq!(lower, vec![((1, 1), NFMatch::Contents("alpha beta".to_string()))]);
}

#[test]
fn body_is_searched_in_lowercase_where_case_does_not_matter() {
    let f = filter(&["Alpha"], false, false);
    let hits = f.contents_match("The ALPHA case\n");
    assert_eq!(hits, vec![((1, 5), NFMatch::Contents("The ALPHA case".to_string()))]);
    let g = filter(&["Alpha"], true, false);
    assert!(g.contents_match("The ALPHA case\n").is_empty());
    assert_eq!(
        g.contents_match("The Alpha case\n"),
        vec![((1, 5), NFMatch::Contents("The Alpha case".to_string()))]
    );
}

#[test]
fn matching_header_line_is_a_matching_body_line() {
    for case_sensitive in [false, true] {
        let f = filter(&["alpha"], case_sensitive, false);
        let text = "# Alpha\n# alpha\nalpha\n## ALPHA alpha\nbeta\n";
        let headers = f.header_match(text);
        let body = f.contents_match(text);
        assert!(!headers.is_empty());
        assert!(headers.len() <= body.len());
        for (at, _) in &headers {
            assert!(body.iter().any(|(place, _)| place.0 == at.0));
        }
    }
}

#[test]
fn header_may_be_indented() {
    let f = filter(&["alpha"], true, false);
    let hits = f.header_match("intro\n \t## alpha\nalpha # not a header\n");
    assert_eq!(hits, vec![((2, 1), NFMatch::Header(" \t## alpha".to_string()))]);
}

#[test]
fn header_keeps_case_where_case_matters() {
    let f = filter(&["Alpha"], true, false);
    let hits = f.header_match("# Alpha\n# alpha\n");
    assert_eq!(hits, vec![((1, 1), NFMatch::Header("# Alpha".to_string()))]);
}

#[test]
fn tag_query_matches_the_line_with_the_tag() {
    let f = filter(&["@project"], false, false);
    assert_eq!(f.tags, words(&["project"]));
    let hits = f.tags_match("intro\nwork on @project today\nend\n");
    assert_eq!(hits, vec![((2, 1), NFMatch::Tags("work on @project today".to_string()))]);
    assert!(f.tags_match("intro\nno tag here\n@other\n").is_empty());
}

#[test]
fn tag_query_with_two_tags() {
    let f = filter(&["@alpha", "@beta"], false, false);
    let hits = f.tags_match("@gamma\nno tags\n@alpha and @beta\n");
    assert_eq!(hits, vec![((3, 1), NFMatch::Tags("@alpha and @beta".to_string()))]);
}

#[test]
fn empty_tag_matches_nothing() {
    let f = filter(&["@"], false, false);
    assert_eq!(f.tags, words(&[""]));
    assert!(f.tags_match("@project\n@\nplain\n").is_empty());
    let g = filter(&["@", "@project"], false, false);
    assert!(g.tags_match("@project\n").is_empty());
}

#[test]
fn no_tag_terms_give_no_tag_matches() {
    let f = filter(&["project"], false, false);
    assert!(f.tags.is_empty());
    assert!(f.tags_match("@project\n").is_empty());
}

#[test]
fn matching_twice_gives_the_same_result() {
    let f = filter(&["alpha", "@project"], false, true);
    let text = "# Alpha\nalpha @project\n";
    let a = f.matches("notes/alpha.md", text);
    let b = f.matches("notes/alpha.md", text);
    assert_eq!(a, b);
    assert_eq!(a.render(), b.render());
    let g = filter(&["alpha", "@project"], false, true);
    assert_eq!(g.matches("notes/alpha.md", text), a);
}

#[test]
fn blank_result_is_not_shown() {
    let plain = filter(&["alpha"], false, false).matches("notes/x.md", "beta\n");
    assert!(plain.no_match());
    assert_eq!(plain.output(), None);
    let positional = filter(&["alpha"], false, true).matches("notes/x.md", "beta\n");
    assert!(positional.no_match());
    assert_eq!(positional.output(), None);
    assert_eq!(positional.render(), "");
}

#[test]
fn end_to_end_plain() {
    let f = filter(&["alpha", "beta"], false, false);
    let r = f.matches("notes/alpha-beta.md", "# Alpha\nsome alpha beta text\n");
    assert_eq!(r.shortstr(), "   c");
    assert_eq!(r.filename(), "notes/alpha-beta.md");
    assert_eq!(r.matches, vec![((2, 6), NFMatch::Contents("some alpha beta text".to_string()))]);
    assert_eq!(r.output(), Some("   c notes/alpha-beta.md".to_string()));
    let g = filter(&["alpha", "beta"], false, true);
    let p = g.matches("notes/alpha-beta.md", "# Alpha\nsome alpha beta text\n");
    assert_eq!(p.shortstr(), "   c");
    assert_eq!(p.output(), Some("notes/alpha-beta.md:2:6:some alpha beta text".to_string()));
}

#[test]
fn end_to_end_header_and_contents() {
    let f = filter(&["alpha", "beta"], false, true);
    let r = f.matches("notes/alpha-beta.md", "# Alpha Beta\nsome alpha beta text\n");
    assert_eq!(r.shortstr(), "  hc");
    assert_eq!(
        r.matches,
        vec![
            ((1, 1), NFMatch::Header("# Alpha Beta".to_string())),
            ((1, 3), NFMatch::Contents("# Alpha Beta".to_string())),
            ((2, 6), NFMatch::Contents("some alpha beta text".to_string())),
        ]
    );
    assert_eq!(r.entries(), &r.matches);
    assert_eq!(
        r.render(),
        "notes/alpha-beta.md:1:1:# Alpha Beta\n\
         notes/alpha-beta.md:1:3:# Alpha Beta\n\
         notes/alpha-beta.md:2:6:some alpha beta text"
    );
    assert_eq!(r.displaytype(), Displayer::Vimgrep);
}

#[test]
fn hyphen_is_no_white_space_in_a_title() {
    let f = filter(&["alpha", "beta"], false, false);
    assert!(f.title_matches("notes/alpha-beta.md").is_empty());
    let hits = f.title_matches("notes/alpha beta.md");
    assert_eq!(hits, vec![((1, 1), NFMatch::Title("alpha beta".to_string()))]);
}

#[test]
fn title_match_shows_in_the_glyphs_only() {
    let f = filter(&["alpha"], false, false);
    let r = f.matches("notes/alpha.md", "nothing here\n");
    assert_eq!(r.shortstr(), "t   ");
    assert!(r.matches.is_empty());
    assert!(!r.no_match());
    assert_eq!(r.output(), Some("t    notes/alpha.md".to_string()));
    let g = filter(&["alpha"], false, true);
    let p = g.matches("notes/alpha.md", "nothing here\n");
    assert_eq!(p.shortstr(), "t   ");
    assert_eq!(p.render(), "");
    assert_eq!(p.output(), None);
}

#[test]
fn tag_terms_alone_match_no_title() {
    let f = filter(&["@alpha"], false, false);
    assert_eq!(f.all_words, words(&["alpha"]));
    assert!(f.title_matches("notes/alpha.md").is_empty());
    assert!(f.contents_match("alpha\n").is_empty());
    assert!(f.header_match("# alpha\n").is_empty());
}

#[test]
fn all_four_criteria() {
    let f = filter(&["plan", "@work"], false, true);
    let text = "# The Plan\n@work on the plan, plan again\nrest\n";
    let r = f.matches("docs/plan.txt", text);
    assert_eq!(r.shortstr(), "t@hc");
    assert_eq!(
        r.matches,
        vec![
            ((2, 1), NFMatch::Tags("@work on the plan, plan again".to_string())),
            ((1, 1), NFMatch::Header("# The Plan".to_string())),
            ((1, 7), NFMatch::Contents("# The Plan".to_string())),
            ((2, 14), NFMatch::Contents("@work on the plan, plan again".to_string())),
            ((2, 20), NFMatch::Contents("@work on the plan, plan again".to_string())),
        ]
    );
    assert_eq!(
        r.output(),
        Some(
            "docs/plan.txt:2:1:@ @work on the plan, plan again\n\
             docs/plan.txt:1:1:# The Plan\n\
             docs/plan.txt:1:7:# The Plan\n\
             docs/plan.txt:2:14:@work on the plan, plan again\n\
             docs/plan.txt:2:20:@work on the plan, plan again"
                .to_string()
        )
    );
}

#[test]
fn meta_characters_are_taken_literally() {
    let f = filter(&["a.b", "(c)"], true, false);
    assert!(f.contents_match("axb (c)\n").is_empty());
    let hits = f.contents_match("x a.b  (c)\n");
    assert_eq!(hits, vec![((1, 3), NFMatch::Contents("x a.b  (c)".to_string()))]);
}

#[test]
fn column_counts_bytes() {
    let f = filter(&["beta"], true, false);
    let hits = f.contents_match("\u{e9}\u{e9} beta\n");
    assert_eq!(hits, vec![((1, 6), NFMatch::Contents("\u{e9}\u{e9} beta".to_string()))]);
}

#[test]
fn matches_on_one_line_do_not_overlap() {
    let f = filter(&["aa"], true, false);
    let hits = f.contents_match("aaaaa\n");
    assert_eq!(
        hits,
        vec![
            ((1, 1), NFMatch::Contents("aaaaa".to_string())),
            ((1, 3), NFMatch::Contents("aaaaa".to_string())),
        ]
    );
}

#[test]
fn line_endings_are_not_part_of_a_line() {
    let f = filter(&["beta"], true, false);
    let hits = f.contents_match("alpha\r\nbeta\r\n\r\nbeta");
    assert_eq!(
        hits,
        vec![
            ((2, 1), NFMatch::Contents("beta".to_string())),
            ((4, 1), NFMatch::Contents("beta".to_string())),
        ]
    );
}

#[test]
fn repeated_words_are_listed_once_and_kept_in_the_phrase() {
    let f = filter(&["go", "go", "@t", "@t"], true, false);
    assert_eq!(f.words, words(&["go"]));
    assert_eq!(f.tags, words(&["t"]));
    assert_eq!(f.all_words, words(&["go", "t"]));
    assert!(f.contents_match("go\n").is_empty());
    assert_eq!(f.contents_match("go go\n"), vec![((1, 1), NFMatch::Contents("go go".to_string()))]);
}

#[test]
fn oversized_pattern_is_refused() {
    let big = "a".repeat(3_000_000);
    let made = NoteFilter::new(&[big, "b".to_string()], true, false);
    let error = made.unwrap_err();
    assert!(!error.message.is_empty());
}

#[test]
fn aggregate_marks_each_criterion_that_has_a_match() {
    let title = vec![((1, 1), NFMatch::of(Criterion::Title, "a".to_string()))];
    let tags = vec![((3, 1), NFMatch::of(Criterion::Tags, "@a".to_string()))];
    let r = FileMatch::aggregate(
        "n.md".to_string(),
        title,
        tags,
        vec![],
        vec![],
        Displayer::Vimgrep,
        TitleListing::Excluded,
    );
    assert_eq!(r.shortstr(), "t@  ");
    assert_eq!(r.matches, vec![((3, 1), NFMatch::Tags("@a".to_string()))]);
    assert_eq!(r.render(), "n.md:3:1:@ @a");
}

#[test]
fn listed_title_match_comes_first() {
    let f = filter(&["alpha"], false, true).with_title_listing(TitleListing::Included);
    let r = f.matches("notes/alpha.md", "# Alpha\nbeta\n");
    assert_eq!(r.shortstr(), "t hc");
    assert_eq!(
        r.matches,
        vec![
            ((1, 1), NFMatch::Title("alpha".to_string())),
            ((1, 1), NFMatch::Header("# Alpha".to_string())),
            ((1, 3), NFMatch::Contents("# Alpha".to_string())),
        ]
    );
    assert_eq!(
        r.output(),
        Some(
            "notes/alpha.md:1:1:Title alpha\n\
             notes/alpha.md:1:1:# Alpha\n\
             notes/alpha.md:1:3:# Alpha"
                .to_string()
        )
    );
    let g = f.with_title_listing(TitleListing::Excluded);
    let q = g.matches("notes/alpha.md", "# Alpha\nbeta\n");
    assert_eq!(
        q.matches,
        vec![
            ((1, 1), NFMatch::Header("# Alpha".to_string())),
            ((1, 3), NFMatch::Contents("# Alpha".to_string())),
        ]
    );
}

#[test]
fn flags_of_a_query() {
    let f = filter(&["alpha"], true, false);
    assert!(f.case_sensitive());
    assert!(!f.as_vimgrep());
    assert_eq!(f.words(), &f.words);
    assert_eq!(f.tags(), &f.tags);
    assert_eq!(f.all_words(), &f.all_words);
    let g = filter(&["alpha"], false, true);
    assert!(!g.case_sensitive());
    assert!(g.as_vimgrep());
}

#[test]
fn entry_line_for_each_criterion() {
    let at = (12, 345);
    assert_eq!(
        FileMatch::entry_line("p", &(at, NFMatch::Title("stem".to_string()))),
        "p:12:345:Title stem"
    );
    assert_eq!(FileMatch::entry_line("p", &(at, NFMatch::Tags("l".to_string()))), "p:12:345:@ l");
    assert_eq!(FileMatch::entry_line("p", &(at, NFMatch::Header("# h".to_string()))), "p:12:345:# h");
    assert_eq!(FileMatch::entry_line("p", &(at, NFMatch::Contents("c".to_string()))), "p:12:345:c");
}

#[test]
fn entries_for_a_whole_line() {
    assert_eq!(
        whole_entry(Criterion::Header, 7, "# h".to_string(), true),
        vec![((7, 1), NFMatch::Header("# h".to_string()))]
    );
    assert!(whole_entry(Criterion::Header, 7, "# h".to_string(), false).is_empty());
    assert_eq!(
        whole_entry(Criterion::Title, 1, "stem".to_string(), true),
        vec![((1, 1), NFMatch::Title("stem".to_string()))]
    );
}

#[test]
fn entries_for_the_occurrences_on_a_line() {
    assert_eq!(
        content_entries(4, "abab", &vec![0, 2]),
        vec![
            ((4, 1), NFMatch::Contents("abab".to_string())),
            ((4, 3), NFMatch::Contents("abab".to_string())),
        ]
    );
    assert!(content_entries(4, "abab", &vec![]).is_empty());
}

#[test]
fn query_of_terms_and_a_compiled_phrase() {
    let terms = TermSet::classify(&words(&["alpha", "@work"]), true);
    let made = NoteFilter::with_phrase(terms, regex::Regex::new("alpha"), true, false);
    let f = made.unwrap();
    assert_eq!(f.words, words(&["alpha"]));
    assert_eq!(f.tags, words(&["work"]));
    assert_eq!(f.all_words, words(&["alpha", "work"]));
    assert!(f.case_sensitive());
    assert_eq!(
        f.contents_match("an alpha\n"),
        vec![((1, 4), NFMatch::Contents("an alpha".to_string()))]
    );
}

#[test]
fn refused_pattern_gives_the_error() {
    let terms = TermSet::classify(&words(&["("]), true);
    let made = NoteFilter::with_phrase(terms, regex::Regex::new("("), true, false);
    let error = made.unwrap_err();
    assert!(!error.message.is_empty());
}

#[test]
fn parenthesis_alone_is_a_valid_query() {
    let f = filter(&["("], true, false);
    assert_eq!(f.contents_match("f(x)\n"), vec![((1, 2), NFMatch::Contents("f(x)".to_string()))]);
}
