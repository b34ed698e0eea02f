//! A summary of which criteria matched for one note.

use vstd::prelude::*;
use vstd::string::*;
use crate::text::{join, joined};

verus! {

/// Which of the four criteria matched.
#[derive(Clone, Copy, Debug, PartialEq, Eq)]
pub struct NFMatch {
    pub title: bool,
    pub tags: bool,
    pub contents: bool,
    pub header: bool,
}

impl NFMatch {
    /// The names of the criteria that matched, in the order title, tags, contents, header.
    pub open spec fn names(&self) -> Seq<Seq<char>> {
        (if self.title { seq!["Title"@] } else { seq![] })
            + (if self.tags { seq!["Tags"@] } else { seq![] })
            + (if self.contents { seq!["Contents"@] } else { seq![] })
            + (if self.header { seq!["Header"@] } else { seq![] })
    }

    /// A list in words: the names separated by `", "`, and, where there are more than
    /// two of them, `"and "` before the last.
    pub open spec fn oxford(names: Seq<Seq<char>>) -> Seq<char> {
        if names.len() > 2 {
            joined(names.update(names.len() - 1, "and "@ + names.last()), ", "@)
        } else {
            joined(names, ", "@)
        }
    }

    /// One character per criterion, in the order title, tags, header, contents: `T`,
    /// `t`, `h`, `c` where the criterion matched, a space where it did not.
    pub open spec fn glyphs(&self) -> Seq<char> {
        seq![
            if self.title { 'T' } else { ' ' },
            if self.tags { 't' } else { ' ' },
            if self.header { 'h' } else { ' ' },
            if self.contents { 'c' } else { ' ' },
        ]
    }

    /// True where no criterion matched.
    pub fn no_match(&self) -> (none: bool)
        ensures
            none == !(self.title || self.tags || self.contents || self.header),
    {
        !(self.title || self.tags || self.contents || self.header)
    }

    /// The criteria that matched, as a list in words.
    pub fn oxford_commaize(&self) -> (out: String)
        ensures
            out@ == Self::oxford(self.names()),
    {
        let mut parts: Vec<String> = Vec::new();
        if self.title {
            parts.push("Title".to_owned());
        }
        if self.tags {
            parts.push("Tags".to_owned());
        }
        if self.contents {
            parts.push("Contents".to_owned());
        }
        if self.header {
            parts.push("Header".to_owned());
        }
        assert(parts.deep_view() =~= self.names());
        let n = parts.len();
        if n > 2 {
            let mut last = "and ".to_owned();
            last.append(parts[n - 1].as_str());
            parts.set(n - 1, last);
            assert(parts.deep_view() =~= self.names().update(
                n - 1,
                "and "@ + self.names().last(),
            ));
        }
        join(&parts, ", ")
    }

    /// The four glyphs as a string.
    pub fn render(&self) -> (out: String)
        ensures
            out@ == self.glyphs(),
    {
        let mut out = String::new();
        out.push(if self.title { 'T' } else { ' ' });
        out.push(if self.tags { 't' } else { ' ' });
        out.push(if self.header { 'h' } else { ' ' });
        out.push(if self.contents { 'c' } else { ' ' });
        assert(out@ =~= self.glyphs());
        out
    }
}

} // verus!
