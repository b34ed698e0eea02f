//! A multi-criterion matcher for plain-text notes.
//!
//! A query is a list of words. A word that begins with `@` asks for a tag; every other
//! word is part of a phrase that is looked for in a note's title, in its header lines
//! and in its body. For each note the matcher says which of the four criteria (title,
//! tags, header, contents) matched, and where.

pub mod laws;
pub mod nfmatch;
pub mod notefilter;
pub mod phrase;
pub mod tagquery;
pub mod terms;
pub mod text;
