//! Condensing one file by the two scans: its comments stripped where that
//! is asked for, and its whitespace collapsed.

use vstd::prelude::*;
use crate::collapse::{collapse, collapsed};
use crate::language::Language;
use crate::strip::{strip, stripped, DelimiterSet, Markers};

verus! {

/// `text` condensed by the two scans: stripped of its comments first if
/// `strip_docs` is set, then collapsed.
pub open spec fn condensed(text: Seq<char>, m: Markers, strip_docs: bool) -> Seq<char> {
    collapsed(
        if strip_docs {
            stripped(text, m)
        } else {
            text
        },
    )
}

/// Condenses `content` by the two scans: strips its comments first if
/// `strip_docs` is set, then collapses its whitespace.
pub fn condense(content: &str, delims: &DelimiterSet, strip_docs: bool) -> (out: String)
    ensures
        out@ == condensed(content@, delims@, strip_docs),
{
    if strip_docs {
        let bare = strip(content, delims);
        collapse(bare.as_str())
    } else {
        collapse(content)
    }
}

/// Condenses `content` as a file of `language`, by the two scans and with
/// the comment markers of the language. Returns `None` for a language that
/// has a minifier of its own, which is then the caller's to run.
pub fn condense_as(language: Language, content: &str, strip_docs: bool) -> (r: Option<String>)
    ensures
        match language.marker_texts() {
            Some(m) => r is Some && r->0@ == condensed(content@, m, strip_docs),
            None => r is None,
        },
{
    match language.delimiters() {
        Some(delims) => Some(condense(content, &delims, strip_docs)),
        None => None,
    }
}

} // verus!
