//! Whitespace collapsing: a scan that drops the whitespace outside string
//! and character literals and keeps what stands inside them.
//!
//! Dropping is lossy where a language needs whitespace to tell two tokens
//! apart or to mark structure by indentation: nothing is put in its place.
//! A newline inside a literal is written as the escape `\n`, on the
//! assumption that the language accepts that escape there.

use vstd::prelude::*;
use crate::scan::{advance_copy, advance_quote, copy_one, drop_one, is_quote, quote_step,
    ScanState, Step};
use crate::text::{chars_of, string_of};

verus! {

/// `c` is one of the four whitespace characters that the scan acts on:
/// newline, carriage return, tab and space.
pub open spec fn is_blank(c: char) -> bool {
    c == '\n' || c == '\r' || c == '\t' || c == ' '
}

/// `c` is a line break: a newline or a carriage return.
pub open spec fn is_break(c: char) -> bool {
    c == '\n' || c == '\r'
}

/// `c` forms an escape pair with a backslash before it, inside a literal.
pub open spec fn is_escapable(c: char) -> bool {
    c == 'n' || c == 'r' || c == 't' || c == '\\' || c == '"' || c == '\''
}

/// The text begins with a backslash and a character that pairs with it.
pub open spec fn begins_escape_pair(text: Seq<char>) -> bool {
    text.len() >= 2 && text[0] == '\\' && is_escapable(text[1])
}

/// The two characters written in place of a line break inside a literal.
pub open spec fn newline_escape() -> Seq<char> {
    seq!['\\', 'n']
}

/// One step of the collapsing scan on a non-empty text.
///
/// A quote is copied and may open or close a literal. Outside literals the
/// four whitespace characters are dropped. Inside a literal a space or a tab
/// is copied, a line break is written as the escape `\n`, and a backslash
/// is copied together with the character after it where the two form an
/// escape pair. Every other character is copied.
pub open spec fn collapse_step(text: Seq<char>, st: ScanState) -> Step
    recommends
        text.len() > 0,
{
    if is_quote(text[0]) {
        quote_step(text, st)
    } else if is_blank(text[0]) && !st.in_literal() {
        drop_one(st)
    } else if is_break(text[0]) {
        Step { taken: 1, emitted: newline_escape(), state: st.wrote(newline_escape()) }
    } else if st.in_literal() && begins_escape_pair(text) {
        Step { taken: 2, emitted: text.take(2), state: st.wrote(text.take(2)) }
    } else {
        copy_one(text, st)
    }
}

/// What the collapsing scan writes for `text` when it starts in state `st`.
pub open spec fn collapse_run(text: Seq<char>, st: ScanState) -> Seq<char>
    decreases text.len(),
{
    if text.len() == 0 {
        Seq::empty()
    } else {
        let s = collapse_step(text, st);
        s.emitted + collapse_run(text.skip(s.taken as int), s.state)
    }
}

/// `text` with the whitespace outside its literals removed.
pub open spec fn collapsed(text: Seq<char>) -> Seq<char> {
    collapse_run(text, ScanState::initial())
}

/// Every step takes one or two characters and no more than there are,
/// stays outside comments, and leaves as previous character the last one it
/// wrote.
pub proof fn lemma_collapse_step(text: Seq<char>, st: ScanState)
    requires
        text.len() > 0,
    ensures
        1 <= collapse_step(text, st).taken <= text.len(),
        collapse_step(text, st).taken <= 2,
        st.outside_comments() ==> collapse_step(text, st).state.outside_comments(),
        collapse_step(text, st).state.previous_char == st.wrote(
            collapse_step(text, st).emitted,
        ).previous_char,
{
}

/// Whether `c` forms an escape pair with a backslash before it.
pub fn escapable(c: char) -> (b: bool)
    ensures
        b == is_escapable(c),
{
    c == 'n' || c == 'r' || c == 't' || c == '\\' || c == '"' || c == '\''
}

/// Makes one step of the collapsing scan at `pos`: appends to `out` what the
/// step writes, and returns how many characters it took and the state it
/// left.
pub fn collapse_advance(content: &Vec<char>, pos: usize, st: ScanState, out: &mut Vec<char>) -> (r:
    (usize, ScanState))
    requires
        pos < content.len(),
    ensures
        r.0 == collapse_step(content@.skip(pos as int), st).taken,
        r.1 == collapse_step(content@.skip(pos as int), st).state,
        final(out)@ == old(out)@ + collapse_step(content@.skip(pos as int), st).emitted,
        1 <= r.0 <= content.len() - pos,
        st.outside_comments() ==> r.1.outside_comments(),
{
    let ghost text = content@.skip(pos as int);
    let c = content[pos];
    let inside = st.in_string || st.in_char_literal;
    proof {
        assert(text[0] == c);
        lemma_collapse_step(text, st);
    }
    if c == '"' || c == '\'' {
        advance_quote(c, st, out)
    } else if c == '\n' || c == '\r' || c == '\t' || c == ' ' {
        if !inside {
            assert(out@ =~= old(out)@ + Seq::<char>::empty());
            (1, st)
        } else if c == '\n' || c == '\r' {
            out.push('\\');
            out.push('n');
            assert(out@ =~= old(out)@ + newline_escape());
            (
                1,
                ScanState {
                    in_string: st.in_string,
                    in_char_literal: st.in_char_literal,
                    in_line_comment: st.in_line_comment,
                    in_block_comment: st.in_block_comment,
                    previous_char: Some('n'),
                },
            )
        } else {
            advance_copy(c, st, out)
        }
    } else if c == '\\' && inside && pos + 1 < content.len() && escapable(content[pos + 1]) {
        let d = content[pos + 1];
        out.push(c);
        out.push(d);
        proof {
            assert(text[1] == d);
            assert(text.take(2) =~= seq![c, d]);
            assert(out@ =~= old(out)@ + text.take(2));
        }
        (
            2,
            ScanState {
                in_string: st.in_string,
                in_char_literal: st.in_char_literal,
                in_line_comment: st.in_line_comment,
                in_block_comment: st.in_block_comment,
                previous_char: Some(d),
            },
        )
    } else {
        proof {
            if pos + 1 < content.len() {
                assert(text[1] == content@[pos + 1]);
            }
        }
        advance_copy(c, st, out)
    }
}

/// Removes the whitespace outside literals from `content`, given as
/// characters.
pub fn collapse_chars(content: &Vec<char>) -> (out: Vec<char>)
    ensures
        out@ == collapsed(content@),
{
    let mut out: Vec<char> = Vec::new();
    let mut st = ScanState::new();
    let mut pos: usize = 0;
    assert(content@.skip(0) =~= content@);
    while pos < content.len()
        invariant
            pos <= content.len(),
            st.outside_comments(),
            out@ + collapse_run(content@.skip(pos as int), st) == collapsed(content@),
        decreases content.len() - pos,
    {
        let ghost before = out@;
        let ghost text = content@.skip(pos as int);
        let (taken, next) = collapse_advance(content, pos, st, &mut out);
        proof {
            let s = collapse_step(text, st);
            assert(text.skip(taken as int) =~= content@.skip(pos + taken));
            assert(collapse_run(text, st) == s.emitted + collapse_run(
                text.skip(s.taken as int),
                s.state,
            ));
            assert(out@ + collapse_run(content@.skip(pos + taken), next) =~= before
                + collapse_run(text, st));
        }
        pos += taken;
        st = next;
    }
    assert(out@ + Seq::<char>::empty() =~= out@);
    out
}

/// Removes the whitespace outside literals from `content`.
///
/// Outside string and character literals every newline, carriage return,
/// tab and space is dropped. Inside a literal spaces and tabs stay, a line
/// break becomes the escape `\n`, and an escape pair is kept whole.
pub fn collapse(content: &str) -> (out: String)
    ensures
        out@ == collapsed(content@),
{
    let chars = chars_of(content);
    let kept = collapse_chars(&chars);
    string_of(&kept)
}

/// Removes the whitespace outside string and character literals from
/// `content`; see [`collapse`].
pub fn remove_whitespace(content: &str) -> (out: String)
    ensures
        out@ == collapsed(content@),
{
    collapse(content)
}

} // verus!
