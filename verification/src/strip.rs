//! Comment stripping: a scan that drops line and block comments and copies
//! everything else, literals included, unchanged.
//!
//! The scan is driven by the comment markers alone. It knows no grammar: it
//! does not see nested block comments, raw strings, interpolation or
//! heredocs. A block comment that is never closed runs to the end of the
//! text, and so does a literal that is never closed.

use vstd::prelude::*;
use crate::scan::{advance_copy, advance_quote, attempt_span, drop_one, copy_one, is_quote,
    lemma_agreement, marker_begins, marker_matches, match_marker, quote_step, ScanState, Step};
use crate::text::{chars_of, string_of};

verus! {

/// The comment markers of a language, as sequences of characters. An empty
/// marker means that the language has no comment of that kind.
pub struct Markers {
    pub line: Seq<char>,
    pub open: Seq<char>,
    pub close: Seq<char>,
}

/// The comment markers of a language. An empty string means that the
/// language has no comment of that kind.
#[derive(Clone, Debug)]
pub struct DelimiterSet {
    pub line_comment: String,
    pub block_comment_open: String,
    pub block_comment_close: String,
}

impl View for DelimiterSet {
    type V = Markers;

    open spec fn view(&self) -> Markers {
        Markers {
            line: self.line_comment@,
            open: self.block_comment_open@,
            close: self.block_comment_close@,
        }
    }
}

impl DelimiterSet {
    /// The set made of the three given markers.
    pub fn new(line_comment: &str, block_comment_open: &str, block_comment_close: &str) -> (d:
        DelimiterSet)
        ensures
            d@ == (Markers {
                line: line_comment@,
                open: block_comment_open@,
                close: block_comment_close@,
            }),
    {
        DelimiterSet {
            line_comment: line_comment.to_owned(),
            block_comment_open: block_comment_open.to_owned(),
            block_comment_close: block_comment_close.to_owned(),
        }
    }
}

/// The step of the stripping scan on a text that begins inside a line
/// comment: everything is dropped but the newline, which is copied and ends
/// the comment.
pub open spec fn strip_step_line(text: Seq<char>, st: ScanState) -> Step {
    if text[0] == '\n' {
        Step {
            taken: 1,
            emitted: seq!['\n'],
            state: ScanState::code(Some('\n')),
        }
    } else {
        drop_one(st)
    }
}

/// The step of the stripping scan on a text that begins inside a block
/// comment: nothing is copied. Where the text begins with the first
/// character of the closing marker, an attempt to match the marker is made,
/// and all it uses up is dropped; the comment ends if the marker matched.
pub open spec fn strip_step_block(text: Seq<char>, st: ScanState, m: Markers) -> Step {
    if marker_begins(text, m.close) {
        Step {
            taken: attempt_span(text, m.close),
            emitted: Seq::empty(),
            state: if marker_matches(text, m.close) {
                ScanState::code(st.previous_char)
            } else {
                st
            },
        }
    } else {
        drop_one(st)
    }
}

/// The step that enters a comment whose marker stands at the start of the
/// text: the marker is dropped.
pub open spec fn enter_comment(st: ScanState, marker: Seq<char>, block: bool) -> Step {
    Step {
        taken: marker.len(),
        emitted: Seq::empty(),
        state: ScanState { in_line_comment: !block, in_block_comment: block, ..st },
    }
}

/// The step behind a failed attempt to match `marker`: all that the attempt
/// used up is copied, and is not looked at again.
pub open spec fn copy_attempt(text: Seq<char>, st: ScanState, marker: Seq<char>) -> Step {
    let used = text.take(attempt_span(text, marker) as int);
    Step { taken: attempt_span(text, marker), emitted: used, state: st.wrote(used) }
}

/// The step of the stripping scan in ordinary code, on a text that does not
/// begin with a quote. The line marker is looked for first, then the block
/// opener: where one of them stands at the start of the text, the scan
/// enters that comment. Where neither does, but the text begins with the
/// first character of one, the attempt at that marker has failed (the line
/// marker's, where both begin so), and what it used up is copied. Any other
/// character is copied alone.
pub open spec fn strip_step_code(text: Seq<char>, st: ScanState, m: Markers) -> Step {
    if marker_matches(text, m.line) {
        enter_comment(st, m.line, false)
    } else if marker_matches(text, m.open) {
        enter_comment(st, m.open, true)
    } else if marker_begins(text, m.line) {
        copy_attempt(text, st, m.line)
    } else if marker_begins(text, m.open) {
        copy_attempt(text, st, m.open)
    } else {
        copy_one(text, st)
    }
}

/// One step of the stripping scan on a non-empty text.
///
/// Comments come first: inside one, only its end is looked for. Then the
/// quotes, which are copied and may open or close a literal. Inside a
/// literal every other character is copied. In ordinary code the line
/// marker is looked for before the block opener, and a character that
/// begins neither is copied.
///
/// So an empty marker is never matched, nor one that begins with a quote.
pub open spec fn strip_step(text: Seq<char>, st: ScanState, m: Markers) -> Step
    recommends
        text.len() > 0,
{
    if st.in_line_comment {
        strip_step_line(text, st)
    } else if st.in_block_comment {
        strip_step_block(text, st, m)
    } else if is_quote(text[0]) {
        quote_step(text, st)
    } else if st.in_literal() {
        copy_one(text, st)
    } else {
        strip_step_code(text, st, m)
    }
}

/// What the stripping scan writes for `text` when it starts in state `st`.
pub open spec fn strip_run(text: Seq<char>, st: ScanState, m: Markers) -> Seq<char>
    decreases text.len(),
    via strip_run_decreases
{
    if text.len() == 0 {
        Seq::empty()
    } else {
        let s = strip_step(text, st, m);
        s.emitted + strip_run(text.skip(s.taken as int), s.state, m)
    }
}

#[via_fn]
proof fn strip_run_decreases(text: Seq<char>, st: ScanState, m: Markers) {
    if text.len() > 0 {
        lemma_strip_step(text, st, m);
    }
}

/// `text` with its comments removed.
pub open spec fn stripped(text: Seq<char>, m: Markers) -> Seq<char> {
    strip_run(text, ScanState::initial(), m)
}

/// Every step takes at least one character and no more than there are,
/// keeps at most one flag set, and leaves as previous character the last
/// one it wrote.
pub proof fn lemma_strip_step(text: Seq<char>, st: ScanState, m: Markers)
    requires
        text.len() > 0,
    ensures
        1 <= strip_step(text, st, m).taken <= text.len(),
        st.well_formed() ==> strip_step(text, st, m).state.well_formed(),
        strip_step(text, st, m).state.previous_char == st.wrote(
            strip_step(text, st, m).emitted,
        ).previous_char,
{
    lemma_agreement(text, m.line);
    lemma_agreement(text, m.open);
    lemma_agreement(text, m.close);
}

/// The comment markers of a language, held as characters for scanning.
pub struct MarkerChars {
    pub line: Vec<char>,
    pub open: Vec<char>,
    pub close: Vec<char>,
}

impl View for MarkerChars {
    type V = Markers;

    open spec fn view(&self) -> Markers {
        Markers { line: self.line@, open: self.open@, close: self.close@ }
    }
}

impl DelimiterSet {
    /// The same markers, as characters.
    pub fn to_chars(&self) -> (m: MarkerChars)
        ensures
            m@ == self@,
    {
        MarkerChars {
            line: chars_of(self.line_comment.as_str()),
            open: chars_of(self.block_comment_open.as_str()),
            close: chars_of(self.block_comment_close.as_str()),
        }
    }
}

/// Appends the characters of `content` from `from` up to `to` to `out`.
pub fn copy_range(content: &Vec<char>, from: usize, to: usize, out: &mut Vec<char>)
    requires
        from <= to <= content.len(),
    ensures
        final(out)@ == old(out)@ + content@.subrange(from as int, to as int),
{
    let mut i: usize = from;
    while i < to
        invariant
            from <= i <= to,
            to <= content.len(),
            out@ == old(out)@ + content@.subrange(from as int, i as int),
        decreases to - i,
    {
        out.push(content[i]);
        i += 1;
        assert(content@.subrange(from as int, i as int) =~= content@.subrange(
            from as int,
            i - 1,
        ).push(content@[i - 1]));
        assert(out@ =~= old(out)@ + content@.subrange(from as int, i as int));
    }
    assert(out@ =~= old(out)@ + content@.subrange(from as int, to as int));
}

/// Makes one step of the stripping scan at `pos`: appends to `out` what the
/// step copies, and returns how many characters it took and the state it
/// left.
pub fn strip_advance(
    content: &Vec<char>,
    pos: usize,
    st: ScanState,
    m: &MarkerChars,
    out: &mut Vec<char>,
) -> (r: (usize, ScanState))
    requires
        pos < content.len(),
    ensures
        r.0 == strip_step(content@.skip(pos as int), st, m@).taken,
        r.1 == strip_step(content@.skip(pos as int), st, m@).state,
        final(out)@ == old(out)@ + strip_step(content@.skip(pos as int), st, m@).emitted,
        1 <= r.0 <= content.len() - pos,
        st.well_formed() ==> r.1.well_formed(),
{
    let ghost text = content@.skip(pos as int);
    let c = content[pos];
    proof {
        assert(text[0] == c);
        lemma_strip_step(text, st, m@);
    }
    if st.in_line_comment {
        if c == '\n' {
            out.push(c);
            assert(out@ =~= old(out)@ + seq!['\n']);
            (
                1,
                ScanState {
                    in_string: false,
                    in_char_literal: false,
                    in_line_comment: false,
                    in_block_comment: false,
                    previous_char: Some(c),
                },
            )
        } else {
            assert(out@ =~= old(out)@ + Seq::<char>::empty());
            (1, st)
        }
    } else if st.in_block_comment {
        assert(out@ =~= old(out)@ + Seq::<char>::empty());
        if m.close.len() > 0 && c == m.close[0] {
            let (matched, used) = match_marker(content, pos, &m.close);
            if matched {
                (
                    used,
                    ScanState {
                        in_string: false,
                        in_char_literal: false,
                        in_line_comment: false,
                        in_block_comment: false,
                        previous_char: st.previous_char,
                    },
                )
            } else {
                (used, st)
            }
        } else {
            (1, st)
        }
    } else if c == '"' || c == '\'' {
        advance_quote(c, st, out)
    } else if st.in_string || st.in_char_literal {
        advance_copy(c, st, out)
    } else {
        strip_code(content, pos, st, m, out)
    }
}

/// The state in which the scan enters a comment.
fn entered(st: ScanState, block: bool) -> (next: ScanState)
    ensures
        next == (ScanState { in_line_comment: !block, in_block_comment: block, ..st }),
{
    ScanState {
        in_string: st.in_string,
        in_char_literal: st.in_char_literal,
        in_line_comment: !block,
        in_block_comment: block,
        previous_char: st.previous_char,
    }
}

/// Copies the `used` characters at `pos` that a failed attempt used up.
fn copy_used(content: &Vec<char>, pos: usize, used: usize, st: ScanState, out: &mut Vec<char>) -> (r:
    (usize, ScanState))
    requires
        1 <= used,
        pos + used <= content.len(),
    ensures
        r.0 == used,
        r.1 == st.wrote(content@.skip(pos as int).take(used as int)),
        final(out)@ == old(out)@ + content@.skip(pos as int).take(used as int),
{
    copy_range(content, pos, pos + used, out);
    assert(content@.skip(pos as int).take(used as int) =~= content@.subrange(
        pos as int,
        pos + used,
    ));
    (
        used,
        ScanState {
            in_string: st.in_string,
            in_char_literal: st.in_char_literal,
            in_line_comment: st.in_line_comment,
            in_block_comment: st.in_block_comment,
            previous_char: Some(content[pos + used - 1]),
        },
    )
}

/// Makes the step of the stripping scan at `pos` in ordinary code, on a
/// character that is no quote: enters the comment whose marker stands
/// there, or copies what a failed attempt used up, or the one character.
fn strip_code(
    content: &Vec<char>,
    pos: usize,
    st: ScanState,
    m: &MarkerChars,
    out: &mut Vec<char>,
) -> (r: (usize, ScanState))
    requires
        pos < content.len(),
    ensures
        r.0 == strip_step_code(content@.skip(pos as int), st, m@).taken,
        r.1 == strip_step_code(content@.skip(pos as int), st, m@).state,
        final(out)@ == old(out)@ + strip_step_code(content@.skip(pos as int), st, m@).emitted,
{
    let ghost text = content@.skip(pos as int);
    let c = content[pos];
    proof {
        assert(text[0] == c);
        lemma_agreement(text, m.line@);
        lemma_agreement(text, m.open@);
    }
    let line_begins = m.line.len() > 0 && c == m.line[0];
    let open_begins = m.open.len() > 0 && c == m.open[0];
    let (line_found, line_used) = if line_begins {
        match_marker(content, pos, &m.line)
    } else {
        (false, 0)
    };
    if line_found {
        assert(out@ =~= old(out)@ + Seq::<char>::empty());
        return (line_used, entered(st, false));
    }
    let (open_found, open_used) = if open_begins {
        match_marker(content, pos, &m.open)
    } else {
        (false, 0)
    };
    if open_found {
        assert(out@ =~= old(out)@ + Seq::<char>::empty());
        (open_used, entered(st, true))
    } else if line_begins {
        copy_used(content, pos, line_used, st, out)
    } else if open_begins {
        copy_used(content, pos, open_used, st, out)
    } else {
        advance_copy(c, st, out)
    }
}

/// Removes the comments from `content`, given as characters.
pub fn strip_chars(content: &Vec<char>, m: &MarkerChars) -> (out: Vec<char>)
    ensures
        out@ == stripped(content@, m@),
{
    let mut out: Vec<char> = Vec::new();
    let mut st = ScanState::new();
    let mut pos: usize = 0;
    assert(content@.skip(0) =~= content@);
    while pos < content.len()
        invariant
            pos <= content.len(),
            st.well_formed(),
            out@ + strip_run(content@.skip(pos as int), st, m@) == stripped(content@, m@),
        decreases content.len() - pos,
    {
        let ghost before = out@;
        let ghost text = content@.skip(pos as int);
        let (taken, next) = strip_advance(content, pos, st, m, &mut out);
        proof {
            let s = strip_step(text, st, m@);
            assert(text.skip(taken as int) =~= content@.skip(pos + taken));
            assert(strip_run(text, st, m@) == s.emitted + strip_run(
                text.skip(s.taken as int),
                s.state,
                m@,
            ));
            assert(out@ + strip_run(content@.skip(pos + taken), next, m@) =~= before + strip_run(
                text,
                st,
                m@,
            ));
        }
        pos += taken;
        st = next;
    }
    assert(out@ + Seq::<char>::empty() =~= out@);
    out
}

/// Removes the comments from `content`.
///
/// Line comments are dropped up to their newline, which stays; block
/// comments are dropped whole, and one that is never closed takes the rest
/// of the text with it. Literals are copied as they stand.
pub fn strip(content: &str, delims: &DelimiterSet) -> (out: String)
    ensures
        out@ == stripped(content@, delims@),
{
    let chars = chars_of(content);
    let m = delims.to_chars();
    let kept = strip_chars(&chars, &m);
    string_of(&kept)
}

/// Removes the comments from `content`, for a language whose line comments
/// begin with `line_comment` and whose block comments stand between
/// `block_comment_start` and `block_comment_end`. An empty marker means
/// that the language has no such comment.
pub fn remove_documentation(
    content: &str,
    line_comment: &str,
    block_comment_start: &str,
    block_comment_end: &str,
) -> (out: String)
    ensures
        out@ == stripped(
            content@,
            Markers { line: line_comment@, open: block_comment_start@, close: block_comment_end@ },
        ),
{
    let chars = chars_of(content);
    let m = MarkerChars {
        line: chars_of(line_comment),
        open: chars_of(block_comment_start),
        close: chars_of(block_comment_end),
    };
    let kept = strip_chars(&chars, &m);
    string_of(&kept)
}

} // verus!
