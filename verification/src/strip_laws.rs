//! What holds of the stripping scan on every text.

use vstd::prelude::*;
use crate::scan::{is_quote, lemma_agreement, marker_matches, Progress, ScanState};
use crate::strip::{lemma_strip_step, strip_run, strip_step, stripped, Markers};

verus! {

/// Where the first step on `head + tail` takes exactly `head`, the scan
/// writes what that step writes and goes on with `tail`.
proof fn lemma_strip_first_step(head: Seq<char>, tail: Seq<char>, st: ScanState, m: Markers)
    requires
        head.len() > 0,
        strip_step(head + tail, st, m).taken == head.len(),
    ensures
        strip_run(head + tail, st, m) == strip_step(head + tail, st, m).emitted + strip_run(
            tail,
            strip_step(head + tail, st, m).state,
            m,
        ),
{
    assert((head + tail).skip(head.len() as int) =~= tail);
}

/// Where the scan that starts on `text` in state `st` stands when it comes
/// to index `n`: what it has written for the characters before `n`, and its
/// state there. `None` where no step begins at `n`, because a step that
/// began earlier takes the character at `n` with it, or the text is shorter.
pub open spec fn strip_reach(text: Seq<char>, st: ScanState, m: Markers, n: nat) -> Option<
    Progress,
>
    decreases text.len(),
    via strip_reach_decreases
{
    if n == 0 {
        Some(Progress { written: Seq::empty(), state: st })
    } else if text.len() == 0 || strip_step(text, st, m).taken > n {
        None
    } else {
        let s = strip_step(text, st, m);
        match strip_reach(text.skip(s.taken as int), s.state, m, (n - s.taken) as nat) {
            Some(p) => Some(Progress { written: s.emitted + p.written, state: p.state }),
            None => None,
        }
    }
}

#[via_fn]
proof fn strip_reach_decreases(text: Seq<char>, st: ScanState, m: Markers, n: nat) {
    if text.len() > 0 {
        lemma_strip_step(text, st, m);
    }
}

/// Where the scan comes to stand at index `n`, the whole output is what it
/// has written up to there, followed by what it writes for the rest of the
/// text from the state it is in.
pub proof fn lemma_strip_resumes(text: Seq<char>, st: ScanState, m: Markers, n: nat)
    requires
        strip_reach(text, st, m, n) is Some,
    ensures
        n <= text.len(),
        strip_run(text, st, m) == strip_reach(text, st, m, n)->0.written + strip_run(
            text.skip(n as int),
            strip_reach(text, st, m, n)->0.state,
            m,
        ),
        st.well_formed() ==> strip_reach(text, st, m, n)->0.state.well_formed(),
        strip_reach(text, st, m, n)->0.state.previous_char == st.wrote(
            strip_reach(text, st, m, n)->0.written,
        ).previous_char,
    decreases text.len(),
{
    if n == 0 {
        assert(text.skip(0) =~= text);
        assert(Seq::<char>::empty() + strip_run(text, st, m) =~= strip_run(text, st, m));
    } else {
        let s = strip_step(text, st, m);
        lemma_strip_step(text, st, m);
        let rest = text.skip(s.taken as int);
        let k = (n - s.taken) as nat;
        lemma_strip_resumes(rest, s.state, m, k);
        let p = strip_reach(rest, s.state, m, k)->0;
        assert(rest.skip(k as int) =~= text.skip(n as int));
        assert(s.emitted + (p.written + strip_run(text.skip(n as int), p.state, m)) =~= (s.emitted
            + p.written) + strip_run(text.skip(n as int), p.state, m));
    }
}

/// Where a language has no comments, stripping changes nothing.
pub proof fn lemma_no_markers_run(text: Seq<char>, st: ScanState, m: Markers)
    requires
        m.line.len() == 0,
        m.open.len() == 0,
        !st.in_line_comment,
        !st.in_block_comment,
    ensures
        strip_run(text, st, m) == text,
    decreases text.len(),
{
    if text.len() > 0 {
        let s = strip_step(text, st, m);
        assert(s.taken == 1 && s.emitted =~= seq![text[0]]);
        lemma_no_markers_run(text.skip(1), s.state, m);
        assert(seq![text[0]] + text.skip(1) =~= text);
    }
}

/// Where a language has neither line nor block comments, stripping gives
/// the text back unchanged.
pub proof fn lemma_no_markers_no_change(text: Seq<char>, m: Markers)
    requires
        m.line.len() == 0,
        m.open.len() == 0,
    ensures
        stripped(text, m) == text,
{
    lemma_no_markers_run(text, ScanState::initial(), m);
}

/// The state inside the literal that `quote` delimits, after `previous`
/// reached the output.
pub open spec fn inside_literal(quote: char, previous: Option<char>) -> ScanState {
    ScanState {
        in_string: quote == '"',
        in_char_literal: quote == '\'',
        in_line_comment: false,
        in_block_comment: false,
        previous_char: previous,
    }
}

/// `quote` stands in `body` at index `j`.
pub open spec fn quote_at(body: Seq<char>, quote: char, j: int) -> bool {
    0 <= j < body.len() && body[j] == quote
}

/// `body` can stand between two quotes `quote` as the inside of one
/// literal, when the character before it is a backslash or not as `escaped`
/// says: every quote in it follows a backslash, and the quote that comes
/// after it does not.
pub open spec fn literal_body_after(body: Seq<char>, quote: char, escaped: bool) -> bool {
    &&& forall|j: int| #[trigger]
        quote_at(body, quote, j) ==> if j == 0 {
            escaped
        } else {
            body[j - 1] == '\\'
        }
    &&& if body.len() == 0 {
        !escaped
    } else {
        body.last() != '\\'
    }
}

/// `body` can stand between two quotes `quote` as the inside of one
/// literal: every quote in it follows a backslash, and it does not end in a
/// backslash.
pub open spec fn literal_body(body: Seq<char>, quote: char) -> bool {
    literal_body_after(body, quote, false)
}

/// Inside a literal everything up to the closing quote is copied, whatever
/// comment markers it holds, and the closing quote brings the scan back to
/// ordinary code.
pub proof fn lemma_literal_rest_kept(
    quote: char,
    body: Seq<char>,
    rest: Seq<char>,
    previous: Option<char>,
    m: Markers,
)
    requires
        is_quote(quote),
        literal_body_after(body, quote, previous == Some('\\')),
    ensures
        strip_run(body + seq![quote] + rest, inside_literal(quote, previous), m) == body
            + seq![quote] + strip_run(rest, ScanState::code(Some(quote)), m),
    decreases body.len(),
{
    let st = inside_literal(quote, previous);
    if body.len() == 0 {
        assert(body + seq![quote] + rest =~= seq![quote] + rest);
        lemma_strip_first_step(seq![quote], rest, st, m);
        assert(strip_step(seq![quote] + rest, st, m).state == ScanState::code(Some(quote)));
        assert(body + seq![quote] + strip_run(rest, ScanState::code(Some(quote)), m) =~= seq![
            quote,
        ] + strip_run(rest, ScanState::code(Some(quote)), m));
    } else {
        let c = body[0];
        assert(quote_at(body, quote, 0) ==> previous == Some('\\'));
        let tail = body.skip(1) + seq![quote] + rest;
        assert(body + seq![quote] + rest =~= seq![c] + tail);
        assert((seq![c] + tail)[0] == c);
        lemma_strip_first_step(seq![c], tail, st, m);
        assert(strip_step(seq![c] + tail, st, m).state == inside_literal(quote, Some(c)));
        assert(strip_step(seq![c] + tail, st, m).emitted =~= seq![c]);
        assert(literal_body_after(body.skip(1), quote, c == '\\')) by {
            assert forall|j: int| #[trigger] quote_at(body.skip(1), quote, j) implies (if j == 0 {
                c == '\\'
            } else {
                body.skip(1)[j - 1] == '\\'
            }) by {
                assert(quote_at(body, quote, j + 1));
            }
            if body.skip(1).len() > 0 {
                assert(body.skip(1).last() == body.last());
            }
        }
        lemma_literal_rest_kept(quote, body.skip(1), rest, Some(c), m);
        assert(seq![c] + (body.skip(1) + seq![quote] + strip_run(
            rest,
            ScanState::code(Some(quote)),
            m,
        )) =~= body + seq![quote] + strip_run(rest, ScanState::code(Some(quote)), m));
    }
}

/// A literal met in ordinary code is copied whole: its two quotes and all
/// that stands between them, whatever comment markers that holds. Behind
/// its closing quote the scan is in ordinary code again.
pub proof fn lemma_literal_kept(
    quote: char,
    body: Seq<char>,
    rest: Seq<char>,
    st: ScanState,
    m: Markers,
)
    requires
        is_quote(quote),
        st.in_code(),
        !st.escaped(),
        literal_body(body, quote),
    ensures
        strip_run(seq![quote] + body + seq![quote] + rest, st, m) == seq![quote] + body + seq![
            quote,
        ] + strip_run(rest, ScanState::code(Some(quote)), m),
{
    let tail = body + seq![quote] + rest;
    assert(seq![quote] + body + seq![quote] + rest =~= seq![quote] + tail);
    assert((seq![quote] + tail)[0] == quote);
    lemma_strip_first_step(seq![quote], tail, st, m);
    assert(strip_step(seq![quote] + tail, st, m).state == inside_literal(quote, Some(quote)));
    lemma_literal_rest_kept(quote, body, rest, Some(quote), m);
    assert(seq![quote] + (body + seq![quote] + strip_run(rest, ScanState::code(Some(quote)), m))
        =~= seq![quote] + body + seq![quote] + strip_run(rest, ScanState::code(Some(quote)), m));
}

/// Wherever the scan meets a string literal in ordinary code, the literal
/// survives stripping unchanged, whatever comment markers it holds: the
/// output is what was written before it, the literal itself, and what the
/// scan writes for the rest of the text from ordinary code.
pub proof fn lemma_string_literal_survives(
    text: Seq<char>,
    m: Markers,
    n: nat,
    body: Seq<char>,
    rest: Seq<char>,
)
    requires
        strip_reach(text, ScanState::initial(), m, n) is Some,
        strip_reach(text, ScanState::initial(), m, n)->0.state.in_code(),
        !strip_reach(text, ScanState::initial(), m, n)->0.state.escaped(),
        n <= text.len(),
        text.skip(n as int) == seq!['"'] + body + seq!['"'] + rest,
        literal_body(body, '"'),
    ensures
        stripped(text, m) == strip_reach(text, ScanState::initial(), m, n)->0.written + (seq!['"']
            + body + seq!['"']) + strip_run(rest, ScanState::code(Some('"')), m),
{
    let p = strip_reach(text, ScanState::initial(), m, n)->0;
    lemma_strip_resumes(text, ScanState::initial(), m, n);
    lemma_literal_kept('"', body, rest, p.state, m);
    let after = strip_run(rest, ScanState::code(Some('"')), m);
    assert(p.written + (seq!['"'] + body + seq!['"'] + after) =~= p.written + (seq!['"'] + body
        + seq!['"']) + after);
}

/// `c` is a character of ordinary code that the scan copies whatever
/// follows it: no quote, and not the first character of the line marker or
/// of the block opener.
pub open spec fn plain_char(c: char, m: Markers) -> bool {
    &&& !is_quote(c)
    &&& m.line.len() > 0 ==> c != m.line[0]
    &&& m.open.len() > 0 ==> c != m.open[0]
}

/// Every character of `text` is plain.
pub open spec fn plain_code(text: Seq<char>, m: Markers) -> bool {
    forall|j: int| 0 <= j < text.len() ==> plain_char(#[trigger] text[j], m)
}

/// `marker` stands nowhere in `text`.
pub open spec fn absent(text: Seq<char>, marker: Seq<char>) -> bool {
    forall|i: int| 0 <= i <= text.len() ==> !marker_matches(#[trigger] text.skip(i), marker)
}

/// In ordinary code a run of plain characters is copied as it stands, and
/// the scan goes on behind it in ordinary code.
pub proof fn lemma_plain_code_kept(plain: Seq<char>, rest: Seq<char>, st: ScanState, m: Markers)
    requires
        st.in_code(),
        plain_code(plain, m),
    ensures
        strip_run(plain + rest, st, m) == plain + strip_run(rest, st.wrote(plain), m),
    decreases plain.len(),
{
    if plain.len() == 0 {
        assert(plain + rest =~= rest);
        assert(st.wrote(plain) == st);
        assert(plain + strip_run(rest, st, m) =~= strip_run(rest, st, m));
    } else {
        let c = plain[0];
        let tail = plain.skip(1) + rest;
        let text = seq![c] + tail;
        assert(plain + rest =~= text);
        assert(text[0] == c);
        assert(plain_char(c, m));
        lemma_agreement(text, m.line);
        lemma_agreement(text, m.open);
        lemma_strip_first_step(seq![c], tail, st, m);
        let next = st.wrote(seq![c]);
        assert(strip_step(text, st, m).emitted =~= seq![c]);
        assert(plain_code(plain.skip(1), m)) by {
            assert forall|j: int| 0 <= j < plain.skip(1).len() implies plain_char(
                #[trigger] plain.skip(1)[j],
                m,
            ) by {
                assert(plain.skip(1)[j] == plain[j + 1]);
            }
        }
        lemma_plain_code_kept(plain.skip(1), rest, next, m);
        assert(next.wrote(plain.skip(1)) == st.wrote(plain)) by {
            if plain.skip(1).len() > 0 {
                assert(plain.skip(1).last() == plain.last());
            }
        }
        assert(seq![c] + (plain.skip(1) + strip_run(rest, st.wrote(plain), m)) =~= plain
            + strip_run(rest, st.wrote(plain), m));
    }
}

/// Inside a block comment whose closing marker stands nowhere in the rest
/// of the text, the scan writes nothing more: the comment runs to the end.
pub proof fn lemma_unclosed_block_dropped(text: Seq<char>, st: ScanState, m: Markers)
    requires
        st.in_block_comment,
        !st.in_line_comment,
        absent(text, m.close),
    ensures
        strip_run(text, st, m) == Seq::<char>::empty(),
    decreases text.len(),
{
    if text.len() > 0 {
        let s = strip_step(text, st, m);
        lemma_strip_step(text, st, m);
        assert(text.skip(0) =~= text);
        assert(!marker_matches(text, m.close));
        assert(s.state == st);
        assert(s.emitted =~= Seq::<char>::empty());
        let rest = text.skip(s.taken as int);
        assert(absent(rest, m.close)) by {
            assert forall|i: int| 0 <= i <= rest.len() implies !marker_matches(
                #[trigger] rest.skip(i),
                m.close,
            ) by {
                assert(rest.skip(i) =~= text.skip(s.taken + i));
            }
        }
        lemma_unclosed_block_dropped(rest, st, m);
    }
}

/// A block comment that is opened behind plain code and never closed is
/// dropped together with all that follows it: stripping leaves the code
/// before it. This holds where the block opener is looked for at all, that
/// is where it does not begin with a quote and the line marker does not
/// stand at the same place.
pub proof fn lemma_unclosed_block_comment(code: Seq<char>, rest: Seq<char>, m: Markers)
    requires
        plain_code(code, m),
        m.open.len() > 0,
        !is_quote(m.open[0]),
        !marker_matches(m.open + rest, m.line),
        absent(rest, m.close),
    ensures
        stripped(code + m.open + rest, m) == code,
{
    let st = ScanState::initial();
    let text = m.open + rest;
    assert(code + m.open + rest =~= code + text);
    lemma_plain_code_kept(code, text, st, m);
    let here = st.wrote(code);
    assert(text[0] == m.open[0]);
    assert(m.open.is_prefix_of(text)) by {
        assert(text.subrange(0, m.open.len() as int) =~= m.open);
    }
    lemma_strip_first_step(m.open, rest, here, m);
    lemma_unclosed_block_dropped(rest, strip_step(text, here, m).state, m);
    assert(code + (Seq::<char>::empty() + Seq::<char>::empty()) =~= code);
}

/// The number of newline characters in `text`.
pub open spec fn newline_count(text: Seq<char>) -> nat
    decreases text.len(),
{
    if text.len() == 0 {
        0
    } else {
        newline_count(text.drop_last()) + if text.last() == '\n' {
            1nat
        } else {
            0nat
        }
    }
}

/// `text` holds no newline character.
pub open spec fn no_newline(text: Seq<char>) -> bool {
    forall|j: int| 0 <= j < text.len() ==> text[j] != '\n'
}

/// The text made of `n` newline characters.
pub open spec fn newlines(n: nat) -> Seq<char> {
    Seq::new(n, |j: int| '\n')
}

/// The text made of line comments alone: for each of `bodies` in turn the
/// marker `line`, that body, and the newline that ends the comment.
pub open spec fn comment_lines(line: Seq<char>, bodies: Seq<Seq<char>>) -> Seq<char>
    decreases bodies.len(),
{
    if bodies.len() == 0 {
        Seq::empty()
    } else {
        line + bodies[0] + seq!['\n'] + comment_lines(line, bodies.skip(1))
    }
}

/// The newlines of two texts add up in their concatenation.
pub proof fn lemma_newline_count_concat(a: Seq<char>, b: Seq<char>)
    ensures
        newline_count(a + b) == newline_count(a) + newline_count(b),
    decreases b.len(),
{
    if b.len() == 0 {
        assert(a + b =~= a);
    } else {
        assert((a + b).drop_last() =~= a + b.drop_last());
        assert((a + b).last() == b.last());
        lemma_newline_count_concat(a, b.drop_last());
    }
}

/// A text without newlines counts none.
pub proof fn lemma_newline_count_none(text: Seq<char>)
    requires
        no_newline(text),
    ensures
        newline_count(text) == 0,
    decreases text.len(),
{
    if text.len() > 0 {
        lemma_newline_count_none(text.drop_last());
    }
}

/// A text of `n` newlines counts `n`.
pub proof fn lemma_newline_count_newlines(n: nat)
    ensures
        newline_count(newlines(n)) == n,
    decreases n,
{
    if n > 0 {
        assert(newlines(n).drop_last() =~= newlines((n - 1) as nat));
        lemma_newline_count_newlines((n - 1) as nat);
    }
}

/// Inside a line comment everything up to the newline is dropped; the
/// newline is copied and the scan is in ordinary code again.
pub proof fn lemma_line_comment_dropped(
    body: Seq<char>,
    rest: Seq<char>,
    st: ScanState,
    m: Markers,
)
    requires
        st.in_line_comment,
        no_newline(body),
    ensures
        strip_run(body + seq!['\n'] + rest, st, m) == seq!['\n'] + strip_run(
            rest,
            ScanState::code(Some('\n')),
            m,
        ),
    decreases body.len(),
{
    if body.len() == 0 {
        assert(body + seq!['\n'] + rest =~= seq!['\n'] + rest);
        lemma_strip_first_step(seq!['\n'], rest, st, m);
    } else {
        let c = body[0];
        let tail = body.skip(1) + seq!['\n'] + rest;
        assert(body + seq!['\n'] + rest =~= seq![c] + tail);
        assert((seq![c] + tail)[0] == c);
        lemma_strip_first_step(seq![c], tail, st, m);
        lemma_line_comment_dropped(body.skip(1), rest, st, m);
        assert(Seq::<char>::empty() + (seq!['\n'] + strip_run(
            rest,
            ScanState::code(Some('\n')),
            m,
        )) =~= seq!['\n'] + strip_run(rest, ScanState::code(Some('\n')), m));
    }
}

/// The markers and bodies of a text of line comments: there is a line
/// marker, it does not begin with a quote, and neither it nor any body
/// holds a newline.
pub open spec fn plain_comment_lines(line: Seq<char>, bodies: Seq<Seq<char>>) -> bool {
    &&& line.len() > 0
    &&& !is_quote(line[0])
    &&& no_newline(line)
    &&& forall|k: int| 0 <= k < bodies.len() ==> no_newline(#[trigger] bodies[k])
}

/// A text of line comments has one newline for each comment.
pub proof fn lemma_comment_lines_count(line: Seq<char>, bodies: Seq<Seq<char>>)
    requires
        plain_comment_lines(line, bodies),
    ensures
        newline_count(comment_lines(line, bodies)) == bodies.len(),
    decreases bodies.len(),
{
    if bodies.len() > 0 {
        let body = bodies[0];
        let later = comment_lines(line, bodies.skip(1));
        assert(plain_comment_lines(line, bodies.skip(1))) by {
            assert forall|k: int| 0 <= k < bodies.skip(1).len() implies no_newline(
                #[trigger] bodies.skip(1)[k],
            ) by {
                assert(bodies.skip(1)[k] == bodies[k + 1]);
            }
        }
        lemma_comment_lines_count(line, bodies.skip(1));
        lemma_newline_count_concat(line + body + seq!['\n'], later);
        lemma_newline_count_concat(line + body, seq!['\n']);
        lemma_newline_count_concat(line, body);
        lemma_newline_count_none(line);
        lemma_newline_count_none(body);
        assert(newline_count(seq!['\n']) == 1) by {
            lemma_newline_count_none(seq!['\n'].drop_last());
        }
    }
}

/// In ordinary code, a line comment that begins the text is dropped up to
/// its newline, which is copied.
pub proof fn lemma_comment_line_first(
    body: Seq<char>,
    later: Seq<char>,
    st: ScanState,
    m: Markers,
)
    requires
        st.in_code(),
        m.line.len() > 0,
        !is_quote(m.line[0]),
        no_newline(body),
    ensures
        strip_run(m.line + body + seq!['\n'] + later, st, m) == seq!['\n'] + strip_run(
            later,
            ScanState::code(Some('\n')),
            m,
        ),
{
    let tail = body + seq!['\n'] + later;
    let text = m.line + tail;
    assert(m.line + body + seq!['\n'] + later =~= text);
    assert(text[0] == m.line[0]);
    assert(m.line.is_prefix_of(text)) by {
        assert(text.subrange(0, m.line.len() as int) =~= m.line);
    }
    lemma_strip_first_step(m.line, tail, st, m);
    let inside = strip_step(text, st, m).state;
    assert(inside.in_line_comment);
    assert(strip_step(text, st, m).emitted =~= Seq::<char>::empty());
    lemma_line_comment_dropped(body, later, inside, m);
    assert(Seq::<char>::empty() + strip_run(tail, inside, m) =~= strip_run(tail, inside, m));
}

/// From ordinary code, a text of line comments alone is stripped to its
/// newlines: one for each comment.
pub proof fn lemma_comment_lines_run(bodies: Seq<Seq<char>>, st: ScanState, m: Markers)
    requires
        st.in_code(),
        plain_comment_lines(m.line, bodies),
    ensures
        strip_run(comment_lines(m.line, bodies), st, m) == newlines(bodies.len()),
    decreases bodies.len(),
{
    if bodies.len() == 0 {
        assert(newlines(0) =~= Seq::<char>::empty());
    } else {
        let later = comment_lines(m.line, bodies.skip(1));
        lemma_comment_line_first(bodies[0], later, st, m);
        assert(plain_comment_lines(m.line, bodies.skip(1))) by {
            assert forall|k: int| 0 <= k < bodies.skip(1).len() implies no_newline(
                #[trigger] bodies.skip(1)[k],
            ) by {
                assert(bodies.skip(1)[k] == bodies[k + 1]);
            }
        }
        lemma_comment_lines_run(bodies.skip(1), ScanState::code(Some('\n')), m);
        assert(seq!['\n'] + newlines((bodies.len() - 1) as nat) =~= newlines(bodies.len()));
    }
}

/// Stripping a text that holds line comments alone, each with the newline
/// that ends it, keeps every newline and nothing else: the output has as
/// many newlines as the input.
pub proof fn lemma_line_comments_keep_newlines(bodies: Seq<Seq<char>>, m: Markers)
    requires
        plain_comment_lines(m.line, bodies),
    ensures
        stripped(comment_lines(m.line, bodies), m) == newlines(bodies.len()),
        newline_count(stripped(comment_lines(m.line, bodies), m)) == newline_count(
            comment_lines(m.line, bodies),
        ),
{
    lemma_comment_lines_run(bodies, ScanState::initial(), m);
    lemma_comment_lines_count(m.line, bodies);
    lemma_newline_count_newlines(bodies.len());
}

} // verus!
