//! What holds of the collapsing scan on every text.

use vstd::prelude::*;
use crate::collapse::{begins_escape_pair, collapse_run, collapse_step, collapsed, is_blank,
    is_break, is_escapable, lemma_collapse_step, newline_escape};
use crate::scan::{is_quote, Progress, ScanState};

verus! {

/// Where the first step on `head + tail` takes exactly `head`, the scan
/// writes what that step writes and goes on with `tail`.
proof fn lemma_collapse_first_step(head: Seq<char>, tail: Seq<char>, st: ScanState)
    requires
        head.len() > 0,
        collapse_step(head + tail, st).taken == head.len(),
    ensures
        collapse_run(head + tail, st) == collapse_step(head + tail, st).emitted + collapse_run(
            tail,
            collapse_step(head + tail, st).state,
        ),
{
    assert((head + tail).skip(head.len() as int) =~= tail);
}

/// From any state, the scan writes a text that it would leave as it is:
/// scanning its own output from the same state writes that output again.
pub proof fn lemma_collapse_run_settled(text: Seq<char>, st: ScanState)
    ensures
        collapse_run(collapse_run(text, st), st) == collapse_run(text, st),
    decreases text.len(),
{
    if text.len() > 0 {
        let s = collapse_step(text, st);
        let rest = text.skip(s.taken as int);
        let tail = collapse_run(rest, s.state);
        lemma_collapse_run_settled(rest, s.state);
        if is_blank(text[0]) && !st.in_literal() && !is_quote(text[0]) {
            // Nothing was written and the state did not change.
        } else {
            let out = s.emitted + tail;
            assert(out[0] == s.emitted[0]);
            if s.emitted.len() == 2 {
                assert(out[1] == s.emitted[1]);
                assert(out.take(2) =~= s.emitted);
                lemma_collapse_first_step(s.emitted, tail, st);
            } else if st.in_literal() && begins_escape_pair(out) {
                // A lone backslash inside a literal that, in the output, is
                // followed by the backslash of a line break's escape.
                let c = text[0];
                assert(s.emitted =~= seq![c]);
                assert(tail.len() > 0 && out[1] == tail[0]);
                assert(rest.len() > 0);
                assert(rest[0] == text[1]);
                let s1 = collapse_step(rest, s.state);
                let rest2 = rest.skip(s1.taken as int);
                let tail2 = collapse_run(rest2, s1.state);
                assert(tail == s1.emitted + tail2);
                assert(tail[0] == s1.emitted[0]);
                assert(is_break(rest[0]));
                assert(s1.emitted == newline_escape());
                lemma_collapse_run_settled(rest2, s1.state);
                let pair = seq![c, '\\'];
                let after = seq!['n'] + tail2;
                assert(out =~= pair + after);
                assert(out.take(2) =~= pair);
                lemma_collapse_first_step(pair, after, st);
                let mid = collapse_step(out, st).state;
                assert(after[0] == 'n');
                assert(collapse_step(after, mid).state == s1.state);
                lemma_collapse_first_step(seq!['n'], tail2, mid);
                assert(collapse_run(out, st) =~= out);
            } else {
                assert(s.emitted =~= seq![text[0]]);
                lemma_collapse_first_step(s.emitted, tail, st);
            }
        }
    }
}

/// Collapsing twice gives what collapsing once gives.
pub proof fn lemma_collapse_idempotent(text: Seq<char>)
    ensures
        collapsed(collapsed(text)) == collapsed(text),
{
    lemma_collapse_run_settled(text, ScanState::initial());
}

/// Inside a literal an escape pair is never split: a backslash and a
/// character that pairs with it are written together, in one step, and the
/// scan goes on behind them in the same literal.
pub proof fn lemma_escape_pair_kept(second: char, rest: Seq<char>, st: ScanState)
    requires
        st.in_literal(),
        is_escapable(second),
    ensures
        collapse_run(seq!['\\', second] + rest, st) == seq!['\\', second] + collapse_run(
            rest,
            st.wrote(seq![second]),
        ),
{
    let pair = seq!['\\', second];
    let text = pair + rest;
    assert(text[0] == '\\' && text[1] == second);
    assert(text.take(2) =~= pair);
    lemma_collapse_first_step(pair, rest, st);
}

/// Where the scan that starts on `text` in state `st` stands when it comes
/// to index `n`: what it has written for the characters before `n`, and its
/// state there. `None` where no step begins at `n`, because the character
/// there is the second of an escape pair, or the text is shorter.
pub open spec fn collapse_reach(text: Seq<char>, st: ScanState, n: nat) -> Option<Progress>
    decreases text.len(),
{
    if n == 0 {
        Some(Progress { written: Seq::empty(), state: st })
    } else if text.len() == 0 || collapse_step(text, st).taken > n {
        None
    } else {
        let s = collapse_step(text, st);
        match collapse_reach(text.skip(s.taken as int), s.state, (n - s.taken) as nat) {
            Some(p) => Some(Progress { written: s.emitted + p.written, state: p.state }),
            None => None,
        }
    }
}

/// Where the scan comes to stand at index `n`, the whole output is what it
/// has written up to there, followed by what it writes for the rest of the
/// text from the state it is in.
pub proof fn lemma_collapse_resumes(text: Seq<char>, st: ScanState, n: nat)
    requires
        collapse_reach(text, st, n) is Some,
    ensures
        n <= text.len(),
        collapse_run(text, st) == collapse_reach(text, st, n)->0.written + collapse_run(
            text.skip(n as int),
            collapse_reach(text, st, n)->0.state,
        ),
        st.outside_comments() ==> collapse_reach(text, st, n)->0.state.outside_comments(),
        collapse_reach(text, st, n)->0.state.previous_char == st.wrote(
            collapse_reach(text, st, n)->0.written,
        ).previous_char,
    decreases text.len(),
{
    if n == 0 {
        assert(text.skip(0) =~= text);
        assert(Seq::<char>::empty() + collapse_run(text, st) =~= collapse_run(text, st));
    } else {
        let s = collapse_step(text, st);
        lemma_collapse_step(text, st);
        let rest = text.skip(s.taken as int);
        let k = (n - s.taken) as nat;
        lemma_collapse_resumes(rest, s.state, k);
        let p = collapse_reach(rest, s.state, k)->0;
        assert(rest.skip(k as int) =~= text.skip(n as int));
        assert(s.emitted + (p.written + collapse_run(text.skip(n as int), p.state)) =~= (s.emitted
            + p.written) + collapse_run(text.skip(n as int), p.state));
    }
}

/// Wherever the scan meets an escape pair inside a literal, both of its
/// characters reach the output, side by side: the output is what was
/// written before the pair, the pair, and what the scan writes for the rest
/// of the text, still inside the literal.
pub proof fn lemma_escape_pair_survives(text: Seq<char>, n: nat, second: char)
    requires
        collapse_reach(text, ScanState::initial(), n) is Some,
        collapse_reach(text, ScanState::initial(), n)->0.state.in_literal(),
        n + 2 <= text.len(),
        text[n as int] == '\\',
        text[n as int + 1] == second,
        is_escapable(second),
    ensures
        collapsed(text) == collapse_reach(text, ScanState::initial(), n)->0.written + seq![
            '\\',
            second,
        ] + collapse_run(
            text.skip(n as int + 2),
            collapse_reach(text, ScanState::initial(), n)->0.state.wrote(seq![second]),
        ),
        collapse_reach(text, ScanState::initial(), n + 2) is Some,
{
    let p = collapse_reach(text, ScanState::initial(), n)->0;
    lemma_collapse_resumes(text, ScanState::initial(), n);
    let rest = text.skip(n as int + 2);
    assert(text.skip(n as int) =~= seq!['\\', second] + rest);
    lemma_escape_pair_kept(second, rest, p.state);
    let after = collapse_run(rest, p.state.wrote(seq![second]));
    assert(p.written + (seq!['\\', second] + after) =~= p.written + seq!['\\', second] + after);
    lemma_collapse_reach_extends(text, ScanState::initial(), n);
}

/// Where the scan stands at index `n` before the end of the text, it also
/// comes to stand behind the step that begins there.
pub proof fn lemma_collapse_reach_extends(text: Seq<char>, st: ScanState, n: nat)
    requires
        collapse_reach(text, st, n) is Some,
        n < text.len(),
    ensures
        collapse_reach(
            text,
            st,
            n + collapse_step(text.skip(n as int), collapse_reach(text, st, n)->0.state).taken,
        ) is Some,
    decreases text.len(),
{
    if n == 0 {
        assert(text.skip(0) =~= text);
        let s = collapse_step(text, st);
        lemma_collapse_step(text, st);
        assert(collapse_reach(text.skip(s.taken as int), s.state, 0) is Some);
    } else {
        let s = collapse_step(text, st);
        lemma_collapse_step(text, st);
        let rest = text.skip(s.taken as int);
        let k = (n - s.taken) as nat;
        lemma_collapse_resumes(rest, s.state, k);
        assert(rest.skip(k as int) =~= text.skip(n as int));
        lemma_collapse_reach_extends(rest, s.state, k);
    }
}

} // verus!
