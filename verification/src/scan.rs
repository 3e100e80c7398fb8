//! What a scan remembers between steps, and how a comment marker is matched
//! against the text ahead.

use vstd::prelude::*;

verus! {

/// The state of one left-to-right scan. At most one of the four flags is
/// set; none set means the scan is in ordinary code.
#[derive(Clone, Copy, Debug)]
pub struct ScanState {
    pub in_string: bool,
    pub in_char_literal: bool,
    pub in_line_comment: bool,
    pub in_block_comment: bool,
    /// The character most recently appended to the output, if any.
    pub previous_char: Option<char>,
}

impl ScanState {
    /// At most one of the four flags is set.
    pub open spec fn well_formed(self) -> bool {
        &&& self.in_string ==> !self.in_char_literal && !self.in_line_comment
            && !self.in_block_comment
        &&& self.in_char_literal ==> !self.in_line_comment && !self.in_block_comment
        &&& self.in_line_comment ==> !self.in_block_comment
    }

    /// The scan is in ordinary code: outside every literal and comment.
    pub open spec fn in_code(self) -> bool {
        !self.in_string && !self.in_char_literal && !self.in_line_comment
            && !self.in_block_comment
    }

    /// The state is well formed and outside every comment: the only states
    /// of a scan that knows no comments.
    pub open spec fn outside_comments(self) -> bool {
        self.well_formed() && !self.in_line_comment && !self.in_block_comment
    }

    /// The scan is inside a string or a character literal.
    pub open spec fn in_literal(self) -> bool {
        self.in_string || self.in_char_literal
    }

    /// A quote met now counts as escaped: the last character that reached
    /// the output is a backslash.
    pub open spec fn escaped(self) -> bool {
        self.previous_char == Some('\\')
    }

    /// Ordinary code, after `previous` reached the output.
    pub open spec fn code(previous: Option<char>) -> ScanState {
        ScanState {
            in_string: false,
            in_char_literal: false,
            in_line_comment: false,
            in_block_comment: false,
            previous_char: previous,
        }
    }

    /// The state every scan starts in: ordinary code, nothing written yet.
    pub open spec fn initial() -> ScanState {
        ScanState::code(None)
    }

    /// This state once `emitted` has been appended to the output: the flags
    /// stay, and the previous character is the last one of `emitted`, or
    /// stays too where `emitted` is empty.
    pub open spec fn wrote(self, emitted: Seq<char>) -> ScanState {
        ScanState {
            previous_char: if emitted.len() > 0 {
                Some(emitted.last())
            } else {
                self.previous_char
            },
            ..self
        }
    }

    /// The state every scan starts in.
    pub fn new() -> (st: ScanState)
        ensures
            st == ScanState::initial(),
            st.well_formed(),
    {
        ScanState {
            in_string: false,
            in_char_literal: false,
            in_line_comment: false,
            in_block_comment: false,
            previous_char: None,
        }
    }

    /// Whether a quote met in this state counts as escaped.
    pub fn is_escaped(&self) -> (b: bool)
        ensures
            b == self.escaped(),
    {
        match self.previous_char {
            Some(p) => p == '\\',
            None => false,
        }
    }
}

/// One step of a scan: how many characters of the text ahead it took, what
/// it appended to the output, and the state it left.
pub struct Step {
    pub taken: nat,
    pub emitted: Seq<char>,
    pub state: ScanState,
}

/// A step that takes the first character of the text and copies it.
pub open spec fn copy_one(text: Seq<char>, st: ScanState) -> Step {
    Step { taken: 1, emitted: seq![text[0]], state: st.wrote(seq![text[0]]) }
}

/// A step that takes the first character of the text and drops it.
pub open spec fn drop_one(st: ScanState) -> Step {
    Step { taken: 1, emitted: Seq::empty(), state: st }
}

/// `c` is one of the two quotes that delimit literals.
pub open spec fn is_quote(c: char) -> bool {
    c == '"' || c == '\''
}

/// The step of either scan on a text that begins with a quote, outside
/// comments: the quote is copied. A double quote opens or closes a string,
/// and a single quote a character literal, unless the quote is escaped or
/// stands inside a literal of the other kind.
pub open spec fn quote_step(text: Seq<char>, st: ScanState) -> Step {
    Step {
        taken: 1,
        emitted: seq![text[0]],
        state: ScanState {
            in_string: if text[0] == '"' && !st.escaped() && !st.in_char_literal {
                !st.in_string
            } else {
                st.in_string
            },
            in_char_literal: if text[0] == '\'' && !st.escaped() && !st.in_string {
                !st.in_char_literal
            } else {
                st.in_char_literal
            },
            previous_char: Some(text[0]),
            ..st
        },
    }
}

/// Copies `c` to `out` and records it as the previous character.
pub fn advance_copy(c: char, st: ScanState, out: &mut Vec<char>) -> (r: (usize, ScanState))
    ensures
        r.0 == 1,
        r.1 == st.wrote(seq![c]),
        final(out)@ == old(out)@ + seq![c],
{
    out.push(c);
    assert(out@ =~= old(out)@ + seq![c]);
    (
        1,
        ScanState {
            in_string: st.in_string,
            in_char_literal: st.in_char_literal,
            in_line_comment: st.in_line_comment,
            in_block_comment: st.in_block_comment,
            previous_char: Some(c),
        },
    )
}

/// Copies the quote `c` to `out`, and opens or closes its literal unless
/// the quote is escaped or stands inside a literal of the other kind.
pub fn advance_quote(c: char, st: ScanState, out: &mut Vec<char>) -> (r: (usize, ScanState))
    requires
        is_quote(c),
    ensures
        r.0 == 1,
        r.1 == quote_step(seq![c], st).state,
        final(out)@ == old(out)@ + seq![c],
{
    let live = !st.is_escaped();
    out.push(c);
    assert(out@ =~= old(out)@ + seq![c]);
    (
        1,
        ScanState {
            in_string: if c == '"' && live && !st.in_char_literal {
                !st.in_string
            } else {
                st.in_string
            },
            in_char_literal: if c == '\'' && live && !st.in_string {
                !st.in_char_literal
            } else {
                st.in_char_literal
            },
            in_line_comment: st.in_line_comment,
            in_block_comment: st.in_block_comment,
            previous_char: Some(c),
        },
    )
}

/// Where a scan stands between two steps: what it has written so far, and
/// its state.
pub struct Progress {
    pub written: Seq<char>,
    pub state: ScanState,
}

/// How far `text` and `marker` agree from index `k` on, given that they
/// agree before it: the first index at which they differ or one of them ends.
pub open spec fn agreement_from(text: Seq<char>, marker: Seq<char>, k: nat) -> nat
    decreases marker.len() - k,
{
    if k < marker.len() && k < text.len() && text[k as int] == marker[k as int] {
        agreement_from(text, marker, k + 1)
    } else {
        k
    }
}

/// The length of the longest common prefix of `text` and `marker`.
pub open spec fn agreement(text: Seq<char>, marker: Seq<char>) -> nat {
    agreement_from(text, marker, 0)
}

/// `marker` is a comment marker that exists and stands at the start of
/// `text`.
pub open spec fn marker_matches(text: Seq<char>, marker: Seq<char>) -> bool {
    marker.len() > 0 && marker.is_prefix_of(text)
}

/// An attempt to match `marker` is made at the start of `text`: the marker
/// exists and the text begins with its first character.
pub open spec fn marker_begins(text: Seq<char>, marker: Seq<char>) -> bool {
    marker.len() > 0 && text.len() > 0 && text[0] == marker[0]
}

/// The number of characters an attempt to match `marker` at the start of
/// `text` uses up: the whole marker where it matches; otherwise the common
/// prefix and the character that differs, or the common prefix alone where
/// the text ends first.
pub open spec fn attempt_span(text: Seq<char>, marker: Seq<char>) -> nat {
    let n = agreement(text, marker);
    if n == marker.len() || n == text.len() {
        n
    } else {
        n + 1
    }
}

/// What `agreement_from` returns, stated without recursion.
pub proof fn lemma_agreement_from(text: Seq<char>, marker: Seq<char>, k: nat)
    requires
        k <= marker.len(),
        k <= text.len(),
        forall|j: int| 0 <= j < k ==> text[j] == marker[j],
    ensures
        k <= agreement_from(text, marker, k),
        agreement_from(text, marker, k) <= marker.len(),
        agreement_from(text, marker, k) <= text.len(),
        forall|j: int| 0 <= j < agreement_from(text, marker, k) ==> text[j] == marker[j],
        agreement_from(text, marker, k) < marker.len() && agreement_from(text, marker, k)
            < text.len() ==> text[agreement_from(text, marker, k) as int]
            != marker[agreement_from(text, marker, k) as int],
    decreases marker.len() - k,
{
    if k < marker.len() && k < text.len() && text[k as int] == marker[k as int] {
        lemma_agreement_from(text, marker, k + 1);
    }
}

/// The longest common prefix is a common prefix, and is followed by a
/// difference or by the end of one of the two; the marker matches exactly
/// when the common prefix is the whole marker.
pub proof fn lemma_agreement(text: Seq<char>, marker: Seq<char>)
    ensures
        agreement(text, marker) <= marker.len(),
        agreement(text, marker) <= text.len(),
        forall|j: int| 0 <= j < agreement(text, marker) ==> text[j] == marker[j],
        agreement(text, marker) < marker.len() && agreement(text, marker) < text.len()
            ==> text[agreement(text, marker) as int] != marker[agreement(text, marker) as int],
        marker.is_prefix_of(text) <==> agreement(text, marker) == marker.len(),
        marker_begins(text, marker) ==> 1 <= attempt_span(text, marker) <= text.len(),
{
    lemma_agreement_from(text, marker, 0);
    let n = agreement(text, marker);
    if n == marker.len() {
        assert(marker =~= text.subrange(0, marker.len() as int));
    }
    if marker.is_prefix_of(text) {
        assert(marker =~= text.subrange(0, marker.len() as int));
        if n < marker.len() {
            assert(text.subrange(0, marker.len() as int)[n as int] == text[n as int]);
        }
    }
}

/// Tries to match `marker` in `content` at `pos`. Returns whether it
/// matched, and how many characters the attempt used up.
pub fn match_marker(content: &Vec<char>, pos: usize, marker: &Vec<char>) -> (r: (bool, usize))
    requires
        pos <= content.len(),
    ensures
        r.0 == marker@.is_prefix_of(content@.skip(pos as int)),
        r.1 == attempt_span(content@.skip(pos as int), marker@),
        pos + r.1 <= content.len(),
{
    let ghost text = content@.skip(pos as int);
    let mut k: usize = 0;
    while k < marker.len() && k < content.len() - pos && content[pos + k] == marker[k]
        invariant
            pos <= content.len(),
            text == content@.skip(pos as int),
            k <= marker.len(),
            k <= content.len() - pos,
            agreement(text, marker@) == agreement_from(text, marker@, k as nat),
        decreases marker.len() - k,
    {
        k += 1;
    }
    proof {
        lemma_agreement(text, marker@);
    }
    if k == marker.len() {
        (true, k)
    } else if k == content.len() - pos {
        (false, k)
    } else {
        (false, k + 1)
    }
}

} // verus!
