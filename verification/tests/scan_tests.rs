use condense::collapse::{collapse_advance, collapse_chars, escapable};
use condense::scan::{advance_copy, advance_quote, match_marker, ScanState};
use condense::strip::{copy_range, strip_advance, strip_chars, DelimiterSet};
use condense::text::{chars_of, same_text, string_of};

fn chars(s: &str) -> Vec<char> {
    s.chars().collect()
}

fn flags(st: &ScanState) -> (bool, bool, bool, bool) {
    (st.in_string, st.in_char_literal, st.in_line_comment, st.in_block_comment)
}

#[test]
fn a_scan_starts_in_code_with_nothing_written() {
    let st = ScanState::new();
    assert_eq!(flags(&st), (false, false, false, false));
    assert_eq!(st.previous_char, None);
    assert!(!st.is_escaped());
}

#[test]
fn text_goes_to_characters_and_back() {
    assert_eq!(chars_of("aé\n"), vec!['a', 'é', '\n']);
    assert_eq!(string_of(&vec!['λ', ' ', 'x']), "λ x");
    assert_eq!(string_of(&chars_of("")), "");
    assert!(same_text("abc", "abc"));
    assert!(!same_text("abc", "abd"));
    assert!(!same_text("abc", "ab"));
    assert!(same_text("", ""));
}

#[test]
fn marker_match_reports_what_it_used() {
    let text = chars("ab--[[x");
    assert_eq!(match_marker(&text, 2, &chars("--[[")), (true, 4));
    assert_eq!(match_marker(&text, 2, &chars("--")), (true, 2));
    assert_eq!(match_marker(&text, 2, &chars("--]")), (false, 3));
    assert_eq!(match_marker(&text, 0, &chars("--")), (false, 1));
    assert_eq!(match_marker(&text, 6, &chars("xy")), (false, 1));
    assert_eq!(match_marker(&text, 7, &chars("x")), (false, 0));
    assert_eq!(match_marker(&text, 3, &chars("")), (true, 0));
}

#[test]
fn copy_range_appends_the_range() {
    let mut out = vec!['>'];
    copy_range(&chars("abcdef"), 2, 5, &mut out);
    assert_eq!(out, vec!['>', 'c', 'd', 'e']);
    copy_range(&chars("abcdef"), 3, 3, &mut out);
    assert_eq!(out.len(), 4);
}

#[test]
fn quote_steps_toggle_their_literal() {
    let mut out = Vec::new();
    let (n, st) = advance_quote('"', ScanState::new(), &mut out);
    assert_eq!(n, 1);
    assert_eq!(flags(&st), (true, false, false, false));
    assert_eq!(st.previous_char, Some('"'));
    let (_, st) = advance_quote('\'', st, &mut out);
    assert_eq!(flags(&st), (true, false, false, false));
    let (_, st) = advance_copy('\\', st, &mut out);
    assert!(st.is_escaped());
    let (_, st) = advance_quote('"', st, &mut out);
    assert_eq!(flags(&st), (true, false, false, false));
    let (_, st) = advance_quote('"', st, &mut out);
    assert_eq!(flags(&st), (false, false, false, false));
    assert_eq!(out, vec!['"', '\'', '\\', '"', '"']);
}

#[test]
fn strip_steps_walk_through_a_comment() {
    let m = DelimiterSet::new("//", "/*", "*/").to_chars();
    let text = chars("a//b\nc");
    let mut out = Vec::new();
    let (n, st) = strip_advance(&text, 0, ScanState::new(), &m, &mut out);
    assert_eq!((n, flags(&st), st.previous_char), (1, (false, false, false, false), Some('a')));
    let (n, st) = strip_advance(&text, 1, st, &m, &mut out);
    assert_eq!((n, flags(&st), st.previous_char), (2, (false, false, true, false), Some('a')));
    let (n, st) = strip_advance(&text, 3, st, &m, &mut out);
    assert_eq!((n, flags(&st)), (1, (false, false, true, false)));
    let (n, st) = strip_advance(&text, 4, st, &m, &mut out);
    assert_eq!((n, flags(&st), st.previous_char), (1, (false, false, false, false), Some('\n')));
    assert_eq!(out, vec!['a', '\n']);
}

#[test]
fn strip_step_on_a_failed_attempt_copies_what_it_used() {
    let m = DelimiterSet::new("", "--[[", "]]").to_chars();
    let text = chars("--[x");
    let mut out = Vec::new();
    let (n, st) = strip_advance(&text, 0, ScanState::new(), &m, &mut out);
    assert_eq!(n, 4);
    assert_eq!(out, text);
    assert_eq!(st.previous_char, Some('x'));
    assert_eq!(flags(&st), (false, false, false, false));
}

#[test]
fn strip_step_inside_a_block_comment() {
    let m = DelimiterSet::new("", "/*", "*/").to_chars();
    let text = chars("x**/*/y");
    let inside = ScanState {
        in_string: false,
        in_char_literal: false,
        in_line_comment: false,
        in_block_comment: true,
        previous_char: Some('k'),
    };
    let mut out = Vec::new();
    let (n, st) = strip_advance(&text, 0, inside, &m, &mut out);
    assert_eq!((n, st.in_block_comment), (1, true));
    let (n, st) = strip_advance(&text, 1, st, &m, &mut out);
    assert_eq!((n, st.in_block_comment), (2, true));
    let (n, st) = strip_advance(&text, 3, st, &m, &mut out);
    assert_eq!((n, st.in_block_comment), (1, true));
    let (n, st) = strip_advance(&text, 4, st, &m, &mut out);
    assert_eq!((n, st.in_block_comment), (2, false));
    assert_eq!(st.previous_char, Some('k'));
    assert!(out.is_empty());
}

#[test]
fn collapse_steps_take_one_or_two_characters() {
    let text = chars("\" \\n\n\"\t");
    let mut out = Vec::new();
    let (n, st) = collapse_advance(&text, 0, ScanState::new(), &mut out);
    assert_eq!((n, st.in_string), (1, true));
    let (n, st) = collapse_advance(&text, 1, st, &mut out);
    assert_eq!((n, st.previous_char), (1, Some(' ')));
    let (n, st) = collapse_advance(&text, 2, st, &mut out);
    assert_eq!((n, st.previous_char), (2, Some('n')));
    let (n, st) = collapse_advance(&text, 4, st, &mut out);
    assert_eq!((n, st.previous_char), (1, Some('n')));
    let (n, st) = collapse_advance(&text, 5, st, &mut out);
    assert_eq!((n, st.in_string), (1, false));
    let (n, st) = collapse_advance(&text, 6, st, &mut out);
    assert_eq!((n, st.previous_char), (1, Some('"')));
    assert_eq!(out, chars("\" \\n\\n\""));
}

#[test]
fn escapable_characters() {
    for c in ['n', 'r', 't', '\\', '"', '\''] {
        assert!(escapable(c));
    }
    for c in ['a', '0', ' ', '\n', 'N', 'x', 'u'] {
        assert!(!escapable(c));
    }
}

#[test]
fn scans_on_characters_agree_with_scans_on_strings() {
    let m = DelimiterSet::new("#", "", "").to_chars();
    assert_eq!(strip_chars(&chars("a # b\nc"), &m), chars("a \nc"));
    assert_eq!(collapse_chars(&chars("a 'b c' d")), chars("a'b c'd"));
}
