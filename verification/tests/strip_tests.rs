use condense::strip::{remove_documentation, strip, DelimiterSet};

fn c_like() -> DelimiterSet {
    DelimiterSet::new("//", "/*", "*/")
}

#[test]
fn line_comment_is_dropped_and_newline_kept() {
    let out = remove_documentation("let x = 1; // comment\nlet y = 2;\n", "//", "", "");
    assert_eq!(out, "let x = 1; \nlet y = 2;\n");
}

#[test]
fn block_comment_is_dropped_whole() {
    let out = remove_documentation("a /* dropped\nmulti\nline */ b", "", "/*", "*/");
    assert_eq!(out, "a  b");
}

#[test]
fn marker_inside_string_is_kept() {
    let input = "msg = \"not // a comment\";";
    assert_eq!(strip(input, &c_like()), input);
    assert_eq!(remove_documentation(input, "//", "/*", "*/"), input);
}

#[test]
fn block_open_inside_string_is_kept() {
    let input = "s = \"a /* b\"; t = 1; /* gone */";
    assert_eq!(remove_documentation(input, "", "/*", "*/"), "s = \"a /* b\"; t = 1; ");
}

#[test]
fn marker_inside_char_literal_is_kept() {
    let input = "c = '#'; # real\nd";
    assert_eq!(remove_documentation(input, "#", "", ""), "c = '#'; \nd");
}

#[test]
fn empty_input_gives_empty_output() {
    assert_eq!(strip("", &c_like()), "");
    assert_eq!(remove_documentation("", "", "", ""), "");
}

#[test]
fn empty_markers_copy_everything() {
    let input = "a // b /* c */ d\n# e\n";
    assert_eq!(remove_documentation(input, "", "", ""), input);
}

#[test]
fn unterminated_block_comment_runs_to_the_end() {
    assert_eq!(remove_documentation("keep /* lost\nlost too", "", "/*", "*/"), "keep ");
}

#[test]
fn unterminated_line_comment_runs_to_the_end() {
    assert_eq!(remove_documentation("keep # lost", "#", "", ""), "keep ");
}

#[test]
fn unterminated_string_keeps_the_rest() {
    let input = "x = \"open // still text\n# more";
    assert_eq!(remove_documentation(input, "//", "/*", "*/"), input);
}

#[test]
fn input_of_markers_only() {
    assert_eq!(remove_documentation("//", "//", "", ""), "");
    assert_eq!(remove_documentation("/**/", "", "/*", "*/"), "");
    assert_eq!(remove_documentation("/*", "", "/*", "*/"), "");
}

#[test]
fn failed_line_attempt_copies_what_it_used() {
    // The attempt at `//` takes `/` and the differing `b`: both are copied.
    assert_eq!(remove_documentation("a /b c", "//", "", ""), "a /b c");
    // The differing character is not looked at again: the quote opens nothing.
    assert_eq!(remove_documentation("/\"x//y\"", "//", "", ""), "/\"x");
}

#[test]
fn failed_attempt_at_end_of_input() {
    assert_eq!(remove_documentation("a /", "//", "", ""), "a /");
    assert_eq!(remove_documentation("a --[", "", "--[[", "]]"), "a --[");
}

#[test]
fn line_marker_is_tried_before_block_marker() {
    // `--[[` begins with the line marker `--`, so it starts a line comment.
    assert_eq!(remove_documentation("a --[[ b\nc ]] d", "--", "--[[", "]]"), "a \nc ]] d");
}

#[test]
fn block_opener_is_found_where_the_line_marker_fails() {
    // `/*` begins like `//`: the line marker is not there, the block opener is.
    assert_eq!(remove_documentation("a /* b */ c", "//", "/*", "*/"), "a  c");
    assert_eq!(strip("a /* b */ c // d\ne", &c_like()), "a  c \ne");
}

#[test]
fn block_comment_is_dropped_whole_beside_a_line_marker() {
    let out = remove_documentation("a /* dropped\nmulti\nline */ b", "//", "/*", "*/");
    assert_eq!(out, "a  b");
}

#[test]
fn unterminated_block_comment_beside_a_line_marker() {
    assert_eq!(remove_documentation("x/*y", "//", "/*", "*/"), "x");
    assert_eq!(remove_documentation("x/*y\n// z\n", "//", "/*", "*/"), "x");
}

#[test]
fn where_both_markers_fail_the_line_attempt_is_copied() {
    // Neither `//` nor `/**` stands at `/*x`: the attempt at `//` used up `/*`.
    assert_eq!(remove_documentation("/*\"//\"", "//", "/**", "*/"), "/*\"//\"");
    assert_eq!(remove_documentation("x = a / b; // c\n", "//", "/*", "*/"), "x = a / b; \n");
    assert_eq!(remove_documentation("a /", "//", "/*", "*/"), "a /");
}

#[test]
fn failed_close_attempt_is_not_rescanned() {
    // The attempt at `*/` on `**` uses up both stars, so `**/` does not close.
    assert_eq!(remove_documentation("a /* b **/ c */ d", "", "/*", "*/"), "a  d");
}

#[test]
fn block_comments_do_not_nest() {
    assert_eq!(remove_documentation("a /* b /* c */ d */ e", "", "/*", "*/"), "a  d */ e");
}

#[test]
fn escaped_quote_does_not_close_the_string() {
    let input = "s = \"a \\\" // b\"; // c\n";
    assert_eq!(remove_documentation(input, "//", "", ""), "s = \"a \\\" // b\"; \n");
}

#[test]
fn quote_after_block_comment_looks_at_last_copied_character() {
    // The backslash before the comment is the last character copied, so the
    // quote after the comment counts as escaped and opens no string.
    assert_eq!(remove_documentation("\\/* c */\" # x", "#", "/*", "*/"), "\\\" ");
}

#[test]
fn single_quote_inside_string_is_plain() {
    let input = "s = \"it's\"; # c\n";
    assert_eq!(remove_documentation(input, "#", "", ""), "s = \"it's\"; \n");
}

#[test]
fn double_quote_inside_char_literal_is_plain() {
    let input = "c = '\"'; # c\n";
    assert_eq!(remove_documentation(input, "#", "", ""), "c = '\"'; \n");
}

#[test]
fn marker_that_begins_with_a_quote_never_matches() {
    let input = "x = 1 ' note\n";
    assert_eq!(remove_documentation(input, "'", "", ""), input);
}

#[test]
fn matching_is_case_sensitive() {
    let input = "a REM b\n";
    assert_eq!(remove_documentation(input, "rem", "", ""), input);
    assert_eq!(remove_documentation(input, "REM", "", ""), "a \n");
}

#[test]
fn non_ascii_text_is_copied() {
    let input = "é = \"ü // ö\"; // ß\nλ";
    assert_eq!(remove_documentation(input, "//", "", ""), "é = \"ü // ö\"; \nλ");
}

#[test]
fn only_line_comments_keep_every_newline() {
    let input = "// one\n//two\n//\n// four // still\n";
    let out = remove_documentation(input, "//", "/*", "*/");
    assert_eq!(out, "\n\n\n\n");
    assert_eq!(out.matches('\n').count(), input.matches('\n').count());
}

#[test]
fn delimiter_set_holds_its_markers() {
    let d = DelimiterSet::new("--", "{-", "-}");
    assert_eq!(d.line_comment, "--");
    assert_eq!(d.block_comment_open, "{-");
    assert_eq!(d.block_comment_close, "-}");
    assert_eq!(strip("a {- b -} c -- d", &d), "a  c ");
}
