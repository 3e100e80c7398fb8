use condense::collapse::{collapse, remove_whitespace};

#[test]
fn whitespace_outside_literals_is_dropped() {
    assert_eq!(collapse("fn  main( ) {\n    return;\n}\n"), "fnmain(){return;}");
}

#[test]
fn whitespace_inside_a_literal_is_kept() {
    assert_eq!(collapse("x = \"a b\\tc\"\n"), "x=\"a b\\tc\"");
}

#[test]
fn remove_whitespace_is_collapse() {
    let input = "a = 'b c' ;\r\n\td = \"e\tf\"";
    assert_eq!(remove_whitespace(input), collapse(input));
    assert_eq!(remove_whitespace(input), "a='b c';d=\"e\tf\"");
}

#[test]
fn collapse_of_empty_input() {
    assert_eq!(collapse(""), "");
    assert_eq!(collapse(" \t\r\n"), "");
}

#[test]
fn line_break_inside_a_literal_becomes_an_escape() {
    assert_eq!(collapse("s = \"a\nb\rc\""), "s=\"a\\nb\\nc\"");
    assert_eq!(collapse("c = '\n'"), "c='\\n'");
}

#[test]
fn escape_pairs_are_kept_whole() {
    assert_eq!(collapse("\"\\n\\r\\t\\\\\\\"\\'\" x"), "\"\\n\\r\\t\\\\\\\"\\'\"x");
}

#[test]
fn escaped_quote_does_not_close_the_literal() {
    assert_eq!(collapse("\"a\\\" b\" c d"), "\"a\\\" b\"cd");
}

#[test]
fn quote_after_an_escape_pair_closes_the_literal() {
    // The last character written is `n`, not a backslash.
    assert_eq!(collapse("\"a\\n\" b \"c d\""), "\"a\\n\"b\"c d\"");
}

#[test]
fn backslash_before_other_character_is_copied_alone() {
    assert_eq!(collapse("\"a\\x b\""), "\"a\\x b\"");
    assert_eq!(collapse("\"a\\"), "\"a\\");
}

#[test]
fn backslash_outside_literals_is_copied() {
    assert_eq!(collapse("a \\ n b"), "a\\nb");
}

#[test]
fn dropped_whitespace_does_not_hide_a_backslash() {
    // The backslash is the last character written when the quote is met.
    assert_eq!(collapse("\\ \"a b\""), "\\\"ab\"");
}

#[test]
fn unterminated_literal_keeps_its_whitespace() {
    assert_eq!(collapse("x = \"a b\n c"), "x=\"a b\\n c");
}

#[test]
fn single_quote_inside_string_is_plain_text() {
    assert_eq!(collapse("\"it's a\" b c"), "\"it's a\"bc");
}

#[test]
fn double_quote_inside_char_literal_is_plain_text() {
    assert_eq!(collapse("'\" ' a b"), "'\" 'ab");
}

#[test]
fn collapsing_twice_changes_nothing_more() {
    let inputs = [
        "fn  main( ) {\n    return;\n}\n",
        "x = \"a b\\tc\"\n",
        "\"a\n\" \"b c\"",
        "\\ \"a b\"",
        "\"\\\nq\" r s",
        "'a\r\n' \"\\\\\" t u",
    ];
    for input in inputs {
        let once = collapse(input);
        assert_eq!(collapse(&once), once);
    }
}

#[test]
fn non_ascii_text_survives() {
    assert_eq!(collapse("λ = \"é ü\" ;"), "λ=\"é ü\";");
}
