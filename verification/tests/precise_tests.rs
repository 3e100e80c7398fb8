use condense::condense::{condense, condense_as};
use condense::language::Language;
use condense::precise::{javascript_text, PreciseError};
use condense::strip::DelimiterSet;

#[test]
fn minifier_bytes_become_text() {
    let bytes = "let a=\"é\"".as_bytes().to_vec();
    assert_eq!(javascript_text(Ok(bytes)).unwrap(), "let a=\"é\"");
    assert_eq!(javascript_text(Ok(Vec::new())).unwrap(), "");
}

#[test]
fn minifier_bytes_that_are_no_text_are_an_encoding_error() {
    match javascript_text(Ok(vec![0x61, 0xff, 0x62])) {
        Err(PreciseError::Encoding(message)) => assert!(!message.is_empty()),
        other => panic!("unexpected: {:?}", other),
    }
}

#[test]
fn minifier_error_is_passed_on() {
    match javascript_text(Err("bad token".to_string())) {
        Err(PreciseError::Syntax(message)) => assert_eq!(message, "bad token"),
        other => panic!("unexpected: {:?}", other),
    }
    let e = PreciseError::Encoding("where".to_string());
    assert_eq!(e.message(), "where");
}

#[test]
fn condense_strips_then_collapses() {
    let d = DelimiterSet::new("#", "", "");
    assert_eq!(condense("x = 1  # one\ny = \"a # b\"\n", &d, true), "x=1y=\"a # b\"");
    assert_eq!(condense("x = 1  # one\ny = 2\n", &d, false), "x=1#oney=2");
}

#[test]
fn condense_as_uses_the_markers_of_the_language() {
    let out = condense_as(Language::Haskell, "f x = x -- id\n{- note -}\ng = f\n", true).unwrap();
    assert_eq!(out, "fx=xg=f");
    let kept = condense_as(Language::Haskell, "f x = x -- id\n", false).unwrap();
    assert_eq!(kept, "fx=x--id");
    let shell = condense_as(Language::Shell, "echo \"a  b\" # say\n", true).unwrap();
    assert_eq!(shell, "echo\"a  b\"");
}

#[test]
fn condense_as_drops_block_comments_of_c_like_languages() {
    let source = "int f() { /* why */ return 1; } // end\n";
    for language in [Language::Java, Language::Cpp, Language::Go, Language::Kotlin] {
        assert_eq!(condense_as(language, source, true).unwrap(), "intf(){return1;}");
    }
    assert_eq!(
        condense_as(Language::Java, source, false).unwrap(),
        "intf(){/*why*/return1;}//end"
    );
}

#[test]
fn condense_as_leaves_languages_with_their_own_minifier_to_the_caller() {
    assert_eq!(condense_as(Language::Rust, "fn  f ( ) { }", false), None);
    assert_eq!(condense_as(Language::JavaScript, "let  x  =  1 ;", true), None);
    for language in Language::ordered() {
        assert_eq!(
            condense_as(language, "x", true).is_some(),
            language.delimiters().is_some()
        );
    }
}
