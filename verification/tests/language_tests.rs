use condense::language::{languages_for, Language, Selection};

fn nothing_chosen() -> Selection {
    Selection { all: false, chosen: Vec::new() }
}

fn everything() -> Selection {
    Selection { all: true, chosen: Vec::new() }
}

#[test]
fn every_language_is_listed_once_in_order() {
    let all = Language::ordered();
    assert_eq!(all.len(), 23);
    assert_eq!(all[0], Language::Rust);
    assert_eq!(all[1], Language::JavaScript);
    assert_eq!(all[2], Language::Python);
    assert_eq!(all[22], Language::Lua);
    for (i, a) in all.iter().enumerate() {
        for b in all.iter().skip(i + 1) {
            assert_ne!(a, b);
        }
    }
}

#[test]
fn labels_of_the_code_fences() {
    assert_eq!(Language::Rust.label(), "rust");
    assert_eq!(Language::JavaScript.label(), "javascript");
    assert_eq!(Language::Cpp.label(), "c/c++/obj-c");
    assert_eq!(Language::CSharp.label(), "csharp");
    assert_eq!(Language::Shell.label(), "bash");
    assert_eq!(Language::VbNet.label(), "vbnet");
    assert_eq!(Language::R.label(), "r");
}

#[test]
fn extensions_of_each_language() {
    assert_eq!(Language::Python.extensions(), vec!["py", "pyw"]);
    assert_eq!(
        Language::Cpp.extensions(),
        vec!["cpp", "hpp", "cc", "hh", "cxx", "hxx", "c", "h", "m", "mm"]
    );
    assert_eq!(Language::Groovy.extensions(), vec!["groovy", "gvy", "gy", "gsh"]);
    assert_eq!(Language::R.extensions(), vec!["r", "R"]);
    assert_eq!(Language::Matlab.extensions(), vec!["m"]);
    for language in Language::ordered() {
        assert!(!language.extensions().is_empty());
    }
}

#[test]
fn handles_goes_by_the_exact_extension() {
    assert!(Language::Python.handles("py"));
    assert!(Language::Python.handles("pyw"));
    assert!(!Language::Python.handles("PY"));
    assert!(!Language::Python.handles("p"));
    assert!(!Language::Python.handles(""));
    assert!(Language::R.handles("R"));
    assert!(!Language::Rust.handles("r"));
    assert!(Language::Haskell.handles("lhs"));
}

#[test]
fn markers_of_each_language() {
    let python = Language::Python.delimiters().unwrap();
    assert_eq!(python.line_comment, "#");
    assert_eq!(python.block_comment_open, "'''");
    assert_eq!(python.block_comment_close, "'''");
    let lua = Language::Lua.delimiters().unwrap();
    assert_eq!(
        (lua.line_comment.as_str(), lua.block_comment_open.as_str(), lua.block_comment_close.as_str()),
        ("--", "--[[", "]]")
    );
    let shell = Language::Shell.delimiters().unwrap();
    assert_eq!(
        (
            shell.line_comment.as_str(),
            shell.block_comment_open.as_str(),
            shell.block_comment_close.as_str()
        ),
        ("#", "", "")
    );
    let perl = Language::Perl.delimiters().unwrap();
    assert_eq!(perl.block_comment_open, "=pod");
    assert_eq!(perl.block_comment_close, "=cut");
    let julia = Language::Julia.delimiters().unwrap();
    assert_eq!(julia.block_comment_open, "#=");
    assert_eq!(julia.block_comment_close, "=#");
    for language in [Language::Java, Language::Go, Language::Dart, Language::Scala] {
        let d = language.delimiters().unwrap();
        assert_eq!(d.line_comment, "//");
        assert_eq!(d.block_comment_open, "/*");
        assert_eq!(d.block_comment_close, "*/");
    }
}

#[test]
fn languages_with_their_own_minifier_have_no_markers() {
    assert!(Language::Rust.delimiters().is_none());
    assert!(Language::JavaScript.delimiters().is_none());
    let with_markers = Language::ordered().iter().filter(|l| l.delimiters().is_some()).count();
    assert_eq!(with_markers, 21);
}

#[test]
fn rust_is_always_selected() {
    assert!(nothing_chosen().includes(Language::Rust));
    assert!(!nothing_chosen().includes(Language::Python));
    assert!(everything().includes(Language::Lua));
    let some = Selection { all: false, chosen: vec![Language::Go, Language::Perl] };
    assert!(some.includes(Language::Go));
    assert!(some.includes(Language::Perl));
    assert!(some.includes(Language::Rust));
    assert!(!some.includes(Language::JavaScript));
}

#[test]
fn one_extension_may_belong_to_two_languages() {
    assert_eq!(languages_for("m", &everything()), vec![Language::Cpp, Language::Matlab]);
    let only_matlab = Selection { all: false, chosen: vec![Language::Matlab] };
    assert_eq!(languages_for("m", &only_matlab), vec![Language::Matlab]);
}

#[test]
fn languages_for_goes_by_selection_and_extension() {
    assert_eq!(languages_for("rs", &nothing_chosen()), vec![Language::Rust]);
    assert_eq!(languages_for("py", &nothing_chosen()), Vec::<Language>::new());
    assert_eq!(languages_for("py", &everything()), vec![Language::Python]);
    assert_eq!(languages_for("js", &everything()), vec![Language::JavaScript]);
    assert_eq!(languages_for("txt", &everything()), Vec::<Language>::new());
    assert_eq!(languages_for("", &everything()), Vec::<Language>::new());
    let chosen = Selection { all: false, chosen: vec![Language::TypeScript] };
    assert_eq!(languages_for("tsx", &chosen), vec![Language::TypeScript]);
    assert_eq!(languages_for("kt", &chosen), Vec::<Language>::new());
}
