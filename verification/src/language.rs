//! The languages that can be condensed: for each its file extensions, the
//! label of its code fence, and its comment markers.

use vstd::prelude::*;
use crate::strip::{DelimiterSet, Markers};
use crate::text::same_text;

verus! {

/// A language whose files can be condensed, in the order in which a file is
/// tried against them.
#[derive(Clone, Copy, Debug, PartialEq, Eq, Structural)]
pub enum Language {
    Rust,
    JavaScript,
    Python,
    Java,
    Cpp,
    CSharp,
    Php,
    Ruby,
    Swift,
    TypeScript,
    Kotlin,
    Go,
    R,
    Matlab,
    VbNet,
    Scala,
    Perl,
    Dart,
    Groovy,
    Julia,
    Haskell,
    Shell,
    Lua,
}

impl Language {
    /// Every language, in the order in which a file is tried against them.
    pub open spec fn order() -> Seq<Language> {
        seq![
            Language::Rust,
            Language::JavaScript,
            Language::Python,
            Language::Java,
            Language::Cpp,
            Language::CSharp,
            Language::Php,
            Language::Ruby,
            Language::Swift,
            Language::TypeScript,
            Language::Kotlin,
            Language::Go,
            Language::R,
            Language::Matlab,
            Language::VbNet,
            Language::Scala,
            Language::Perl,
            Language::Dart,
            Language::Groovy,
            Language::Julia,
            Language::Haskell,
            Language::Shell,
            Language::Lua,
        ]
    }

    /// The label of the code fence that holds a file of this language.
    pub open spec fn label_text(self) -> Seq<char> {
        match self {
            Language::Rust => "rust"@,
            Language::JavaScript => "javascript"@,
            Language::Python => "python"@,
            Language::Java => "java"@,
            Language::Cpp => "c/c++/obj-c"@,
            Language::CSharp => "csharp"@,
            Language::Php => "php"@,
            Language::Ruby => "ruby"@,
            Language::Swift => "swift"@,
            Language::TypeScript => "typescript"@,
            Language::Kotlin => "kotlin"@,
            Language::Go => "go"@,
            Language::R => "r"@,
            Language::Matlab => "matlab"@,
            Language::VbNet => "vbnet"@,
            Language::Scala => "scala"@,
            Language::Perl => "perl"@,
            Language::Dart => "dart"@,
            Language::Groovy => "groovy"@,
            Language::Julia => "julia"@,
            Language::Haskell => "haskell"@,
            Language::Shell => "bash"@,
            Language::Lua => "lua"@,
        }
    }

    /// The extensions of the files of this language.
    pub open spec fn extension_texts(self) -> Seq<Seq<char>> {
        match self {
            Language::Rust => seq!["rs"@],
            Language::JavaScript => seq!["js"@],
            Language::Python => seq!["py"@, "pyw"@],
            Language::Java => seq!["java"@],
            Language::Cpp => seq!["cpp"@, "hpp"@, "cc"@, "hh"@, "cxx"@, "hxx"@, "c"@, "h"@, "m"@, "mm"@],
            Language::CSharp => seq!["cs"@],
            Language::Php => seq!["php"@],
            Language::Ruby => seq!["rb"@],
            Language::Swift => seq!["swift"@],
            Language::TypeScript => seq!["ts"@, "tsx"@],
            Language::Kotlin => seq!["kt"@, "kts"@],
            Language::Go => seq!["go"@],
            Language::R => seq!["r"@, "R"@],
            Language::Matlab => seq!["m"@],
            Language::VbNet => seq!["vb"@],
            Language::Scala => seq!["scala"@],
            Language::Perl => seq!["pl"@, "pm"@],
            Language::Dart => seq!["dart"@],
            Language::Groovy => seq!["groovy"@, "gvy"@, "gy"@, "gsh"@],
            Language::Julia => seq!["jl"@],
            Language::Haskell => seq!["hs"@, "lhs"@],
            Language::Shell => seq!["sh"@, "bash"@],
            Language::Lua => seq!["lua"@],
        }
    }

    /// A file with the extension `ext` is of this language.
    pub open spec fn handles_text(self, ext: Seq<char>) -> bool {
        self.extension_texts().contains(ext)
    }

    /// The comment markers of this language, as three texts: line marker,
    /// block opener, block closer. A language that is condensed by a
    /// minifier of its own has none.
    pub open spec fn marker_texts(self) -> Option<Markers> {
        match self {
            Language::Rust => None,
            Language::JavaScript => None,
            Language::Python => Some(Markers { line: "#"@, open: "'''"@, close: "'''"@ }),
            Language::Java => Some(Markers { line: "//"@, open: "/*"@, close: "*/"@ }),
            Language::Cpp => Some(Markers { line: "//"@, open: "/*"@, close: "*/"@ }),
            Language::CSharp => Some(Markers { line: "//"@, open: "/*"@, close: "*/"@ }),
            Language::Php => Some(Markers { line: "//"@, open: "/*"@, close: "*/"@ }),
            Language::Ruby => Some(Markers { line: "#"@, open: "=begin"@, close: "=end"@ }),
            Language::Swift => Some(Markers { line: "//"@, open: "/*"@, close: "*/"@ }),
            Language::TypeScript => Some(Markers { line: "//"@, open: "/*"@, close: "*/"@ }),
            Language::Kotlin => Some(Markers { line: "//"@, open: "/*"@, close: "*/"@ }),
            Language::Go => Some(Markers { line: "//"@, open: "/*"@, close: "*/"@ }),
            Language::R => Some(Markers { line: "#"@, open: ""@, close: ""@ }),
            Language::Matlab => Some(Markers { line: "%"@, open: "%{"@, close: "%}"@ }),
            Language::VbNet => Some(Markers { line: "'"@, open: ""@, close: ""@ }),
            Language::Scala => Some(Markers { line: "//"@, open: "/*"@, close: "*/"@ }),
            Language::Perl => Some(Markers { line: "#"@, open: "=pod"@, close: "=cut"@ }),
            Language::Dart => Some(Markers { line: "//"@, open: "/*"@, close: "*/"@ }),
            Language::Groovy => Some(Markers { line: "//"@, open: "/*"@, close: "*/"@ }),
            Language::Julia => Some(Markers { line: "#"@, open: "#="@, close: "=#"@ }),
            Language::Haskell => Some(Markers { line: "--"@, open: "{-"@, close: "-}"@ }),
            Language::Shell => Some(Markers { line: "#"@, open: ""@, close: ""@ }),
            Language::Lua => Some(Markers { line: "--"@, open: "--[["@, close: "]]"@ }),
        }
    }

    /// Every language, in the order in which a file is tried against them.
    pub fn ordered() -> (all: Vec<Language>)
        ensures
            all@ == Language::order(),
    {
        let all = vec![
            Language::Rust,
            Language::JavaScript,
            Language::Python,
            Language::Java,
            Language::Cpp,
            Language::CSharp,
            Language::Php,
            Language::Ruby,
            Language::Swift,
            Language::TypeScript,
            Language::Kotlin,
            Language::Go,
            Language::R,
            Language::Matlab,
            Language::VbNet,
            Language::Scala,
            Language::Perl,
            Language::Dart,
            Language::Groovy,
            Language::Julia,
            Language::Haskell,
            Language::Shell,
            Language::Lua,
        ];
        assert(all@ =~= Language::order());
        all
    }

    /// The label of the code fence that holds a file of this language.
    pub fn label(self) -> (text: &'static str)
        ensures
            text@ == self.label_text(),
    {
        match self {
            Language::Rust => "rust",
            Language::JavaScript => "javascript",
            Language::Python => "python",
            Language::Java => "java",
            Language::Cpp => "c/c++/obj-c",
            Language::CSharp => "csharp",
            Language::Php => "php",
            Language::Ruby => "ruby",
            Language::Swift => "swift",
            Language::TypeScript => "typescript",
            Language::Kotlin => "kotlin",
            Language::Go => "go",
            Language::R => "r",
            Language::Matlab => "matlab",
            Language::VbNet => "vbnet",
            Language::Scala => "scala",
            Language::Perl => "perl",
            Language::Dart => "dart",
            Language::Groovy => "groovy",
            Language::Julia => "julia",
            Language::Haskell => "haskell",
            Language::Shell => "bash",
            Language::Lua => "lua",
        }
    }

    /// The extensions of the files of this language.
    pub fn extensions(self) -> (exts: Vec<&'static str>)
        ensures
            exts@.len() == self.extension_texts().len(),
            forall|i: int| 0 <= i < exts@.len() ==> (#[trigger] exts@[i])@ == self.extension_texts()[i],
    {
        match self {
            Language::Rust => vec!["rs"],
            Language::JavaScript => vec!["js"],
            Language::Python => vec!["py", "pyw"],
            Language::Java => vec!["java"],
            Language::Cpp => vec!["cpp", "hpp", "cc", "hh", "cxx", "hxx", "c", "h", "m", "mm"],
            Language::CSharp => vec!["cs"],
            Language::Php => vec!["php"],
            Language::Ruby => vec!["rb"],
            Language::Swift => vec!["swift"],
            Language::TypeScript => vec!["ts", "tsx"],
            Language::Kotlin => vec!["kt", "kts"],
            Language::Go => vec!["go"],
            Language::R => vec!["r", "R"],
            Language::Matlab => vec!["m"],
            Language::VbNet => vec!["vb"],
            Language::Scala => vec!["scala"],
            Language::Perl => vec!["pl", "pm"],
            Language::Dart => vec!["dart"],
            Language::Groovy => vec!["groovy", "gvy", "gy", "gsh"],
            Language::Julia => vec!["jl"],
            Language::Haskell => vec!["hs", "lhs"],
            Language::Shell => vec!["sh", "bash"],
            Language::Lua => vec!["lua"],
        }
    }

    /// Whether a file with the extension `ext` is of this language.
    pub fn handles(self, ext: &str) -> (yes: bool)
        ensures
            yes == self.handles_text(ext@),
    {
        let exts = self.extensions();
        let mut i: usize = 0;
        while i < exts.len()
            invariant
                i <= exts.len(),
                exts@.len() == self.extension_texts().len(),
                forall|j: int|
                    0 <= j < exts@.len() ==> (#[trigger] exts@[j])@ == self.extension_texts()[j],
                forall|j: int| 0 <= j < i ==> self.extension_texts()[j] != ext@,
            decreases exts.len() - i,
        {
            if same_text(exts[i], ext) {
                assert(self.extension_texts()[i as int] == ext@);
                return true;
            }
            i += 1;
        }
        false
    }

    /// The comment markers of this language; none for a language that is
    /// condensed by a minifier of its own.
    pub fn delimiters(self) -> (found: Option<DelimiterSet>)
        ensures
            found is Some == self.marker_texts() is Some,
            found is Some ==> found->0@ == self.marker_texts()->0,
    {
        match self {
            Language::Rust => None,
            Language::JavaScript => None,
            Language::Python => Some(DelimiterSet::new("#", "'''", "'''")),
            Language::Java => Some(DelimiterSet::new("//", "/*", "*/")),
            Language::Cpp => Some(DelimiterSet::new("//", "/*", "*/")),
            Language::CSharp => Some(DelimiterSet::new("//", "/*", "*/")),
            Language::Php => Some(DelimiterSet::new("//", "/*", "*/")),
            Language::Ruby => Some(DelimiterSet::new("#", "=begin", "=end")),
            Language::Swift => Some(DelimiterSet::new("//", "/*", "*/")),
            Language::TypeScript => Some(DelimiterSet::new("//", "/*", "*/")),
            Language::Kotlin => Some(DelimiterSet::new("//", "/*", "*/")),
            Language::Go => Some(DelimiterSet::new("//", "/*", "*/")),
            Language::R => Some(DelimiterSet::new("#", "", "")),
            Language::Matlab => Some(DelimiterSet::new("%", "%{", "%}")),
            Language::VbNet => Some(DelimiterSet::new("'", "", "")),
            Language::Scala => Some(DelimiterSet::new("//", "/*", "*/")),
            Language::Perl => Some(DelimiterSet::new("#", "=pod", "=cut")),
            Language::Dart => Some(DelimiterSet::new("//", "/*", "*/")),
            Language::Groovy => Some(DelimiterSet::new("//", "/*", "*/")),
            Language::Julia => Some(DelimiterSet::new("#", "#=", "=#")),
            Language::Haskell => Some(DelimiterSet::new("--", "{-", "-}")),
            Language::Shell => Some(DelimiterSet::new("#", "", "")),
            Language::Lua => Some(DelimiterSet::new("--", "--[[", "]]")),
        }
    }
}

/// Which languages are to be condensed: all of them, or the chosen ones.
/// Rust is condensed in either case.
#[derive(Clone, Debug)]
pub struct Selection {
    pub all: bool,
    pub chosen: Vec<Language>,
}

impl Selection {
    /// Files of `language` are to be condensed.
    pub open spec fn admits(&self, language: Language) -> bool {
        language == Language::Rust || self.all || self.chosen@.contains(language)
    }

    /// Whether files of `language` are to be condensed.
    pub fn includes(&self, language: Language) -> (yes: bool)
        ensures
            yes == self.admits(language),
    {
        if language == Language::Rust || self.all {
            return true;
        }
        let mut i: usize = 0;
        while i < self.chosen.len()
            invariant
                i <= self.chosen.len(),
                forall|j: int| 0 <= j < i ==> self.chosen@[j] != language,
            decreases self.chosen.len() - i,
        {
            if self.chosen[i] == language {
                return true;
            }
            i += 1;
        }
        false
    }
}

/// The languages as which a file with the extension `ext` is to be
/// condensed: those that the selection admits and that have this extension,
/// in the order of the languages.
pub open spec fn languages_for_text(ext: Seq<char>, selection: Selection) -> Seq<Language> {
    Language::order().filter(|l: Language| selection.admits(l) && l.handles_text(ext))
}

/// The languages as which a file with the extension `ext` is to be
/// condensed. A file may be of several, and is then condensed once as each.
pub fn languages_for(ext: &str, selection: &Selection) -> (found: Vec<Language>)
    ensures
        found@ == languages_for_text(ext@, *selection),
{
    let all = Language::ordered();
    let ghost wanted = |l: Language| selection.admits(l) && l.handles_text(ext@);
    let mut found: Vec<Language> = Vec::new();
    let mut i: usize = 0;
    assert(all@.take(0).filter(wanted) =~= Seq::<Language>::empty());
    while i < all.len()
        invariant
            i <= all.len(),
            all@ == Language::order(),
            wanted == |l: Language| selection.admits(l) && l.handles_text(ext@),
            found@ == all@.take(i as int).filter(wanted),
        decreases all.len() - i,
    {
        let language = all[i];
        proof {
            let now = all@.take(i + 1);
            assert(now.drop_last() =~= all@.take(i as int));
            assert(now.last() == language);
            reveal(Seq::filter);
        }
        if selection.includes(language) && language.handles(ext) {
            found.push(language);
        }
        i += 1;
    }
    assert(all@.take(all.len() as int) =~= all@);
    found
}

} // verus!
