//! The name of a project, read from the text of its manifest.

use vstd::prelude::*;
use vstd::string::StringExecFns;

verus! {

/// The manifest is not well-formed TOML; the message says where.
#[derive(Debug)]
pub struct ManifestError {
    pub message: String,
}

/// A parsed TOML value, `toml::Value`.
#[verifier::external_type_specification]
#[verifier::external_body]
pub struct ExTomlValue(toml::Value);

/// The error of the TOML parser, `toml::de::Error`.
#[verifier::external_type_specification]
#[verifier::external_body]
pub struct ExTomlError(toml::de::Error);

/// The strings that a TOML value holds, each under the path of table keys
/// that leads to it. The empty path leads to the value itself, where it is
/// a string. The path that begins with `k` and goes on with `p` leads where
/// `p` leads from the entry under `k`, where the value is a table that has
/// such an entry. Nothing inside an array is reached.
pub uninterp spec fn toml_strings(value: toml::Value) -> Map<Seq<Seq<char>>, Seq<char>>;

/// What `toml::from_str` makes of `contents`: `None` where it rejects the
/// text, else the strings of the document, each under its path.
pub uninterp spec fn toml_document(contents: Seq<char>) -> Option<Map<Seq<Seq<char>>, Seq<char>>>;

/// Of the strings of a value, those whose path begins with `key`, each under
/// the rest of its path.
pub open spec fn strings_under(strings: Map<Seq<Seq<char>>, Seq<char>>, key: Seq<char>) -> Map<
    Seq<Seq<char>>,
    Seq<char>,
> {
    Map::new(
        |path: Seq<Seq<char>>| strings.dom().contains(seq![key] + path),
        |path: Seq<Seq<char>>| strings[seq![key] + path],
    )
}

/// Parses `contents` as a TOML document, through `toml::from_str`. The
/// contract claims that whether the parser accepts a text, and which
/// strings the document then holds under which keys, depends on the text
/// alone.
#[verifier::external_body]
fn parse_toml(contents: &str) -> (parsed: Result<toml::Value, toml::de::Error>)
    ensures
        parsed is Ok <==> toml_document(contents@) is Some,
        parsed is Ok ==> toml_strings(parsed->Ok_0) == toml_document(contents@)->0,
{
    toml::from_str(contents)
}

/// The entry of a table under `key`, through `toml::Value::get`; `None`
/// where the value is no table or the table has no such key. The contract
/// claims that the strings of the entry are those that the value holds
/// under paths that begin with `key`, and that without an entry the value
/// holds none under such a path.
#[verifier::external_body]
fn toml_entry<'a>(value: &'a toml::Value, key: &str) -> (entry: Option<&'a toml::Value>)
    ensures
        strings_under(toml_strings(*value), key@) == match entry {
            Some(child) => toml_strings(*child),
            None => Map::empty(),
        },
{
    value.get(key)
}

/// The text of a value, through `toml::Value::as_str`; `None` where the
/// value is no string. The contract claims that the text is the string
/// that the value holds under the empty path, and that a value which is no
/// string holds none there.
#[verifier::external_body]
fn toml_text<'a>(value: &'a toml::Value) -> (text: Option<&'a str>)
    ensures
        match text {
            Some(t) => toml_strings(*value).dom().contains(Seq::empty()) && toml_strings(
                *value,
            )[Seq::empty()] == t@,
            None => !toml_strings(*value).dom().contains(Seq::empty()),
        },
{
    value.as_str()
}

/// The message of a parser error, through the `Display` of
/// `toml::de::Error`. Nothing is claimed of the result.
#[verifier::external_body]
fn toml_error_text(error: &toml::de::Error) -> (text: String) {
    error.to_string()
}

/// The name given to a project whose manifest names none.
pub open spec fn default_name() -> Seq<char> {
    "Unnamed Project"@
}

/// The name found in the manifest, or the default name where none was
/// found.
pub fn name_or_default(found: Option<&str>) -> (name: String)
    ensures
        name@ == match found {
            Some(text) => text@,
            None => default_name(),
        },
{
    match found {
        Some(text) => String::from_str(text),
        None => String::from_str("Unnamed Project"),
    }
}

/// The path of table keys under which a manifest holds the project's name.
pub open spec fn name_path() -> Seq<Seq<char>> {
    seq!["package"@, "name"@]
}

/// The name of a project, given the strings that its manifest holds: the
/// string under `package.name`, or the default name where there is none.
pub open spec fn name_in(strings: Map<Seq<Seq<char>>, Seq<char>>) -> Seq<char> {
    if strings.dom().contains(name_path()) {
        strings[name_path()]
    } else {
        default_name()
    }
}

/// The text under `package.name` in a parsed manifest, if there is one.
fn package_name<'a>(manifest: &'a toml::Value) -> (found: Option<&'a str>)
    ensures
        match found {
            Some(text) => toml_strings(*manifest).dom().contains(name_path()) && toml_strings(
                *manifest,
            )[name_path()] == text@,
            None => !toml_strings(*manifest).dom().contains(name_path()),
        },
{
    let ghost all = toml_strings(*manifest);
    let ghost inner = strings_under(all, "package"@);
    let ghost leaf = strings_under(inner, "name"@);
    proof {
        let rest = seq!["name"@] + Seq::<Seq<char>>::empty();
        assert(rest =~= seq!["name"@]);
        assert(seq!["package"@] + rest =~= name_path());
        assert(leaf.dom().contains(Seq::empty()) == inner.dom().contains(rest));
        assert(inner.dom().contains(rest) == all.dom().contains(name_path()));
        assert(leaf.dom().contains(Seq::empty()) ==> leaf[Seq::empty()] == all[name_path()]);
    }
    match toml_entry(manifest, "package") {
        Some(package) => match toml_entry(package, "name") {
            Some(name) => toml_text(name),
            None => None,
        },
        None => None,
    }
}

/// The name of the project whose manifest holds `manifest`, or that has no
/// manifest.
///
/// Without a manifest the project has the default name. With one, the name
/// is the string under `package.name`, or the default name where there is
/// none. Fails exactly when the manifest is not well-formed TOML.
pub fn project_name(manifest: Option<&str>) -> (r: Result<String, ManifestError>)
    ensures
        manifest is None ==> r is Ok && r->Ok_0@ == default_name(),
        manifest is Some ==> (r is Ok <==> toml_document(manifest->0@) is Some),
        manifest is Some && r is Ok ==> r->Ok_0@ == name_in(toml_document(manifest->0@)->0),
{
    match manifest {
        None => Ok(name_or_default(None)),
        Some(contents) => match parse_toml(contents) {
            Ok(parsed) => Ok(name_or_default(package_name(&parsed))),
            Err(error) => Err(ManifestError { message: toml_error_text(&error) }),
        },
    }
}

} // verus!
