//! The document that holds the condensed files: a title, and one section
//! for each file with its text in a code fence.

use vstd::prelude::*;
use vstd::string::StringExecFns;

verus! {

/// The section for one file: a heading with its path, and its condensed
/// text in a code fence with the label of its language.
pub open spec fn section_text(path: Seq<char>, label: Seq<char>, body: Seq<char>) -> Seq<char> {
    "## "@ + path + "\n\n```"@ + label + "\n"@ + body + "\n```\n\n"@
}

/// The texts of `parts`, one after the other.
pub open spec fn joined(parts: Seq<Seq<char>>) -> Seq<char>
    decreases parts.len(),
{
    if parts.len() == 0 {
        Seq::empty()
    } else {
        joined(parts.drop_last()) + parts.last()
    }
}

/// The whole document: the title line with the project's name, an empty
/// line, the sections, and a last newline.
pub open spec fn document_text(name: Seq<char>, sections: Seq<Seq<char>>) -> Seq<char> {
    "# "@ + name + "\n\n"@ + joined(sections) + "\n"@
}

/// The views of the strings of `v`, in order.
pub open spec fn texts(v: Seq<String>) -> Seq<Seq<char>> {
    Seq::new(v.len(), |i: int| v[i]@)
}

/// Writes the section for one file.
pub fn section(path: &str, label: &str, body: &str) -> (out: String)
    ensures
        out@ == section_text(path@, label@, body@),
{
    let mut out = String::from_str("## ");
    out.append(path);
    out.append("\n\n```");
    out.append(label);
    out.append("\n");
    out.append(body);
    out.append("\n```\n\n");
    out
}

/// Writes the whole document.
pub fn document(name: &str, sections: &Vec<String>) -> (out: String)
    ensures
        out@ == document_text(name@, texts(sections@)),
{
    let mut out = String::from_str("# ");
    out.append(name);
    out.append("\n\n");
    let ghost head = out@;
    let mut i: usize = 0;
    assert(texts(sections@).take(0) =~= Seq::<Seq<char>>::empty());
    assert(head + joined(Seq::<Seq<char>>::empty()) =~= head);
    while i < sections.len()
        invariant
            i <= sections.len(),
            out@ == head + joined(texts(sections@).take(i as int)),
        decreases sections.len() - i,
    {
        out.append(sections[i].as_str());
        proof {
            let before = texts(sections@).take(i as int);
            let now = texts(sections@).take(i + 1);
            assert(now.drop_last() =~= before);
            assert(now.last() == sections@[i as int]@);
            assert(head + joined(before) + sections@[i as int]@ =~= head + joined(now));
        }
        i += 1;
    }
    assert(texts(sections@).take(sections.len() as int) =~= texts(sections@));
    out.append("\n");
    out
}

} // verus!
