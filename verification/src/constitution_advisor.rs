//! What a constitution suggestion run reports, and the parts of the
//! suggested YAML document that are text rather than numbers.
use vstd::prelude::*;
use crate::graph::{escape_dot, spec_escape_dot};

verus! {

/// Where the suggested constitution was written, over how many runs, and
/// whether the diversity sentinel warned.
#[derive(Debug, Clone)]
pub struct SuggestConstitutionSummary {
    pub output_path: String,
    pub requested_last_n: usize,
    pub selected_run_count: usize,
    pub diversity_warn: bool,
}

/// A YAML double-quoted scalar: backslashes and double quotes escaped with a
/// backslash, the whole in double quotes.
pub open spec fn spec_yaml_quote(value: Seq<char>) -> Seq<char> {
    seq!['"'] + spec_escape_dot(value) + seq!['"']
}

/// Quotes `value` as a YAML double-quoted scalar.
pub fn yaml_quote(value: &str) -> (out: String)
    ensures
        out@ == spec_yaml_quote(value@),
{
    let mut out = String::new();
    crate::text::push_char(&mut out, '"');
    let esc = escape_dot(value);
    out.append(esc.as_str());
    crate::text::push_char(&mut out, '"');
    proof {
        assert(out@ =~= spec_yaml_quote(value@));
    }
    out
}

/// The note lines of a suggestion document, one quoted item per note.
pub open spec fn note_lines(notes: Seq<String>) -> Seq<char>
    decreases notes.len(),
{
    if notes.len() == 0 {
        Seq::empty()
    } else {
        note_lines(notes.drop_last()) + "  - "@ + spec_yaml_quote(notes.last()@) + "\n"@
    }
}

/// The closing `notes:` block of a suggestion document.
pub fn notes_yaml(notes: &Vec<String>) -> (out: String)
    ensures
        out@ == "notes:\n"@ + note_lines(notes@),
{
    let mut out = crate::text::to_owned_string("notes:\n");
    let ghost head = out@;
    let mut i: usize = 0;
    while i < notes.len()
        invariant
            i <= notes@.len(),
            head == "notes:\n"@,
            out@ == head + note_lines(notes@.take(i as int)),
        decreases notes@.len() - i,
    {
        out.append("  - ");
        let q = yaml_quote(notes[i].as_str());
        out.append(q.as_str());
        out.append("\n");
        proof {
            let t = notes@.take(i + 1);
            assert(t.drop_last() =~= notes@.take(i as int));
            assert(out@ =~= head + note_lines(t));
        }
        i += 1;
    }
    assert(notes@.take(notes@.len() as int) =~= notes@);
    out
}

} // verus!
