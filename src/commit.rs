use vstd::prelude::*;

use crate::text::{chars_of, chars_to_string, copy_chars, same_chars, words, words_of};

verus! {

/// The versions that a report of the shape `Version: OLD -> NEW` names;
/// "version" and "new_version" where the report has any other shape.
pub open spec fn reported_versions(out: Seq<char>) -> (Seq<char>, Seq<char>) {
    let w = words(out);
    if w.len() == 4 && w[0] == "Version:"@ && w[2] == "->"@ {
        (w[1], w[3])
    } else {
        ("version"@, "new_version"@)
    }
}

/// The old and new version named by the report of a version change; see
/// `reported_versions`.
pub fn version_report(output: &str) -> (r: (String, String))
    ensures
        (r.0@, r.1@) == reported_versions(output@),
{
    let text = chars_of(output);
    let ws = words_of(&text);
    proof {
        assert forall|k: int| 0 <= k < ws@.len() implies ws@.map_values(|w: Vec<char>| w@)[k] == (#[trigger] ws@[k])@ by {}
    }
    if ws.len() == 4 && same_chars(&ws[0], &chars_of("Version:")) && same_chars(&ws[2], &chars_of("->")) {
        (chars_to_string(&copy_chars(&ws[1])), chars_to_string(&copy_chars(&ws[3])))
    } else {
        (chars_to_string(&chars_of("version")), chars_to_string(&chars_of("new_version")))
    }
}

} // verus!
