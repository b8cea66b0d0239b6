use vstd::prelude::*;

use crate::text::{
    chars_of, contains_seq, has_infix, has_prefix, second_piece, second_piece_seq, split_once_at, split_once_char,
    split_second, split_second_seq, starts_with, chars_to_string, strip_both, strip_chars, trim_str, trimmed,
};
use crate::version::{dependency_line, get_updated_dependency_line, strings};

verus! {

/// Whether a trimmed line opens a comment.
pub open spec fn is_comment_start(t: Seq<char>) -> bool {
    has_prefix(t, "/*"@) || has_prefix(t, "//"@)
}

/// The lines of a source file with `header` as its first line and a blank
/// or comment line after it, and whether that changed anything. A comment
/// already on the first line is replaced; any other first line is kept
/// below the header.
pub open spec fn header_fixed(lines: Seq<Seq<char>>, header: Seq<char>) -> (Seq<Seq<char>>, bool) {
    if lines.len() == 0 {
        (seq![header, Seq::empty()], true)
    } else {
        let l1 = if lines[0] != header {
            seq![header] + if is_comment_start(trimmed(lines[0])) {
                lines.drop_first()
            } else {
                lines
            }
        } else {
            lines
        };
        let c1 = lines[0] != header;
        if l1.len() == 1 {
            (l1.push(Seq::empty()), true)
        } else {
            let second = trimmed(l1[1]);
            if second.len() > 0 && !is_comment_start(second) {
                (l1.insert(1, Seq::empty()), true)
            } else {
                (l1, c1)
            }
        }
    }
}

fn empty_string() -> (r: String)
    ensures
        r@ == Seq::<char>::empty(),
{
    String::new()
}

fn copy_string(s: &String) -> (r: String)
    ensures
        r@ == s@,
{
    s.clone()
}

fn trimmed_chars(s: &String) -> (r: Vec<char>)
    ensures
        r@ == trimmed(s@),
{
    chars_of(trim_str(s.as_str()))
}

fn opens_comment(t: &Vec<char>) -> (r: bool)
    ensures
        r == is_comment_start(t@),
{
    starts_with(t, &chars_of("/*")) || starts_with(t, &chars_of("//"))
}

/// Puts `header_comment` on the first line of `lines`; see `header_fixed`.
/// Returns whether the lines changed.
pub fn update_file_header(lines: &mut Vec<String>, header_comment: &String) -> (r: bool)
    ensures
        (strings(final(lines)@), r) == header_fixed(strings(old(lines)@), header_comment@),
{
    let ghost l0 = strings(lines@);
    if lines.len() == 0 {
        lines.push(copy_string(header_comment));
        lines.push(empty_string());
        proof {
            assert(strings(lines@) =~= seq![header_comment@, Seq::<char>::empty()]);
        }
        return true;
    }
    let mut needs_update = false;
    if lines[0] != *header_comment {
        let t = trimmed_chars(&lines[0]);
        if opens_comment(&t) {
            lines.remove(0);
            proof {
                assert(strings(lines@) =~= l0.drop_first());
            }
        }
        let ghost before = strings(lines@);
        lines.insert(0, copy_string(header_comment));
        proof {
            assert(strings(lines@) =~= seq![header_comment@] + before);
        }
        needs_update = true;
    }
    let ghost l1 = strings(lines@);
    proof {
        assert(l1 =~= (if l0[0] != header_comment@ {
            seq![header_comment@] + if is_comment_start(trimmed(l0[0])) {
                l0.drop_first()
            } else {
                l0
            }
        } else {
            l0
        }));
    }
    if lines.len() == 1 {
        lines.push(empty_string());
        proof {
            assert(strings(lines@) =~= l1.push(Seq::<char>::empty()));
        }
        return true;
    }
    let second = trimmed_chars(&lines[1]);
    if second.len() > 0 && !opens_comment(&second) {
        lines.insert(1, empty_string());
        proof {
            assert(strings(lines@) =~= l1.insert(1, Seq::<char>::empty()));
        }
        needs_update = true;
    }
    needs_update
}

} // verus!

verus! {

/// The version requirement of a dependency line's value, trimmed: the
/// quoted text after `version =` in a table, or the quoted text itself.
pub open spec fn requirement_of(value: Seq<char>) -> Option<Seq<char>> {
    if has_prefix(value, "{"@) {
        match second_piece_seq(value, "version ="@) {
            Some(vp) => second_piece(vp, '"'),
            None => None,
        }
    } else if has_prefix(value, "\""@) {
        Some(strip_both(value, seq!['"']))
    } else {
        None
    }
}

/// One line of a Cargo.toml, read inside a dependencies section or not: a
/// header naming "dependencies" opens such a section and any other header
/// closes it; inside one, a `key = value` line has its version requirement
/// shortened. Gives whether the next line is inside and the line to write.
pub open spec fn dependency_step(inside: bool, line: Seq<char>) -> (bool, Seq<char>) {
    let t = trimmed(line);
    if has_prefix(t, "["@) && has_infix(t, "dependencies"@) {
        (true, line)
    } else {
        let now = if has_prefix(t, "["@) {
            false
        } else {
            inside
        };
        if now && split_once_at(t, '=') is Some {
            let (_key, value) = split_once_at(t, '=')->0;
            match requirement_of(trimmed(value)) {
                Some(vs) => (now, dependency_line(line, vs)),
                None => (now, line),
            }
        } else {
            (now, line)
        }
    }
}

/// The lines of a Cargo.toml with every dependency's version requirement
/// shortened, and whether the next line would be inside a dependencies
/// section.
pub open spec fn dependency_scan(lines: Seq<Seq<char>>) -> (bool, Seq<Seq<char>>)
    decreases lines.len(),
{
    if lines.len() == 0 {
        (false, Seq::empty())
    } else {
        let (inside, out) = dependency_scan(lines.drop_last());
        let (next, line) = dependency_step(inside, lines.last());
        (next, out.push(line))
    }
}

/// The version requirement of a value; see `requirement_of`.
fn requirement(value: &Vec<char>) -> (r: Option<Vec<char>>)
    ensures
        match r {
            Some(v) => requirement_of(value@) == Some(v@),
            None => requirement_of(value@) is None,
        },
{
    if starts_with(value, &chars_of("{")) {
        let key = chars_of("version =");
        proof {
            reveal_strlit("version =");
        }
        match split_second_seq(value, &key) {
            Some(vp) => split_second(&vp, '"'),
            None => None,
        }
    } else if starts_with(value, &chars_of("\"")) {
        let quote = chars_of("\"");
        proof {
            reveal_strlit("\"");
            assert(quote@ =~= seq!['"']);
        }
        Some(strip_chars(value, &quote))
    } else {
        None
    }
}

/// The lines of a Cargo.toml with every dependency's version requirement
/// shortened (see `dependency_scan`), and whether any line changed.
pub fn check_rust_dependencies(lines: &Vec<String>) -> (r: (Vec<String>, bool))
    ensures
        strings(r.0@) == dependency_scan(strings(lines@)).1,
        r.1 == (strings(r.0@) != strings(lines@)),
{
    let bracket = chars_of("[");
    let section = chars_of("dependencies");
    let mut new_lines: Vec<String> = Vec::new();
    let mut inside = false;
    let mut modified = false;
    let mut i: usize = 0;
    while i < lines.len()
        invariant
            i <= lines@.len(),
            bracket@ == "["@,
            section@ == "dependencies"@,
            dependency_scan(strings(lines@.take(i as int))) == (inside, strings(new_lines@)),
            new_lines@.len() == i,
            modified == exists|k: int| 0 <= k < i && #[trigger] strings(new_lines@)[k] != lines@[k]@,
        decreases lines@.len() - i,
    {
        proof {
            assert(strings(lines@.take(i + 1)).drop_last() =~= strings(lines@.take(i as int)));
            assert(strings(lines@.take(i + 1)).last() == lines@[i as int]@);
        }
        let line = &lines[i];
        let t = trimmed_chars(line);
        let ghost before = strings(new_lines@);
        let ghost was_modified = modified;
        let out: String;
        if starts_with(&t, &bracket) && contains_seq(&t, &section) {
            inside = true;
            out = copy_string(line);
        } else {
            if starts_with(&t, &bracket) {
                inside = false;
            }
            let mut replaced: Option<String> = None;
            if inside {
                match split_once_char(&t, '=') {
                    Some((_key, value)) => {
                        let vt = trimmed_chars(&chars_to_string(&value));
                        match requirement(&vt) {
                            Some(vs) => {
                                replaced = Some(get_updated_dependency_line(line.as_str(), chars_to_string(&vs).as_str()));
                            },
                            None => {},
                        }
                    },
                    None => {},
                }
            }
            out = match replaced {
                Some(l) => l,
                None => copy_string(line),
            };
        }
        let same = out == *line;
        new_lines.push(out);
        proof {
            assert(strings(new_lines@) =~= before.push(new_lines@[i as int]@));
            assert(strings(new_lines@)[i as int] == new_lines@[i as int]@);
            assert forall|k: int| 0 <= k < i implies #[trigger] strings(new_lines@)[k] == before[k] by {}
        }
        proof {
            if !same {
                assert(strings(new_lines@)[i as int] != lines@[i as int]@);
            } else {
                assert(strings(new_lines@)[i as int] == lines@[i as int]@);
            }
        }
        if !same {
            modified = true;
        }
        proof {
            if was_modified {
                let k0 = choose|k: int| 0 <= k < i && #[trigger] before[k] != lines@[k]@;
                assert(strings(new_lines@)[k0] != lines@[k0]@);
            } else if same {
                assert forall|k: int| 0 <= k < i + 1 implies !(#[trigger] strings(new_lines@)[k] != lines@[k]@) by {
                    if k < i {
                        assert(!(before[k] != lines@[k]@));
                    }
                }
            }
        }
        i += 1;
    }
    proof {
        assert(lines@.take(i as int) =~= lines@);
        if modified {
            let k = choose|k: int| 0 <= k < i && #[trigger] strings(new_lines@)[k] != lines@[k]@;
            assert(strings(lines@)[k] == lines@[k]@);
        } else {
            assert(strings(new_lines@) =~= strings(lines@));
        }
    }
    (new_lines, modified)
}

} // verus!
