use vstd::prelude::*;

use crate::text::{chars_of, contains_seq, has_infix, has_prefix, nth_word, starts_with, string_of, words};

verus! {

/// The lines a file gained and lost.
pub struct CompactFileDiff {
    pub file: String,
    pub additions: Vec<String>,
    pub deletions: Vec<String>,
}

/// A file's changes as plain values.
pub struct DiffView {
    pub file: Seq<char>,
    pub additions: Seq<Seq<char>>,
    pub deletions: Seq<Seq<char>>,
}

pub open spec fn strings(v: Seq<String>) -> Seq<Seq<char>> {
    v.map_values(|s: String| s@)
}

pub open spec fn diff_view(d: CompactFileDiff) -> DiffView {
    DiffView { file: d.file@, additions: strings(d.additions@), deletions: strings(d.deletions@) }
}

pub open spec fn diffs_view(v: Seq<CompactFileDiff>) -> Seq<DiffView> {
    v.map_values(|d: CompactFileDiff| diff_view(d))
}

/// The first `n` items of `s`, or all of them where it has fewer.
pub open spec fn at_most<T>(s: Seq<T>, n: nat) -> Seq<T> {
    if s.len() <= n {
        s
    } else {
        s.take(n as int)
    }
}

/// Lock files (any file whose path holds "lock") keep five lines of each
/// kind when they changed more than ten; other files keep 150 of each when
/// they changed more than 300. A note marks the cut.
pub open spec fn truncated(d: DiffView) -> DiffView {
    let total = d.additions.len() + d.deletions.len();
    if has_infix(d.file, "lock"@) {
        if total > 10 {
            DiffView {
                file: d.file,
                additions: at_most(d.additions, 5).push("... (truncated lock file diff)"@),
                deletions: at_most(d.deletions, 5),
            }
        } else {
            d
        }
    } else if total > 300 {
        DiffView {
            file: d.file,
            additions: at_most(d.additions, 150).push("... (truncated large diff)"@),
            deletions: at_most(d.deletions, 150),
        }
    } else {
        d
    }
}

/// `done` with the file being read, if any, added after truncation; a file
/// without changed lines is left out.
pub open spec fn finalized(done: Seq<DiffView>, current: Option<DiffView>) -> Seq<DiffView> {
    match current {
        Some(d) => if d.additions.len() == 0 && d.deletions.len() == 0 {
            done
        } else {
            done.push(truncated(d))
        },
        None => done,
    }
}

/// `p` without a leading "a/".
pub open spec fn without_a(p: Seq<char>) -> Seq<char> {
    if has_prefix(p, "a/"@) {
        p.skip(2)
    } else {
        p
    }
}

/// Where the reading of a diff stands: the files finished and the one
/// being read.
pub struct ParseView {
    pub done: Seq<DiffView>,
    pub current: Option<DiffView>,
}

/// One line of `git diff --unified=0` output read. A "diff --git" line
/// finishes the current file and starts the one its third word names; a
/// line starting with "+" (not "+++") or "-" (not "---") is an added or
/// removed line of the current file; other lines are skipped.
pub open spec fn parse_line(st: ParseView, line: Seq<char>) -> ParseView {
    if has_prefix(line, "diff --git"@) {
        ParseView {
            done: finalized(st.done, st.current),
            current: if words(line).len() > 2 {
                Some(DiffView { file: without_a(words(line)[2]), additions: Seq::empty(), deletions: Seq::empty() })
            } else {
                None
            },
        }
    } else if has_prefix(line, "+"@) {
        match st.current {
            Some(d) => if has_prefix(line, "+++"@) {
                st
            } else {
                ParseView { current: Some(DiffView { additions: d.additions.push(line.drop_first()), ..d }), ..st }
            },
            None => st,
        }
    } else if has_prefix(line, "-"@) {
        match st.current {
            Some(d) => if has_prefix(line, "---"@) {
                st
            } else {
                ParseView { current: Some(DiffView { deletions: d.deletions.push(line.drop_first()), ..d }), ..st }
            },
            None => st,
        }
    } else {
        st
    }
}

/// The lines read in order.
pub open spec fn parse_lines(lines: Seq<Seq<char>>) -> ParseView
    decreases lines.len(),
{
    if lines.len() == 0 {
        ParseView { done: Seq::empty(), current: None }
    } else {
        parse_line(parse_lines(lines.drop_last()), lines.last())
    }
}

/// The files of a diff, each with its added and removed lines.
pub open spec fn parsed_diffs(lines: Seq<Seq<char>>) -> Seq<DiffView> {
    finalized(parse_lines(lines).done, parse_lines(lines).current)
}

/// Whether `a + b` exceeds `limit`.
fn sum_exceeds(a: usize, b: usize, limit: usize) -> (r: bool)
    ensures
        r == (a + b > limit),
{
    if a > limit {
        true
    } else {
        b > limit - a
    }
}

fn truncate_strings(v: &mut Vec<String>, n: usize)
    ensures
        strings(final(v)@) == at_most(strings(old(v)@), n as nat),
{
    if v.len() > n {
        v.truncate(n);
        proof {
            assert(strings(v@) =~= strings(old(v)@).take(n as int));
        }
    }
}

fn push_text(v: &mut Vec<String>, s: &str)
    ensures
        strings(final(v)@) == strings(old(v)@).push(s@),
{
    let c = chars_of(s);
    let t = string_of(&c, 0, c.len());
    proof {
        assert(c@.subrange(0, c@.len() as int) =~= c@);
    }
    v.push(t);
    proof {
        assert(strings(v@) =~= strings(old(v)@).push(s@));
    }
}

/// Applies the truncation rules to `diff_option` and adds it to `diffs`,
/// unless it is absent or has no changed lines.
pub fn finalize_and_push_diff(diff_option: Option<CompactFileDiff>, diffs: &mut Vec<CompactFileDiff>)
    ensures
        diffs_view(final(diffs)@) == finalized(
            diffs_view(old(diffs)@),
            match diff_option {
                Some(d) => Some(diff_view(d)),
                None => None,
            },
        ),
{
    if let Some(mut diff) = diff_option {
        if diff.additions.len() == 0 && diff.deletions.len() == 0 {
            return;
        }
        let ghost d0 = diff_view(diff);
        let file = chars_of(diff.file.as_str());
        let adds = diff.additions.len();
        let dels = diff.deletions.len();
        if contains_seq(&file, &chars_of("lock")) {
            if sum_exceeds(adds, dels, 10) {
                truncate_strings(&mut diff.additions, 5);
                truncate_strings(&mut diff.deletions, 5);
                push_text(&mut diff.additions, "... (truncated lock file diff)");
            }
        } else if sum_exceeds(adds, dels, 300) {
            truncate_strings(&mut diff.additions, 150);
            truncate_strings(&mut diff.deletions, 150);
            push_text(&mut diff.additions, "... (truncated large diff)");
        }
        proof {
            assert(diff_view(diff) == truncated(d0));
        }
        diffs.push(diff);
        proof {
            assert(diffs_view(diffs@) =~= diffs_view(old(diffs)@).push(truncated(d0)));
        }
    }
}

/// The files of the output of `git diff --unified=0`, given as its lines;
/// see `parse_line`.
pub fn parse_diff_to_compact_format(lines: &Vec<String>) -> (r: Vec<CompactFileDiff>)
    ensures
        diffs_view(r@) == parsed_diffs(strings(lines@)),
{
    let mut diffs: Vec<CompactFileDiff> = Vec::new();
    let mut current_file_diff: Option<CompactFileDiff> = None;
    let header = chars_of("diff --git");
    let plus = chars_of("+");
    let plus3 = chars_of("+++");
    let minus = chars_of("-");
    let minus3 = chars_of("---");
    let a_prefix = chars_of("a/");
    let mut i: usize = 0;
    while i < lines.len()
        invariant
            i <= lines@.len(),
            header@ == "diff --git"@,
            plus@ == "+"@,
            plus3@ == "+++"@,
            minus@ == "-"@,
            minus3@ == "---"@,
            a_prefix@ == "a/"@,
            ({
                let st = parse_lines(strings(lines@.take(i as int)));
                &&& diffs_view(diffs@) == st.done
                &&& match current_file_diff {
                    Some(d) => st.current == Some(diff_view(d)),
                    None => st.current is None,
                }
            }),
        decreases lines@.len() - i,
    {
        proof {
            reveal_strlit("+");
            reveal_strlit("-");
            reveal_strlit("a/");
            assert(strings(lines@.take(i + 1)).drop_last() =~= strings(lines@.take(i as int)));
        }
        let line = chars_of(lines[i].as_str());
        if starts_with(&line, &header) {
            let taken = current_file_diff;
            current_file_diff = None;
            finalize_and_push_diff(taken, &mut diffs);
            match nth_word(&line, 2) {
                Some(path) => {
                    let file = if starts_with(&path, &a_prefix) {
                        string_of(&path, 2, path.len())
                    } else {
                        string_of(&path, 0, path.len())
                    };
                    proof {
                        assert(path@.subrange(0, path@.len() as int) =~= path@);
                        assert(path@.subrange(2, path@.len() as int) =~= path@.skip(2));
                    }
                    let fresh = CompactFileDiff { file, additions: Vec::new(), deletions: Vec::new() };
                    proof {
                        assert(strings(fresh.additions@) =~= Seq::<Seq<char>>::empty());
                        assert(strings(fresh.deletions@) =~= Seq::<Seq<char>>::empty());
                    }
                    current_file_diff = Some(fresh);
                },
                None => {},
            }
        } else if starts_with(&line, &plus) {
            match &mut current_file_diff {
                Some(diff) => {
                    if !starts_with(&line, &plus3) {
                        let ghost before = strings(diff.additions@);
                        diff.additions.push(string_of(&line, 1, line.len()));
                        proof {
                            assert(line@.subrange(1, line@.len() as int) =~= line@.drop_first());
                            assert(strings(diff.additions@) =~= before.push(line@.drop_first()));
                        }
                    }
                },
                None => {},
            }
        } else if starts_with(&line, &minus) {
            match &mut current_file_diff {
                Some(diff) => {
                    if !starts_with(&line, &minus3) {
                        let ghost before = strings(diff.deletions@);
                        diff.deletions.push(string_of(&line, 1, line.len()));
                        proof {
                            assert(line@.subrange(1, line@.len() as int) =~= line@.drop_first());
                            assert(strings(diff.deletions@) =~= before.push(line@.drop_first()));
                        }
                    }
                },
                None => {},
            }
        }
        i += 1;
    }
    proof {
        assert(lines@.take(i as int) =~= lines@);
    }
    finalize_and_push_diff(current_file_diff, &mut diffs);
    diffs
}

} // verus!
