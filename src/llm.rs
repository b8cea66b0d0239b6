use vstd::prelude::*;

use crate::text::{chars_of, string_of};

verus! {

/// The index of the first `c` in `s`.
pub open spec fn first_index(s: Seq<char>, c: char) -> Option<nat>
    decreases s.len(),
{
    if s.len() == 0 {
        None
    } else if s[0] == c {
        Some(0)
    } else {
        match first_index(s.drop_first(), c) {
            Some(i) => Some(i + 1),
            None => None,
        }
    }
}

/// The index of the last `c` in `s`.
pub open spec fn last_index(s: Seq<char>, c: char) -> Option<nat>
    decreases s.len(),
{
    if s.len() == 0 {
        None
    } else if s.last() == c {
        Some((s.len() - 1) as nat)
    } else {
        last_index(s.drop_last(), c)
    }
}

/// The text from the first `{` of `s` through its last `}`; `None` where
/// either is missing or the last `}` stands before the first `{`.
pub open spec fn json_span_of(s: Seq<char>) -> Option<Seq<char>> {
    match (first_index(s, '{'), last_index(s, '}')) {
        (Some(i), Some(j)) => if i <= j + 1 {
            Some(s.subrange(i as int, j + 1 as int))
        } else {
            None
        },
        _ => None,
    }
}

proof fn lemma_first_index(s: Seq<char>, c: char, i: int)
    requires
        0 <= i <= s.len(),
        forall|k: int| 0 <= k < i ==> s[k] != c,
        i < s.len() ==> s[i] == c,
    ensures
        first_index(s, c) == if i < s.len() {
            Some(i as nat)
        } else {
            None::<nat>
        },
    decreases i,
{
    if i > 0 {
        lemma_first_index(s.drop_first(), c, i - 1);
    }
}

proof fn lemma_last_index(s: Seq<char>, c: char, j: int)
    requires
        0 <= j <= s.len(),
        forall|k: int| j <= k < s.len() ==> s[k] != c,
        j > 0 ==> s[j - 1] == c,
    ensures
        last_index(s, c) == if j > 0 {
            Some((j - 1) as nat)
        } else {
            None::<nat>
        },
    decreases s.len(),
{
    if s.len() > 0 && j < s.len() {
        lemma_last_index(s.drop_last(), c, j);
    }
}

/// The JSON object that a model's reply holds; see `json_span_of`.
pub fn json_span(text: &str) -> (r: Option<String>)
    ensures
        match r {
            Some(t) => json_span_of(text@) == Some(t@),
            None => json_span_of(text@) is None,
        },
{
    let s = chars_of(text);
    let mut i: usize = 0;
    while i < s.len() && s[i] != '{'
        invariant
            i <= s@.len(),
            forall|k: int| 0 <= k < i ==> s@[k] != '{',
        decreases s@.len() - i,
    {
        i += 1;
    }
    let mut j: usize = s.len();
    while j > 0 && s[j - 1] != '}'
        invariant
            j <= s@.len(),
            forall|k: int| j <= k < s@.len() ==> s@[k] != '}',
        decreases j,
    {
        j -= 1;
    }
    proof {
        lemma_first_index(s@, '{', i as int);
        lemma_last_index(s@, '}', j as int);
    }
    if i < s.len() && j > 0 && i <= j {
        Some(string_of(&s, i, j))
    } else {
        None
    }
}

} // verus!
