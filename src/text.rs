use vstd::prelude::*;
use vstd::std_specs::iter::IteratorSpec;

verus! {

broadcast use vstd::string::next_postcondition;

/// Whether `c` has the Unicode White_Space property, which
/// `char::is_whitespace` and `str::trim` go by: 25 code points.
pub open spec fn is_white(c: char) -> bool {
    let u = c as u32;
    (0x09 <= u && u <= 0x0d) || u == 0x20 || u == 0x85 || u == 0xa0 || u == 0x1680 || (0x2000 <= u && u
        <= 0x200a) || u == 0x2028 || u == 0x2029 || u == 0x202f || u == 0x205f || u == 0x3000
}

/// Whether `c` has the White_Space property; see `is_white`.
pub fn char_is_whitespace(c: char) -> (r: bool)
    ensures
        r == is_white(c),
{
    let u = c as u32;
    (0x09 <= u && u <= 0x0d) || u == 0x20 || u == 0x85 || u == 0xa0 || u == 0x1680 || (0x2000 <= u && u
        <= 0x200a) || u == 0x2028 || u == 0x2029 || u == 0x202f || u == 0x205f || u == 0x3000
}

/// `s` without its leading white space.
pub open spec fn trim_start_of(s: Seq<char>) -> Seq<char>
    decreases s.len(),
{
    if s.len() > 0 && is_white(s[0]) {
        trim_start_of(s.drop_first())
    } else {
        s
    }
}

/// `s` without its trailing white space.
pub open spec fn trim_end_of(s: Seq<char>) -> Seq<char>
    decreases s.len(),
{
    if s.len() > 0 && is_white(s.last()) {
        trim_end_of(s.drop_last())
    } else {
        s
    }
}

/// `s` without its leading and trailing white space.
pub open spec fn trimmed(s: Seq<char>) -> Seq<char> {
    trim_end_of(trim_start_of(s))
}

/// Relies on str::trim: `s` without its leading and trailing characters
/// that have the White_Space property.
#[verifier::external_body]
pub(crate) fn trim_str(s: &str) -> (r: &str)
    ensures
        r@ == trimmed(s@),
{
    s.trim()
}

/// Whether every character of `s` is white space.
pub open spec fn blank(s: Seq<char>) -> bool {
    forall|i: int| 0 <= i < s.len() ==> is_white(#[trigger] s[i])
}

/// Whether every character of `s` is white space.
pub fn is_blank(s: &str) -> (r: bool)
    ensures
        r == blank(s@),
{
    let mut it = s.chars();
    let ghost all = s@;
    let ghost mut k: int = 0;
    loop
        invariant
            it.remaining() == all.skip(k),
            0 <= k <= all.len(),
            all == s@,
            forall|i: int| 0 <= i < k ==> is_white(#[trigger] all[i]),
        decreases all.len() - k,
    {
        match it.next() {
            Some(c) => {
                if !char_is_whitespace(c) {
                    return false;
                }
                proof {
                    k = k + 1;
                }
            },
            None => {
                return true;
            },
        }
    }
}

/// Whether `s` begins with `p`.
pub open spec fn has_prefix(s: Seq<char>, p: Seq<char>) -> bool {
    p.len() <= s.len() && s.take(p.len() as int) == p
}

/// Whether `p` occurs in `s`.
pub open spec fn has_infix(s: Seq<char>, p: Seq<char>) -> bool {
    exists|i: int| 0 <= i && i + p.len() <= s.len() && #[trigger] s.subrange(i, i + p.len()) == p
}

/// The words of `s`: its maximal runs of characters that are not white
/// space, in order.
pub open spec fn words(s: Seq<char>) -> Seq<Seq<char>>
    decreases s.len(),
{
    if s.len() == 0 {
        Seq::empty()
    } else {
        let w = words(s.drop_last());
        let c = s.last();
        if is_white(c) {
            w
        } else if s.len() >= 2 && !is_white(s[s.len() - 2]) {
            w.update(w.len() - 1, w.last().push(c))
        } else {
            w.push(seq![c])
        }
    }
}

/// The characters of `s`.
pub fn chars_of(s: &str) -> (r: Vec<char>)
    ensures
        r@ == s@,
{
    let mut it = s.chars();
    let ghost all = s@;
    let mut r: Vec<char> = Vec::new();
    loop
        invariant
            it.remaining() == all.skip(r@.len() as int),
            r@ == all.take(r@.len() as int),
            r@.len() <= all.len(),
            all == s@,
        decreases all.len() - r@.len(),
    {
        match it.next() {
            Some(c) => {
                proof {
                    assert(all.take(r@.len() + 1 as int) =~= r@.push(c));
                }
                r.push(c);
            },
            None => {
                proof {
                    assert(all.take(r@.len() as int) =~= all);
                }
                return r;
            },
        }
    }
}

/// Relies on String::push: the character is appended at the end.
#[verifier::external_body]
pub(crate) fn push_char(s: &mut String, c: char)
    ensures
        final(s)@ == old(s)@.push(c),
{
    s.push(c)
}

/// The characters `v[from..to]` as a string.
pub fn string_of(v: &Vec<char>, from: usize, to: usize) -> (r: String)
    requires
        from <= to <= v@.len(),
    ensures
        r@ == v@.subrange(from as int, to as int),
{
    let mut r = String::new();
    let mut i: usize = from;
    while i < to
        invariant
            from <= i <= to,
            to <= v@.len(),
            r@ == v@.subrange(from as int, i as int),
        decreases to - i,
    {
        push_char(&mut r, v[i]);
        proof {
            assert(v@.subrange(from as int, i + 1) =~= v@.subrange(from as int, i as int).push(v@[i as int]));
        }
        i += 1;
    }
    r
}

/// Whether `s` begins with `p`.
pub fn starts_with(s: &Vec<char>, p: &Vec<char>) -> (r: bool)
    ensures
        r == has_prefix(s@, p@),
{
    if p.len() > s.len() {
        return false;
    }
    let mut i: usize = 0;
    while i < p.len()
        invariant
            p@.len() <= s@.len(),
            i <= p@.len(),
            forall|k: int| 0 <= k < i ==> s@[k] == p@[k],
        decreases p@.len() - i,
    {
        if s[i] != p[i] {
            proof {
                assert(s@.take(p@.len() as int)[i as int] != p@[i as int]);
            }
            return false;
        }
        i += 1;
    }
    proof {
        assert(s@.take(p@.len() as int) =~= p@);
    }
    true
}

/// Whether `p` occurs in `s`.
pub fn contains_seq(s: &Vec<char>, p: &Vec<char>) -> (r: bool)
    ensures
        r == has_infix(s@, p@),
{
    if p.len() > s.len() {
        return false;
    }
    if p.len() == 0 {
        proof {
            assert(s@.subrange(0, 0 + p@.len() as int) =~= p@);
        }
        return true;
    }
    let n = s.len();
    let last = n - p.len();
    let end = n - (p.len() - 1);
    let mut i: usize = 0;
    while i < end
        invariant
            n == s@.len(),
            end == last + 1,
            p@.len() <= s@.len(),
            p@.len() > 0,
            last == s@.len() - p@.len(),
            i <= last + 1,
            forall|k: int| 0 <= k < i ==> #[trigger] s@.subrange(k, k + p@.len()) != p@,
        decreases last + 1 - i,
    {
        let mut j: usize = 0;
        let mut same = true;
        while j < p.len()
            invariant
                n == s@.len(),
                p@.len() <= s@.len(),
                i <= last,
                last == s@.len() - p@.len(),
                j <= p@.len(),
                same == forall|k: int| 0 <= k < j ==> s@[i + k] == p@[k],
            decreases p@.len() - j,
        {
            if s[i + j] != p[j] {
                same = false;
            }
            j += 1;
        }
        if same {
            proof {
                assert(s@.subrange(i as int, i + p@.len()) =~= p@);
            }
            return true;
        }
        proof {
            let k = choose|k: int| 0 <= k < p@.len() && s@[i + k] != p@[k];
            assert(s@.subrange(i as int, i + p@.len())[k] != p@[k]);
        }
        i += 1;
    }
    false
}

/// The words of `s`; see `words`.
pub fn words_of(s: &Vec<char>) -> (r: Vec<Vec<char>>)
    ensures
        r@.map_values(|w: Vec<char>| w@) == words(s@),
{
    let mut ws: Vec<Vec<char>> = Vec::new();
    let mut i: usize = 0;
    while i < s.len()
        invariant
            i <= s@.len(),
            ws@.map_values(|w: Vec<char>| w@) == words(s@.take(i as int)),
        decreases s@.len() - i,
    {
        let c = s[i];
        let ghost before = ws@.map_values(|w: Vec<char>| w@);
        proof {
            assert(s@.take(i + 1).drop_last() =~= s@.take(i as int));
        }
        if char_is_whitespace(c) {
        } else if i >= 1 && !char_is_whitespace(s[i - 1]) {
            proof {
                lemma_words_end_in_word(s@.take(i as int));
            }
            let mut w = ws.pop().unwrap();
            w.push(c);
            ws.push(w);
            proof {
                assert(ws@.map_values(|w: Vec<char>| w@) =~= before.update(before.len() - 1, before.last().push(c)));
            }
        } else {
            let mut fresh: Vec<char> = Vec::new();
            fresh.push(c);
            ws.push(fresh);
            proof {
                assert(fresh@ =~= seq![c]);
                assert(ws@.map_values(|w: Vec<char>| w@) =~= before.push(seq![c]));
            }
        }
        i += 1;
    }
    proof {
        assert(s@.take(i as int) =~= s@);
    }
    ws
}

/// A copy of `v`.
pub fn copy_chars(v: &Vec<char>) -> (r: Vec<char>)
    ensures
        r@ == v@,
{
    let mut out: Vec<char> = Vec::new();
    let mut k: usize = 0;
    while k < v.len()
        invariant
            k <= v@.len(),
            out@ == v@.take(k as int),
        decreases v@.len() - k,
    {
        out.push(v[k]);
        proof {
            assert(v@.take(k + 1) =~= v@.take(k as int).push(v@[k as int]));
        }
        k += 1;
    }
    proof {
        assert(v@.take(k as int) =~= v@);
    }
    out
}

/// Word `n` of `s` (counting from zero), if it has that many.
pub fn nth_word(s: &Vec<char>, n: usize) -> (r: Option<Vec<char>>)
    ensures
        match r {
            Some(w) => n < words(s@).len() && w@ == words(s@)[n as int],
            None => n >= words(s@).len(),
        },
{
    let ws = words_of(s);
    if n < ws.len() {
        proof {
            assert(ws@.map_values(|w: Vec<char>| w@)[n as int] == ws@[n as int]@);
        }
        Some(copy_chars(&ws[n]))
    } else {
        None
    }
}

/// A text ending in a character that is not white space ends in a word.
proof fn lemma_words_end_in_word(s: Seq<char>)
    requires
        s.len() > 0,
        !is_white(s.last()),
    ensures
        words(s).len() > 0,
    decreases s.len(),
{
    let w = words(s.drop_last());
    if s.len() >= 2 && !is_white(s[s.len() - 2]) {
        assert(s.drop_last().last() == s[s.len() - 2]);
        lemma_words_end_in_word(s.drop_last());
    }
}

} // verus!

verus! {

/// `s` without the leading characters that `strip` holds.
pub open spec fn strip_start(s: Seq<char>, strip: Seq<char>) -> Seq<char>
    decreases s.len(),
{
    if s.len() > 0 && strip.contains(s[0]) {
        strip_start(s.drop_first(), strip)
    } else {
        s
    }
}

/// `s` without the trailing characters that `strip` holds.
pub open spec fn strip_end(s: Seq<char>, strip: Seq<char>) -> Seq<char>
    decreases s.len(),
{
    if s.len() > 0 && strip.contains(s.last()) {
        strip_end(s.drop_last(), strip)
    } else {
        s
    }
}

/// `s` without the leading and trailing characters that `strip` holds.
pub open spec fn strip_both(s: Seq<char>, strip: Seq<char>) -> Seq<char> {
    strip_end(strip_start(s, strip), strip)
}

/// The text between the first `sep` of `s` and the next one (or the end);
/// `None` where `s` holds no `sep`.
pub open spec fn second_piece(s: Seq<char>, sep: char) -> Option<Seq<char>>
    decreases s.len(),
{
    if s.len() == 0 {
        None
    } else if s[0] == sep {
        Some(first_piece(s.drop_first(), sep))
    } else {
        second_piece(s.drop_first(), sep)
    }
}

/// The text of `s` before its first `sep`, or all of it.
pub open spec fn first_piece(s: Seq<char>, sep: char) -> Seq<char>
    decreases s.len(),
{
    if s.len() == 0 || s[0] == sep {
        Seq::empty()
    } else {
        seq![s[0]] + first_piece(s.drop_first(), sep)
    }
}

/// `s` with every occurrence of `from`, read left to right without overlap,
/// replaced by `to`.
pub open spec fn replace_all(s: Seq<char>, from: Seq<char>, to: Seq<char>) -> Seq<char>
    recommends
        from.len() > 0,
    decreases s.len(),
{
    if s.len() == 0 || from.len() == 0 {
        s
    } else if has_prefix(s, from) {
        to + replace_all(s.skip(from.len() as int), from, to)
    } else {
        seq![s[0]] + replace_all(s.drop_first(), from, to)
    }
}

/// `s` without the leading and trailing characters that `strip` holds.
pub fn strip_chars(s: &Vec<char>, strip: &Vec<char>) -> (r: Vec<char>)
    ensures
        r@ == strip_both(s@, strip@),
{
    let mut start: usize = 0;
    proof {
        assert(s@.skip(0) =~= s@);
    }
    while start < s.len() && contains_char(strip, s[start])
        invariant
            start <= s@.len(),
            strip_start(s@.skip(start as int), strip@) == strip_start(s@, strip@),
        decreases s@.len() - start,
    {
        proof {
            assert(s@.skip(start as int).drop_first() =~= s@.skip(start + 1));
        }
        start += 1;
    }
    proof {
        assert(strip_start(s@.skip(start as int), strip@) == s@.skip(start as int));
    }
    let mut end: usize = s.len();
    while end > start && contains_char(strip, s[end - 1])
        invariant
            start <= end <= s@.len(),
            strip_end(s@.subrange(start as int, end as int), strip@) == strip_end(s@.skip(start as int), strip@),
        decreases end,
    {
        proof {
            assert(s@.subrange(start as int, end as int).drop_last() =~= s@.subrange(start as int, end - 1));
        }
        end -= 1;
    }
    proof {
        assert(s@.skip(start as int) =~= s@.subrange(start as int, s@.len() as int));
    }
    let mut r: Vec<char> = Vec::new();
    let mut k: usize = start;
    while k < end
        invariant
            start <= k <= end,
            end <= s@.len(),
            r@ == s@.subrange(start as int, k as int),
        decreases end - k,
    {
        r.push(s[k]);
        proof {
            assert(s@.subrange(start as int, k + 1) =~= s@.subrange(start as int, k as int).push(s@[k as int]));
        }
        k += 1;
    }
    r
}

/// Whether `c` occurs in `v`.
pub fn contains_char(v: &Vec<char>, c: char) -> (r: bool)
    ensures
        r == v@.contains(c),
{
    let mut i: usize = 0;
    while i < v.len()
        invariant
            i <= v@.len(),
            forall|k: int| 0 <= k < i ==> v@[k] != c,
        decreases v@.len() - i,
    {
        if v[i] == c {
            return true;
        }
        i += 1;
    }
    false
}

/// The text between the first `sep` of `s` and the next one (or the end).
pub fn split_second(s: &Vec<char>, sep: char) -> (r: Option<Vec<char>>)
    ensures
        match r {
            Some(p) => second_piece(s@, sep) == Some(p@),
            None => second_piece(s@, sep) is None,
        },
{
    let mut i: usize = 0;
    proof {
        assert(s@.skip(0) =~= s@);
    }
    while i < s.len() && s[i] != sep
        invariant
            i <= s@.len(),
            second_piece(s@.skip(i as int), sep) == second_piece(s@, sep),
        decreases s@.len() - i,
    {
        proof {
            assert(s@.skip(i as int).drop_first() =~= s@.skip(i + 1));
        }
        i += 1;
    }
    if i == s.len() {
        return None;
    }
    proof {
        assert(s@.skip(i as int).drop_first() =~= s@.skip(i + 1));
    }
    let mut r: Vec<char> = Vec::new();
    let mut k: usize = i + 1;
    while k < s.len() && s[k] != sep
        invariant
            i < k <= s@.len(),
            r@ + first_piece(s@.skip(k as int), sep) == first_piece(s@.skip(i + 1), sep),
        decreases s@.len() - k,
    {
        proof {
            assert(s@.skip(k as int).drop_first() =~= s@.skip(k + 1));
            assert(r@.push(s@[k as int]) + first_piece(s@.skip(k + 1), sep) =~= r@ + (seq![s@[k as int]] + first_piece(s@.skip(k + 1), sep)));
        }
        r.push(s[k]);
        k += 1;
    }
    proof {
        assert(first_piece(s@.skip(k as int), sep) == Seq::<char>::empty());
        assert(r@ + Seq::<char>::empty() =~= r@);
    }
    Some(r)
}

/// `s` with every occurrence of `from` replaced by `to`; see `replace_all`.
pub fn replace_chars(s: &Vec<char>, from: &Vec<char>, to: &Vec<char>) -> (r: Vec<char>)
    requires
        from@.len() > 0,
    ensures
        r@ == replace_all(s@, from@, to@),
{
    let mut r: Vec<char> = Vec::new();
    let mut i: usize = 0;
    proof {
        assert(s@.skip(0) =~= s@);
        assert(r@ + replace_all(s@, from@, to@) =~= replace_all(s@, from@, to@));
    }
    while i < s.len()
        invariant
            i <= s@.len(),
            from@.len() > 0,
            r@ + replace_all(s@.skip(i as int), from@, to@) == replace_all(s@, from@, to@),
        decreases s@.len() - i,
    {
        let ghost rest = s@.skip(i as int);
        if matches_at(s, i, from) {
            proof {
                assert(rest.take(from@.len() as int) =~= s@.subrange(i as int, i + from@.len()));
                assert(rest.skip(from@.len() as int) =~= s@.skip(i + from@.len()));
                assert(r@ + to@ + replace_all(s@.skip(i + from@.len()), from@, to@) =~= r@ + (to@ + replace_all(
                    s@.skip(i + from@.len()),
                    from@,
                    to@,
                )));
            }
            let mut k: usize = 0;
            let ghost r0 = r@;
            while k < to.len()
                invariant
                    k <= to@.len(),
                    r@ == r0 + to@.take(k as int),
                decreases to@.len() - k,
            {
                r.push(to[k]);
                proof {
                    assert(r0 + to@.take(k + 1) =~= (r0 + to@.take(k as int)).push(to@[k as int]));
                }
                k += 1;
            }
            proof {
                assert(to@.take(k as int) =~= to@);
            }
            i += from.len();
        } else {
            proof {
                if from@.len() <= rest.len() {
                    assert(rest.take(from@.len() as int) =~= s@.subrange(i as int, i + from@.len()));
                }
                assert(rest.drop_first() =~= s@.skip(i + 1));
                assert(r@.push(s@[i as int]) + replace_all(s@.skip(i + 1), from@, to@) =~= r@ + (seq![s@[i as int]]
                    + replace_all(s@.skip(i + 1), from@, to@)));
            }
            r.push(s[i]);
            i += 1;
        }
    }
    proof {
        assert(replace_all(s@.skip(i as int), from@, to@) == Seq::<char>::empty());
        assert(r@ + Seq::<char>::empty() =~= r@);
    }
    r
}

/// Whether `p` occurs in `s` at position `i`.
fn matches_at(s: &Vec<char>, i: usize, p: &Vec<char>) -> (r: bool)
    requires
        i <= s@.len(),
    ensures
        r == (i + p@.len() <= s@.len() && s@.subrange(i as int, i + p@.len()) == p@),
{
    let n = s.len();
    if p.len() > n - i {
        return false;
    }
    let mut j: usize = 0;
    while j < p.len()
        invariant
            n == s@.len(),
            i + p@.len() <= s@.len(),
            j <= p@.len(),
            forall|k: int| 0 <= k < j ==> s@[i + k] == p@[k],
        decreases p@.len() - j,
    {
        if s[i + j] != p[j] {
            proof {
                assert(s@.subrange(i as int, i + p@.len())[j as int] != p@[j as int]);
            }
            return false;
        }
        j += 1;
    }
    proof {
        assert(s@.subrange(i as int, i + p@.len()) =~= p@);
    }
    true
}

} // verus!

verus! {

/// The text of `s` before the first occurrence of `sep`, or all of it.
pub open spec fn before_seq(s: Seq<char>, sep: Seq<char>) -> Seq<char>
    decreases s.len(),
{
    if s.len() == 0 || (sep.len() > 0 && has_prefix(s, sep)) {
        Seq::empty()
    } else {
        seq![s[0]] + before_seq(s.drop_first(), sep)
    }
}

/// The text between the first occurrence of `sep` in `s` and the next one
/// (or the end); `None` where `sep` does not occur.
pub open spec fn second_piece_seq(s: Seq<char>, sep: Seq<char>) -> Option<Seq<char>>
    decreases s.len(),
{
    if sep.len() > 0 && has_prefix(s, sep) {
        Some(before_seq(s.skip(sep.len() as int), sep))
    } else if s.len() == 0 {
        None
    } else {
        second_piece_seq(s.drop_first(), sep)
    }
}

/// The text of `s` before and after its first `sep`; `None` where it has
/// none.
pub open spec fn split_once_at(s: Seq<char>, sep: char) -> Option<(Seq<char>, Seq<char>)>
    decreases s.len(),
{
    if s.len() == 0 {
        None
    } else if s[0] == sep {
        Some((Seq::empty(), s.drop_first()))
    } else {
        match split_once_at(s.drop_first(), sep) {
            Some((a, b)) => Some((seq![s[0]] + a, b)),
            None => None,
        }
    }
}

/// The text between the first occurrence of `sep` in `s` and the next one.
pub fn split_second_seq(s: &Vec<char>, sep: &Vec<char>) -> (r: Option<Vec<char>>)
    requires
        sep@.len() > 0,
    ensures
        match r {
            Some(p) => second_piece_seq(s@, sep@) == Some(p@),
            None => second_piece_seq(s@, sep@) is None,
        },
{
    let mut i: usize = 0;
    proof {
        assert(s@.skip(0) =~= s@);
    }
    while i < s.len() && !matches_at(s, i, sep)
        invariant
            i <= s@.len(),
            sep@.len() > 0,
            second_piece_seq(s@.skip(i as int), sep@) == second_piece_seq(s@, sep@),
        decreases s@.len() - i,
    {
        proof {
            let rest = s@.skip(i as int);
            if sep@.len() <= rest.len() {
                assert(rest.take(sep@.len() as int) =~= s@.subrange(i as int, i + sep@.len()));
            }
            assert(rest.drop_first() =~= s@.skip(i + 1));
        }
        i += 1;
    }
    if i == s.len() {
        proof {
            let rest = s@.skip(i as int);
            assert(rest.len() == 0);
            assert(!has_prefix(rest, sep@));
        }
        return None;
    }
    let start = i + sep.len();
    proof {
        let rest = s@.skip(i as int);
        assert(rest.take(sep@.len() as int) =~= s@.subrange(i as int, i + sep@.len()));
        assert(rest.skip(sep@.len() as int) =~= s@.skip(start as int));
    }
    let mut r: Vec<char> = Vec::new();
    let mut k: usize = start;
    proof {
        assert(r@ + before_seq(s@.skip(k as int), sep@) =~= before_seq(s@.skip(start as int), sep@));
    }
    while k < s.len() && !matches_at(s, k, sep)
        invariant
            start <= k <= s@.len(),
            sep@.len() > 0,
            r@ + before_seq(s@.skip(k as int), sep@) == before_seq(s@.skip(start as int), sep@),
        decreases s@.len() - k,
    {
        proof {
            let rest = s@.skip(k as int);
            if sep@.len() <= rest.len() {
                assert(rest.take(sep@.len() as int) =~= s@.subrange(k as int, k + sep@.len()));
            }
            assert(rest.drop_first() =~= s@.skip(k + 1));
            assert(r@.push(s@[k as int]) + before_seq(s@.skip(k + 1), sep@) =~= r@ + (seq![s@[k as int]] + before_seq(
                s@.skip(k + 1),
                sep@,
            )));
        }
        r.push(s[k]);
        k += 1;
    }
    proof {
        let rest = s@.skip(k as int);
        if k < s@.len() {
            assert(rest.take(sep@.len() as int) =~= s@.subrange(k as int, k + sep@.len()));
        }
        assert(before_seq(rest, sep@) == Seq::<char>::empty());
        assert(r@ + Seq::<char>::empty() =~= r@);
    }
    Some(r)
}

/// The text of `s` before and after its first `sep`.
pub fn split_once_char(s: &Vec<char>, sep: char) -> (r: Option<(Vec<char>, Vec<char>)>)
    ensures
        match r {
            Some((a, b)) => split_once_at(s@, sep) == Some((a@, b@)),
            None => split_once_at(s@, sep) is None,
        },
{
    let mut i: usize = 0;
    while i < s.len() && s[i] != sep
        invariant
            i <= s@.len(),
            forall|k: int| 0 <= k < i ==> s@[k] != sep,
        decreases s@.len() - i,
    {
        i += 1;
    }
    proof {
        lemma_split_once(s@, sep, i as int);
    }
    if i == s.len() {
        None
    } else {
        let mut a: Vec<char> = Vec::new();
        let mut k: usize = 0;
        while k < i
            invariant
                k <= i,
                i < s@.len(),
                a@ == s@.take(k as int),
            decreases i - k,
        {
            a.push(s[k]);
            proof {
                assert(s@.take(k + 1) =~= s@.take(k as int).push(s@[k as int]));
            }
            k += 1;
        }
        let mut b: Vec<char> = Vec::new();
        let mut m: usize = i + 1;
        while m < s.len()
            invariant
                i < m <= s@.len(),
                b@ == s@.subrange(i + 1, m as int),
            decreases s@.len() - m,
        {
            b.push(s[m]);
            proof {
                assert(s@.subrange(i + 1, m + 1) =~= s@.subrange(i + 1, m as int).push(s@[m as int]));
            }
            m += 1;
        }
        proof {
            assert(b@ =~= s@.skip(i + 1));
        }
        Some((a, b))
    }
}

/// Where the first `sep` of `s` stands at `i`, `split_once_at` cuts there.
proof fn lemma_split_once(s: Seq<char>, sep: char, i: int)
    requires
        0 <= i <= s.len(),
        forall|k: int| 0 <= k < i ==> s[k] != sep,
        i < s.len() ==> s[i] == sep,
    ensures
        i == s.len() ==> split_once_at(s, sep) is None,
        i < s.len() ==> split_once_at(s, sep) == Some((s.take(i), s.skip(i + 1))),
    decreases i,
{
    if i > 0 {
        lemma_split_once(s.drop_first(), sep, i - 1);
        if i < s.len() {
            assert(seq![s[0]] + s.drop_first().take(i - 1) =~= s.take(i));
            assert(s.drop_first().skip(i) =~= s.skip(i + 1));
        }
    } else if i < s.len() {
        assert(s.take(0) =~= Seq::<char>::empty());
    }
}

} // verus!

verus! {

/// The characters of `v` as a string.
pub fn chars_to_string(v: &Vec<char>) -> (r: String)
    ensures
        r@ == v@,
{
    let r = string_of(v, 0, v.len());
    proof {
        assert(v@.subrange(0, v@.len() as int) =~= v@);
    }
    r
}

/// Whether `a` and `b` hold the same characters.
pub fn same_chars(a: &Vec<char>, b: &Vec<char>) -> (r: bool)
    ensures
        r == (a@ == b@),
{
    if a.len() != b.len() {
        return false;
    }
    let mut i: usize = 0;
    while i < a.len()
        invariant
            a@.len() == b@.len(),
            i <= a@.len(),
            forall|k: int| 0 <= k < i ==> a@[k] == b@[k],
        decreases a@.len() - i,
    {
        if a[i] != b[i] {
            return false;
        }
        i += 1;
    }
    proof {
        assert(a@ =~= b@);
    }
    true
}

/// Appends the characters of `s` to `r`.
pub fn append_chars(r: &mut Vec<char>, s: &Vec<char>)
    ensures
        final(r)@ == old(r)@ + s@,
{
    let mut k: usize = 0;
    while k < s.len()
        invariant
            k <= s@.len(),
            r@ == old(r)@ + s@.take(k as int),
        decreases s@.len() - k,
    {
        r.push(s[k]);
        proof {
            assert(old(r)@ + s@.take(k + 1) =~= (old(r)@ + s@.take(k as int)).push(s@[k as int]));
        }
        k += 1;
    }
    proof {
        assert(s@.take(k as int) =~= s@);
    }
}

} // verus!
