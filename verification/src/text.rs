//! Text as a sequence of characters.
//!
//! Every rule of the crate that reads or writes text is stated over
//! `Seq<char>`, the view of `str` and `String`. This module holds the
//! vocabulary those rules share (lines, trimming, splitting, joining) together
//! with the executable functions that compute it on character slices.

use vstd::prelude::*;
use vstd::string::*;

verus! {

/// `String::push` appends one character to the end of the string.
pub assume_specification[ String::push ](s: &mut String, c: char)
    ensures
        final(s)@ == old(s)@.push(c),
;

/// The characters with the Unicode property `White_Space`.
pub open spec fn is_white(c: char) -> bool {
    let n = c as u32;
    ||| 0x9 <= n <= 0xd
    ||| n == 0x20
    ||| n == 0x85
    ||| n == 0xa0
    ||| n == 0x1680
    ||| 0x2000 <= n <= 0x200a
    ||| n == 0x2028
    ||| n == 0x2029
    ||| n == 0x202f
    ||| n == 0x205f
    ||| n == 0x3000
}

/// True for a character with the Unicode property `White_Space`.
pub fn is_white_space(c: char) -> (r: bool)
    ensures
        r == is_white(c),
{
    let n: u32 = c as u32;
    (0x9 <= n && n <= 0xd) || n == 0x20 || n == 0x85 || n == 0xa0 || n == 0x1680 || (0x2000 <= n
        && n <= 0x200a) || n == 0x2028 || n == 0x2029 || n == 0x202f || n == 0x205f || n == 0x3000
}

/// `s` without its leading white space.
pub open spec fn trimmed_start(s: Seq<char>) -> Seq<char>
    decreases s.len(),
{
    if s.len() > 0 && is_white(s[0]) {
        trimmed_start(s.skip(1))
    } else {
        s
    }
}

/// `s` without its trailing white space.
pub open spec fn trimmed_end(s: Seq<char>) -> Seq<char>
    decreases s.len(),
{
    if s.len() > 0 && is_white(s.last()) {
        trimmed_end(s.drop_last())
    } else {
        s
    }
}

/// `s` without leading and trailing white space.
pub open spec fn trimmed(s: Seq<char>) -> Seq<char> {
    trimmed_end(trimmed_start(s))
}

/// Position of the first `c` in `s`, or `s.len()` when there is none.
pub open spec fn first_index(s: Seq<char>, c: char) -> int
    decreases s.len(),
{
    if s.len() == 0 || s[0] == c {
        0
    } else {
        1 + first_index(s.skip(1), c)
    }
}

/// `s` starts with `p`.
pub open spec fn starts(s: Seq<char>, p: Seq<char>) -> bool {
    p.len() <= s.len() && s.take(p.len() as int) == p
}

/// What follows the prefix `p` of `s`, when `s` has that prefix.
pub open spec fn after_prefix(s: Seq<char>, p: Seq<char>) -> Option<Seq<char>> {
    if starts(s, p) {
        Some(s.skip(p.len() as int))
    } else {
        None
    }
}

/// The text before and after the first `c` of `s`, when `s` has one.
pub open spec fn split_pair(s: Seq<char>, c: char) -> Option<(Seq<char>, Seq<char>)> {
    let i = first_index(s, c);
    if i < s.len() {
        Some((s.take(i), s.skip(i + 1)))
    } else {
        None
    }
}

/// The stretches of `s` between the occurrences of `c`: one more than there
/// are occurrences.
pub open spec fn fields(s: Seq<char>, c: char) -> Seq<Seq<char>>
    decreases s.len(),
{
    let i = first_index(s, c);
    if 0 <= i < s.len() {
        seq![s.take(i)] + fields(s.skip(i + 1), c)
    } else {
        seq![s]
    }
}

/// A line as written, without the carriage return of a `"\r\n"` ending.
pub open spec fn without_cr(s: Seq<char>) -> Seq<char> {
    if s.len() > 0 && s.last() == '\r' {
        s.drop_last()
    } else {
        s
    }
}

/// The lines of `s`: each ends with `"\n"` or `"\r\n"`, which is not part of
/// it; the ending of the last line is optional.
pub open spec fn lines_of(s: Seq<char>) -> Seq<Seq<char>>
    decreases s.len(),
{
    let i = first_index(s, '\n');
    if s.len() == 0 {
        Seq::empty()
    } else if 0 <= i < s.len() {
        seq![without_cr(s.take(i))] + lines_of(s.skip(i + 1))
    } else {
        seq![s]
    }
}

/// The parts one after another, with `sep` between neighbours.
pub open spec fn joined(parts: Seq<Seq<char>>, sep: Seq<char>) -> Seq<char>
    decreases parts.len(),
{
    if parts.len() == 0 {
        Seq::empty()
    } else if parts.len() == 1 {
        parts[0]
    } else {
        joined(parts.drop_last(), sep) + sep + parts.last()
    }
}

/// The parts one after another.
pub open spec fn concatenated(parts: Seq<Seq<char>>) -> Seq<char>
    decreases parts.len(),
{
    if parts.len() == 0 {
        Seq::empty()
    } else {
        concatenated(parts.drop_last()) + parts.last()
    }
}

/// ASCII capital letters in lower case, every other character unchanged.
pub open spec fn lower_char(c: char) -> char {
    if 'A' <= c <= 'Z' {
        ((c as u8) + 32) as u8 as char
    } else {
        c
    }
}

/// `s` with its ASCII capital letters in lower case.
pub open spec fn lowered(s: Seq<char>) -> Seq<char> {
    s.map_values(|c: char| lower_char(c))
}

/// `s` with every occurrence of the nonempty text `p`, found from left to
/// right without overlaps, replaced by `w`.
pub open spec fn replaced(s: Seq<char>, p: Seq<char>, w: Seq<char>) -> Seq<char>
    decreases s.len(),
{
    if s.len() == 0 || p.len() == 0 {
        s
    } else if starts(s, p) {
        w + replaced(s.skip(p.len() as int), p, w)
    } else {
        seq![s[0]] + replaced(s.skip(1), p, w)
    }
}

/// The views of a vector of slices.
pub open spec fn slice_views(v: Seq<&[char]>) -> Seq<Seq<char>> {
    Seq::new(v.len(), |i: int| v[i]@)
}

/// The views of a vector of strings.
pub open spec fn string_views(v: Seq<String>) -> Seq<Seq<char>> {
    Seq::new(v.len(), |i: int| v[i]@)
}

/// Concatenation is associative.
pub broadcast proof fn lemma_concat_assoc(a: Seq<char>, b: Seq<char>, c: Seq<char>)
    ensures
        #[trigger] (a + (b + c)) == (a + b) + c,
{
    assert(a + (b + c) =~= (a + b) + c);
}

/// The empty text adds nothing.
pub broadcast proof fn lemma_concat_empty(a: Seq<char>)
    ensures
        #[trigger] (a + Seq::<char>::empty()) == a,
{
    assert(a + Seq::<char>::empty() =~= a);
}

/// The characters of `s`.
pub fn chars_of(s: &str) -> (r: Vec<char>)
    ensures
        r@ == s@,
{
    let mut out: Vec<char> = Vec::new();
    for c in it: s.chars()
        invariant
            out@ == it.seq().take(it.index() as int),
            it.seq() == s@,
    {
        out.push(c);
    }
    out
}

/// Appends the characters of `s` to `out`.
pub fn push_chars(out: &mut String, s: &[char])
    ensures
        final(out)@ == old(out)@ + s@,
{
    let ghost before = out@;
    for i in 0..s.len()
        invariant
            out@ == before + s@.take(i as int),
    {
        out.push(s[i]);
    }
    assert(s@.take(s@.len() as int) == s@);
}

/// The string with the characters of `s`.
pub fn text_of(s: &[char]) -> (r: String)
    ensures
        r@ == s@,
{
    let mut out = String::new();
    push_chars(&mut out, s);
    out
}

/// True when both slices hold the same characters.
pub fn same_chars(a: &[char], b: &[char]) -> (r: bool)
    ensures
        r == (a@ == b@),
{
    if a.len() != b.len() {
        return false;
    }
    for i in 0..a.len()
        invariant
            a@.len() == b@.len(),
            forall|j: int| 0 <= j < i ==> a@[j] == b@[j],
    {
        if a[i] != b[i] {
            return false;
        }
    }
    assert(a@ =~= b@);
    true
}

/// True when both strings hold the same characters.
pub fn same_text(a: &str, b: &str) -> (r: bool)
    ensures
        r == (a@ == b@),
{
    same_chars(&chars_of(a), &chars_of(b))
}

pub proof fn lemma_trimmed_start_skip(s: Seq<char>, k: int)
    requires
        0 <= k <= s.len(),
        forall|j: int| 0 <= j < k ==> is_white(#[trigger] s[j]),
    ensures
        trimmed_start(s) == trimmed_start(s.skip(k)),
    decreases k,
{
    if k == 0 {
        assert(s.skip(0) == s);
    } else {
        let t = s.skip(1);
        assert forall|j: int| 0 <= j < k - 1 implies is_white(#[trigger] t[j]) by {
            assert(t[j] == s[j + 1]);
        }
        lemma_trimmed_start_skip(t, k - 1);
        assert(t.skip(k - 1) == s.skip(k));
        assert(is_white(s[0]));
    }
}

pub proof fn lemma_trimmed_end_take(s: Seq<char>, k: int)
    requires
        0 <= k <= s.len(),
        forall|j: int| k <= j < s.len() ==> is_white(#[trigger] s[j]),
    ensures
        trimmed_end(s) == trimmed_end(s.take(k)),
    decreases s.len() - k,
{
    if k == s.len() {
        assert(s.take(k) == s);
    } else {
        let t = s.drop_last();
        lemma_trimmed_end_take(t, k);
        assert(t.take(k) == s.take(k));
        assert(is_white(s[s.len() - 1]));
    }
}

/// The part of `s` after its leading white space.
pub fn trim_start<'a>(s: &'a [char]) -> (r: &'a [char])
    ensures
        r@ == trimmed_start(s@),
{
    let mut i: usize = 0;
    while i < s.len() && is_white_space(s[i])
        invariant
            i <= s.len(),
            forall|j: int| 0 <= j < i ==> is_white(#[trigger] s@[j]),
        decreases s.len() - i,
    {
        i += 1;
    }
    proof {
        lemma_trimmed_start_skip(s@, i as int);
        assert(s@.subrange(i as int, s@.len() as int) == s@.skip(i as int));
    }
    &s[i..s.len()]
}

/// The part of `s` before its trailing white space.
pub fn trim_end<'a>(s: &'a [char]) -> (r: &'a [char])
    ensures
        r@ == trimmed_end(s@),
{
    let mut i: usize = s.len();
    while i > 0 && is_white_space(s[i - 1])
        invariant
            i <= s.len(),
            forall|j: int| i <= j < s.len() ==> is_white(#[trigger] s@[j]),
        decreases i,
    {
        i -= 1;
    }
    proof {
        lemma_trimmed_end_take(s@, i as int);
        assert(s@.subrange(0, i as int) == s@.take(i as int));
    }
    &s[0..i]
}

/// The part of `s` between its leading and trailing white space.
pub fn trim<'a>(s: &'a [char]) -> (r: &'a [char])
    ensures
        r@ == trimmed(s@),
{
    trim_end(trim_start(s))
}

pub proof fn lemma_first_index(s: Seq<char>, c: char)
    ensures
        0 <= first_index(s, c) <= s.len(),
        first_index(s, c) < s.len() ==> s[first_index(s, c)] == c,
        forall|j: int| 0 <= j < first_index(s, c) ==> #[trigger] s[j] != c,
    decreases s.len(),
{
    if s.len() > 0 && s[0] != c {
        let t = s.skip(1);
        lemma_first_index(t, c);
        assert forall|j: int| 0 <= j < first_index(s, c) implies #[trigger] s[j] != c by {
            if j > 0 {
                assert(t[j - 1] == s[j]);
            }
        }
    }
}

pub proof fn lemma_first_index_is(s: Seq<char>, c: char, i: int)
    requires
        0 <= i <= s.len(),
        forall|j: int| 0 <= j < i ==> #[trigger] s[j] != c,
        i < s.len() ==> s[i] == c,
    ensures
        first_index(s, c) == i,
{
    lemma_first_index(s, c);
    let k = first_index(s, c);
    if k < i {
        assert(s[k] != c);
    } else if i < k {
        assert(s[i] != c);
    }
}

/// Position of the first `c` in `s`, or `s.len()` when there is none.
pub fn find_char(s: &[char], c: char) -> (r: usize)
    ensures
        r as int == first_index(s@, c),
        r <= s@.len(),
{
    let mut i: usize = 0;
    while i < s.len() && s[i] != c
        invariant
            i <= s.len(),
            forall|j: int| 0 <= j < i ==> #[trigger] s@[j] != c,
        decreases s.len() - i,
    {
        i += 1;
    }
    proof {
        lemma_first_index_is(s@, c, i as int);
    }
    i
}

/// True when `s` starts with `p`.
pub fn has_prefix(s: &[char], p: &[char]) -> (r: bool)
    ensures
        r == starts(s@, p@),
{
    if s.len() < p.len() {
        return false;
    }
    proof {
        assert(s@.subrange(0, p@.len() as int) == s@.take(p@.len() as int));
    }
    same_chars(&s[0..p.len()], p)
}

/// What follows the prefix `p` of `s`, when `s` has that prefix.
pub fn strip_prefix<'a>(s: &'a [char], p: &[char]) -> (r: Option<&'a [char]>)
    ensures
        match r {
            Some(rest) => after_prefix(s@, p@) == Some(rest@),
            None => after_prefix(s@, p@) is None,
        },
{
    if has_prefix(s, p) {
        proof {
            assert(s@.subrange(p@.len() as int, s@.len() as int) == s@.skip(p@.len() as int));
        }
        Some(&s[p.len()..s.len()])
    } else {
        None
    }
}

/// The text before and after the first `c` of `s`, when `s` has one.
pub fn split_once<'a>(s: &'a [char], c: char) -> (r: Option<(&'a [char], &'a [char])>)
    ensures
        match r {
            Some((a, b)) => split_pair(s@, c) == Some((a@, b@)),
            None => split_pair(s@, c) is None,
        },
{
    let i: usize = find_char(s, c);
    if i < s.len() {
        proof {
            assert(s@.subrange(0, i as int) == s@.take(i as int));
            assert(s@.subrange(i + 1, s@.len() as int) == s@.skip(i + 1));
        }
        Some((&s[0..i], &s[i + 1..s.len()]))
    } else {
        None
    }
}

/// The stretches of `s` between the occurrences of `c`.
pub fn split_on<'a>(s: &'a [char], c: char) -> (r: Vec<&'a [char]>)
    ensures
        slice_views(r@) == fields(s@, c),
        r@.len() >= 1,
{
    let mut out: Vec<&'a [char]> = Vec::new();
    let mut rest: &'a [char] = s;
    assert(slice_views(out@) + fields(rest@, c) == fields(s@, c));
    loop
        invariant
            slice_views(out@) + fields(rest@, c) == fields(s@, c),
        decreases rest@.len(),
    {
        let i: usize = find_char(rest, c);
        let ghost before = slice_views(out@);
        if i < rest.len() {
            let head: &'a [char] = &rest[0..i];
            let tail: &'a [char] = &rest[i + 1..rest.len()];
            out.push(head);
            proof {
                assert(head@ == rest@.take(i as int));
                assert(tail@ == rest@.skip(i + 1));
                assert(slice_views(out@) == before.push(head@));
                assert(before + (seq![head@] + fields(tail@, c)) == before.push(head@) + fields(
                    tail@,
                    c,
                ));
            }
            rest = tail;
        } else {
            out.push(rest);
            proof {
                assert(slice_views(out@) == before.push(rest@));
                assert(before + seq![rest@] == before.push(rest@));
            }
            return out;
        }
    }
}

/// The lines of `s`.
pub fn split_lines<'a>(s: &'a [char]) -> (r: Vec<&'a [char]>)
    ensures
        slice_views(r@) == lines_of(s@),
{
    let mut out: Vec<&'a [char]> = Vec::new();
    let mut rest: &'a [char] = s;
    assert(slice_views(out@) + lines_of(rest@) == lines_of(s@));
    while rest.len() > 0
        invariant
            slice_views(out@) + lines_of(rest@) == lines_of(s@),
        decreases rest@.len(),
    {
        let i: usize = find_char(rest, '\n');
        let ghost before = slice_views(out@);
        if i < rest.len() {
            let end: usize = if i > 0 && rest[i - 1] == '\r' {
                i - 1
            } else {
                i
            };
            let head: &'a [char] = &rest[0..end];
            let tail: &'a [char] = &rest[i + 1..rest.len()];
            out.push(head);
            proof {
                assert(head@ == without_cr(rest@.take(i as int)));
                assert(tail@ == rest@.skip(i + 1));
                assert(slice_views(out@) == before.push(head@));
                assert(before + (seq![head@] + lines_of(tail@)) == before.push(head@) + lines_of(
                    tail@,
                ));
            }
            rest = tail;
        } else {
            out.push(rest);
            proof {
                assert(slice_views(out@) == before.push(rest@));
                assert(before + seq![rest@] == before.push(rest@));
            }
            rest = &rest[rest.len()..rest.len()];
        }
    }
    assert(slice_views(out@) + Seq::empty() == slice_views(out@));
    out
}

/// `c` in lower case when it is an ASCII capital letter.
pub fn to_lower_char(c: char) -> (r: char)
    ensures
        r == lower_char(c),
{
    if 'A' <= c && c <= 'Z' {
        (c as u8 + 32) as char
    } else {
        c
    }
}

/// `s` with its ASCII capital letters in lower case.
pub fn to_lower(s: &[char]) -> (r: Vec<char>)
    ensures
        r@ == lowered(s@),
{
    let mut out: Vec<char> = Vec::new();
    for i in 0..s.len()
        invariant
            out@ == lowered(s@).take(i as int),
    {
        out.push(to_lower_char(s[i]));
    }
    assert(lowered(s@).take(s@.len() as int) == lowered(s@));
    out
}

/// `s` with every occurrence of the nonempty text `p` replaced by `w`.
pub fn replace(s: &[char], p: &[char], w: &[char]) -> (r: Vec<char>)
    requires
        p@.len() > 0,
    ensures
        r@ == replaced(s@, p@, w@),
{
    let mut out: Vec<char> = Vec::new();
    let mut rest: &[char] = s;
    assert(out@ + replaced(rest@, p@, w@) == replaced(s@, p@, w@));
    while rest.len() > 0
        invariant
            p@.len() > 0,
            out@ + replaced(rest@, p@, w@) == replaced(s@, p@, w@),
        decreases rest@.len(),
    {
        let ghost before = out@;
        let ghost old_rest = rest@;
        if has_prefix(rest, p) {
            for i in 0..w.len()
                invariant
                    out@ == before + w@.take(i as int),
            {
                out.push(w[i]);
            }
            rest = &rest[p.len()..rest.len()];
            proof {
                assert(w@.take(w@.len() as int) == w@);
                assert(rest@ == old_rest.skip(p@.len() as int));
                assert(before + (w@ + replaced(rest@, p@, w@)) == before + w@ + replaced(
                    rest@,
                    p@,
                    w@,
                ));
            }
        } else {
            out.push(rest[0]);
            rest = &rest[1..rest.len()];
            proof {
                assert(rest@ == old_rest.skip(1));
                assert(before + (seq![old_rest[0]] + replaced(rest@, p@, w@)) == before.push(
                    old_rest[0],
                ) + replaced(rest@, p@, w@));
            }
        }
    }
    assert(out@ + Seq::empty() == out@);
    out
}

/// `s` without the `c`s at its end.
pub open spec fn without_trailing(s: Seq<char>, c: char) -> Seq<char>
    decreases s.len(),
{
    if s.len() > 0 && s.last() == c {
        without_trailing(s.drop_last(), c)
    } else {
        s
    }
}

/// The part of `s` before the `c`s at its end.
pub fn strip_trailing<'a>(s: &'a [char], c: char) -> (r: &'a [char])
    ensures
        r@ == without_trailing(s@, c),
{
    let mut i: usize = s.len();
    proof {
        assert(s@.take(i as int) =~= s@);
    }
    while i > 0 && s[i - 1] == c
        invariant
            i <= s.len(),
            without_trailing(s@.take(i as int), c) == without_trailing(s@, c),
        decreases i,
    {
        proof {
            assert(s@.take(i as int).drop_last() =~= s@.take(i - 1));
        }
        i -= 1;
    }
    proof {
        assert(s@.subrange(0, i as int) =~= s@.take(i as int));
    }
    &s[0..i]
}

/// Number of characters of `s` before its first white space.
pub open spec fn word_len(s: Seq<char>) -> int
    decreases s.len(),
{
    if s.len() == 0 || is_white(s[0]) {
        0
    } else {
        1 + word_len(s.skip(1))
    }
}

pub proof fn lemma_word_len(s: Seq<char>, i: int)
    requires
        0 <= i <= s.len(),
        forall|j: int| 0 <= j < i ==> !is_white(#[trigger] s[j]),
        i < s.len() ==> is_white(s[i]),
    ensures
        word_len(s) == i,
    decreases i,
{
    if i > 0 {
        assert(!is_white(s[0]));
        let t = s.skip(1);
        assert forall|j: int| 0 <= j < i - 1 implies !is_white(#[trigger] t[j]) by {
            assert(t[j] == s[j + 1]);
        }
        lemma_word_len(t, i - 1);
    }
}

/// The first word of `s` and what follows it.
pub fn split_word<'a>(s: &'a [char]) -> (r: (&'a [char], &'a [char]))
    ensures
        r.0@ == s@.take(word_len(s@)),
        r.1@ == s@.skip(word_len(s@)),
        0 <= word_len(s@) <= s@.len(),
{
    let mut i: usize = 0;
    while i < s.len() && !is_white_space(s[i])
        invariant
            i <= s.len(),
            forall|j: int| 0 <= j < i ==> !is_white(#[trigger] s@[j]),
        decreases s.len() - i,
    {
        i += 1;
    }
    proof {
        lemma_word_len(s@, i as int);
        assert(s@.subrange(0, i as int) =~= s@.take(i as int));
        assert(s@.subrange(i as int, s@.len() as int) =~= s@.skip(i as int));
    }
    (&s[0..i], &s[i..s.len()])
}

/// What `trimmed` keeps is a stretch of `s`.
pub proof fn lemma_trimmed_is_part(s: Seq<char>)
    ensures
        ({
            let a = s.len() - trimmed_start(s).len();
            let b = a + trimmed(s).len();
            0 <= a && b <= s.len() && trimmed(s) == s.subrange(a, b)
        }),
{
    lemma_trimmed_start_is_suffix(s);
    let t = trimmed_start(s);
    lemma_trimmed_end_is_prefix(t);
    let a = s.len() - t.len();
    assert(s.subrange(a, a + trimmed(s).len()) =~= t.take(trimmed(s).len() as int));
}

pub proof fn lemma_trimmed_start_is_suffix(s: Seq<char>)
    ensures
        trimmed_start(s).len() <= s.len(),
        trimmed_start(s) == s.skip(s.len() - trimmed_start(s).len()),
        trimmed_start(s).len() > 0 ==> !is_white(trimmed_start(s)[0]),
    decreases s.len(),
{
    if s.len() > 0 && is_white(s[0]) {
        lemma_trimmed_start_is_suffix(s.skip(1));
        let t = trimmed_start(s);
        assert(s.skip(1).skip(s.skip(1).len() - t.len()) =~= s.skip(s.len() - t.len()));
    } else {
        assert(s.skip(0) =~= s);
    }
}

pub proof fn lemma_trimmed_end_is_prefix(s: Seq<char>)
    ensures
        trimmed_end(s).len() <= s.len(),
        trimmed_end(s) == s.take(trimmed_end(s).len() as int),
        trimmed_end(s).len() > 0 ==> !is_white(trimmed_end(s).last()),
    decreases s.len(),
{
    if s.len() > 0 && is_white(s.last()) {
        lemma_trimmed_end_is_prefix(s.drop_last());
        let t = trimmed_end(s);
        assert(s.drop_last().take(t.len() as int) =~= s.take(t.len() as int));
    } else {
        assert(s.take(s.len() as int) =~= s);
    }
}

/// Text splits at its first `c`.
pub proof fn lemma_split_pair(a: Seq<char>, c: char, b: Seq<char>)
    requires
        !a.contains(c),
    ensures
        split_pair(a + seq![c] + b, c) == Some((a, b)),
{
    let s = a + seq![c] + b;
    assert forall|j: int| 0 <= j < a.len() implies #[trigger] s[j] != c by {
        assert(s[j] == a[j]);
        if a[j] == c {
            assert(a.contains(c));
        }
    }
    lemma_first_index_is(s, c, a.len() as int);
    assert(s.take(a.len() as int) =~= a);
    assert(s.skip(a.len() as int + 1) =~= b);
}

/// Text without a `c` is one field.
pub proof fn lemma_fields_one(a: Seq<char>, c: char)
    requires
        !a.contains(c),
    ensures
        fields(a, c) == seq![a],
{
    assert forall|j: int| 0 <= j < a.len() implies #[trigger] a[j] != c by {
        if a[j] == c {
            assert(a.contains(c));
        }
    }
    lemma_first_index_is(a, c, a.len() as int);
}

/// The first field ends at the first `c`.
pub proof fn lemma_fields_first(a: Seq<char>, c: char, b: Seq<char>)
    requires
        !a.contains(c),
    ensures
        fields(a + seq![c] + b, c) == seq![a] + fields(b, c),
{
    let s = a + seq![c] + b;
    assert forall|j: int| 0 <= j < a.len() implies #[trigger] s[j] != c by {
        assert(s[j] == a[j]);
        if a[j] == c {
            assert(a.contains(c));
        }
    }
    lemma_first_index_is(s, c, a.len() as int);
    assert(s.take(a.len() as int) =~= a);
    assert(s.skip(a.len() as int + 1) =~= b);
}

/// What `bytes` say as UTF-8, with the replacement character wherever they
/// are not UTF-8.
pub uninterp spec fn lossy_text(bytes: Seq<u8>) -> Seq<char>;

/// `String::from_utf8_lossy`: the text depends on the bytes alone, and bytes
/// that are UTF-8 are decoded as they stand.
#[verifier::external_body]
fn decode_lossy(bytes: &[u8]) -> (r: String)
    ensures
        r@ == lossy_text(bytes@),
        vstd::utf8::valid_utf8(bytes@) ==> r@ == vstd::utf8::decode_utf8(bytes@),
{
    String::from_utf8_lossy(bytes).into_owned()
}

/// What `bytes` say: the text they encode when they are UTF-8, else the text
/// with replacement characters.
pub open spec fn utf8_text(bytes: Seq<u8>) -> Seq<char> {
    if vstd::utf8::valid_utf8(bytes) {
        vstd::utf8::decode_utf8(bytes)
    } else {
        lossy_text(bytes)
    }
}

/// What `bytes` say.
pub fn read_utf8(bytes: &[u8]) -> (r: String)
    ensures
        r@ == utf8_text(bytes@),
{
    decode_lossy(bytes)
}

pub proof fn lemma_trimmed_start_push(s: Seq<char>, c: char)
    requires
        is_white(c),
    ensures
        trimmed_start(s.push(c)) == if trimmed_start(s).len() > 0 {
            trimmed_start(s).push(c)
        } else {
            Seq::empty()
        },
    decreases s.len(),
{
    if s.len() == 0 {
        assert(s.push(c).skip(1) =~= Seq::<char>::empty());
        assert(trimmed_start(s.push(c)) == trimmed_start(Seq::<char>::empty()));
        assert(s =~= Seq::<char>::empty());
    } else if is_white(s[0]) {
        assert(s.push(c).skip(1) =~= s.skip(1).push(c));
        lemma_trimmed_start_push(s.skip(1), c);
    }
}

/// White space at the end does not matter to trimming.
pub proof fn lemma_trimmed_push(s: Seq<char>, c: char)
    requires
        is_white(c),
    ensures
        trimmed(s.push(c)) == trimmed(s),
{
    lemma_trimmed_start_push(s, c);
    let t = trimmed_start(s);
    if t.len() > 0 {
        assert(t.push(c).drop_last() =~= t);
    } else {
        assert(t =~= Seq::<char>::empty());
    }
}

/// A carriage return at the end does not matter to trimming.
pub proof fn lemma_trimmed_without_cr(s: Seq<char>)
    ensures
        trimmed(without_cr(s)) == trimmed(s),
{
    if s.len() > 0 && s.last() == '\r' {
        lemma_trimmed_push(s.drop_last(), '\r');
        assert(s.drop_last().push('\r') =~= s);
    }
}

/// The lines, each terminated by a newline.
pub open spec fn terminated(lines: Seq<Seq<char>>) -> Seq<char>
    decreases lines.len(),
{
    if lines.len() == 0 {
        Seq::empty()
    } else {
        terminated(lines.drop_last()) + lines.last() + "\n"@
    }
}

/// No line holds a newline.
pub open spec fn single_lines(lines: Seq<Seq<char>>) -> bool {
    forall|i: int| 0 <= i < lines.len() ==> !(#[trigger] lines[i]).contains('\n')
}

pub proof fn lemma_terminated_first(a: Seq<char>, rest: Seq<Seq<char>>)
    ensures
        terminated(seq![a] + rest) == a + "\n"@ + terminated(rest),
    decreases rest.len(),
{
    let all = seq![a] + rest;
    if rest.len() == 0 {
        assert(all.drop_last() =~= Seq::<Seq<char>>::empty());
        assert(all.last() == a);
        assert(terminated(all.drop_last()) == Seq::<char>::empty());
        assert(Seq::<char>::empty() + a + "\n"@ =~= a + "\n"@);
        assert(a + "\n"@ + Seq::<char>::empty() =~= a + "\n"@);
    } else {
        assert(all.drop_last() =~= seq![a] + rest.drop_last());
        lemma_terminated_first(a, rest.drop_last());
        let t = terminated(rest.drop_last());
        assert((a + "\n"@ + t) + rest.last() + "\n"@ =~= a + "\n"@ + (t + rest.last() + "\n"@));
    }
}

/// Reading back terminated lines gives the lines, but for carriage returns at
/// their ends.
pub proof fn lemma_lines_of_terminated(lines: Seq<Seq<char>>)
    requires
        single_lines(lines),
    ensures
        lines_of(terminated(lines)) == lines.map_values(|l: Seq<char>| without_cr(l)),
    decreases lines.len(),
{
    let mapped = lines.map_values(|l: Seq<char>| without_cr(l));
    if lines.len() == 0 {
        assert(mapped =~= Seq::<Seq<char>>::empty());
    } else {
        let a = lines[0];
        let rest = lines.skip(1);
        assert(lines =~= seq![a] + rest);
        assert forall|i: int| 0 <= i < rest.len() implies !(#[trigger] rest[i]).contains('\n') by {
            assert(rest[i] == lines[i + 1]);
        }
        lemma_terminated_first(a, rest);
        lemma_lines_of_terminated(rest);
        reveal_strlit("\n");
        assert("\n"@ =~= seq!['\n']);
        let s = terminated(lines);
        assert(s =~= a + seq!['\n'] + terminated(rest));
        assert(!lines[0].contains('\n'));
        lemma_split_pair(a, '\n', terminated(rest));
        lemma_first_index(s, '\n');
        assert(s.take(first_index(s, '\n')) == a);
        assert(s.skip(first_index(s, '\n') + 1) == terminated(rest));
        assert(mapped =~= seq![without_cr(a)] + rest.map_values(|l: Seq<char>| without_cr(l)));
    }
}

/// The lines of a text hold no newline.
pub proof fn lemma_lines_single(s: Seq<char>)
    ensures
        single_lines(lines_of(s)),
    decreases s.len(),
{
    let i = first_index(s, '\n');
    lemma_first_index(s, '\n');
    if s.len() == 0 {
    } else if i < s.len() {
        lemma_lines_single(s.skip(i + 1));
        let head = s.take(i);
        let rest = lines_of(s.skip(i + 1));
        assert forall|j: int| 0 <= j < lines_of(s).len() implies !(#[trigger] lines_of(
            s,
        )[j]).contains('\n') by {
            if j == 0 {
                let line = without_cr(head);
                if line.contains('\n') {
                    let k = choose|k: int| 0 <= k < line.len() && line[k] == '\n';
                    assert(s[k] == '\n');
                }
            } else {
                assert(lines_of(s)[j] == rest[j - 1]);
            }
        }
    } else {
        if s.contains('\n') {
            let k = choose|k: int| 0 <= k < s.len() && s[k] == '\n';
            assert(s[k] != '\n');
        }
    }
}

/// The lines of a text hold no character that the text does not hold.
pub proof fn lemma_lines_hold(s: Seq<char>, c: char)
    requires
        !s.contains(c),
    ensures
        forall|j: int| 0 <= j < lines_of(s).len() ==> !(#[trigger] lines_of(s)[j]).contains(c),
    decreases s.len(),
{
    let i = first_index(s, '\n');
    lemma_first_index(s, '\n');
    if 0 < s.len() && i < s.len() {
        let tail = s.skip(i + 1);
        if tail.contains(c) {
            let k = choose|k: int| 0 <= k < tail.len() && tail[k] == c;
            assert(s[i + 1 + k] == c);
        }
        lemma_lines_hold(tail, c);
        let rest = lines_of(tail);
        assert forall|j: int| 0 <= j < lines_of(s).len() implies !(#[trigger] lines_of(
            s,
        )[j]).contains(c) by {
            if j == 0 {
                let line = without_cr(s.take(i));
                if line.contains(c) {
                    let k = choose|k: int| 0 <= k < line.len() && line[k] == c;
                    assert(s[k] == c);
                }
            } else {
                assert(lines_of(s)[j] == rest[j - 1]);
            }
        }
    }
}

// --- what the vocabulary means -----------------------------------------------------------

/// Every character is white space.
pub open spec fn all_white(s: Seq<char>) -> bool {
    forall|i: int| 0 <= i < s.len() ==> is_white(#[trigger] s[i])
}

/// Among the ASCII characters, white space is the blank and the characters
/// from the tab to the carriage return; what is printed is none.
pub proof fn ascii_white_space(c: char)
    requires
        (c as u32) < 0x80,
    ensures
        is_white(c) <==> c == ' ' || c == '\t' || c == '\n' || c == '\r' || c == '\u{b}' || c
            == '\u{c}',
        '!' <= c <= '~' ==> !is_white(c),
{
}

/// Trimming takes white space off both ends and nothing else: the text is what
/// is left with white space around it, and what is left neither begins nor
/// ends with any.
pub proof fn trimming_takes_white_space_off(s: &[char], r: &[char])
    requires
        call_ensures(trim, (s,), r),
    ensures
        exists|a: Seq<char>, b: Seq<char>|
            #![trigger all_white(a), all_white(b)]
            all_white(a) && all_white(b) && s@ == a + r@ + b,
        r@.len() > 0 ==> !is_white(r@[0]) && !is_white(r@.last()),
{
    let t = trimmed_start(s@);
    let n = s@.len() - t.len();
    lemma_trimmed_start_is_suffix(s@);
    lemma_trimmed_start_front(s@);
    lemma_trimmed_end_is_prefix(t);
    lemma_trimmed_end_back(t);
    let a = s@.take(n);
    let b = t.skip(r@.len() as int);
    assert(all_white(a)) by {
        assert forall|i: int| 0 <= i < a.len() implies is_white(#[trigger] a[i]) by {
            assert(a[i] == s@[i]);
        }
    }
    assert(all_white(b)) by {
        assert forall|i: int| 0 <= i < b.len() implies is_white(#[trigger] b[i]) by {
            assert(b[i] == t[r@.len() + i]);
        }
    }
    assert(s@ =~= a + r@ + b);
    if r@.len() > 0 {
        assert(r@[0] == t[0]);
    }
}

proof fn lemma_trimmed_start_front(s: Seq<char>)
    ensures
        forall|i: int| 0 <= i < s.len() - trimmed_start(s).len() ==> is_white(#[trigger] s[i]),
    decreases s.len(),
{
    if s.len() > 0 && is_white(s[0]) {
        let rest = s.skip(1);
        lemma_trimmed_start_front(rest);
        assert forall|i: int| 0 <= i < s.len() - trimmed_start(s).len() implies is_white(
            #[trigger] s[i],
        ) by {
            if i > 0 {
                assert(rest[i - 1] == s[i]);
            }
        }
    }
}

proof fn lemma_trimmed_end_back(s: Seq<char>)
    ensures
        forall|i: int| trimmed_end(s).len() <= i < s.len() ==> is_white(#[trigger] s[i]),
    decreases s.len(),
{
    if s.len() > 0 && is_white(s.last()) {
        let front = s.drop_last();
        lemma_trimmed_end_back(front);
        assert forall|i: int| trimmed_end(s).len() <= i < s.len() implies is_white(
            #[trigger] s[i],
        ) by {
            if i < front.len() {
                assert(front[i] == s[i]);
            }
        }
    }
}

/// Trimming one end takes the white space there and leaves the other end.
pub proof fn trimming_one_end(s: &[char], start: &[char], end: &[char])
    requires
        call_ensures(trim_start, (s,), start),
        call_ensures(trim_end, (s,), end),
    ensures
        start@.len() <= s@.len(),
        all_white(s@.take(s@.len() - start@.len())),
        s@.skip(s@.len() - start@.len()) == start@,
        start@.len() > 0 ==> !is_white(start@[0]),
        end@.len() <= s@.len(),
        all_white(s@.skip(end@.len() as int)),
        s@.take(end@.len() as int) == end@,
        end@.len() > 0 ==> !is_white(end@.last()),
{
    lemma_trimmed_start_is_suffix(s@);
    lemma_trimmed_start_front(s@);
    lemma_trimmed_end_is_prefix(s@);
    lemma_trimmed_end_back(s@);
}

/// Splitting at a character and joining with it gives the text back, and no
/// part holds the character.
pub proof fn splitting_and_joining(s: Seq<char>, c: char)
    ensures
        joined(fields(s, c), seq![c]) == s,
        fields(s, c).len() > 0,
        forall|i: int| 0 <= i < fields(s, c).len() ==> !(#[trigger] fields(s, c)[i]).contains(c),
    decreases s.len(),
{
    let i = first_index(s, c);
    lemma_first_index(s, c);
    let parts = fields(s, c);
    if i < s.len() {
        let head = s.take(i);
        let rest = s.skip(i + 1);
        splitting_and_joining(rest, c);
        let more = fields(rest, c);
        assert(parts == seq![head] + more);
        lemma_joined_first(head, more, seq![c]);
        assert(s =~= head + seq![c] + rest);
        assert forall|k: int| 0 <= k < parts.len() implies !(#[trigger] parts[k]).contains(c) by {
            if k == 0 {
                if head.contains(c) {
                    let j = choose|j: int| 0 <= j < head.len() && head[j] == c;
                    assert(s[j] != c);
                }
            } else {
                assert(parts[k] == more[k - 1]);
            }
        }
    } else {
        assert(parts =~= seq![s]);
        if s.contains(c) {
            let j = choose|j: int| 0 <= j < s.len() && s[j] == c;
            assert(s[j] != c);
        }
    }
}

proof fn lemma_joined_first(head: Seq<char>, rest: Seq<Seq<char>>, sep: Seq<char>)
    requires
        rest.len() > 0,
    ensures
        joined(seq![head] + rest, sep) == head + sep + joined(rest, sep),
    decreases rest.len(),
{
    let all = seq![head] + rest;
    assert(all.last() == rest.last());
    assert(all.drop_last() =~= seq![head] + rest.drop_last());
    if rest.len() == 1 {
        let one = seq![head];
        assert(all.drop_last() =~= one);
        assert(joined(one, sep) == head);
        assert(joined(rest, sep) == rest[0]);
        assert(joined(all, sep) == joined(one, sep) + sep + rest[0]);
    } else {
        lemma_joined_first(head, rest.drop_last(), sep);
        assert(head + sep + joined(rest.drop_last(), sep) + sep + rest.last() =~= head + sep + (
        joined(rest.drop_last(), sep) + sep + rest.last()));
    }
}

/// Parts are joined one after another, with the separator between two of them.
pub proof fn joining_appends(parts: Seq<Seq<char>>, part: Seq<char>, sep: Seq<char>)
    ensures
        joined(parts.push(part), sep) == if parts.len() == 0 {
            part
        } else {
            joined(parts, sep) + sep + part
        },
        concatenated(parts.push(part)) == concatenated(parts) + part,
        terminated(parts.push(part)) == terminated(parts) + part + "\n"@,
        concatenated(Seq::<Seq<char>>::empty()).len() == 0,
        terminated(Seq::<Seq<char>>::empty()).len() == 0,
{
    assert(parts.push(part).drop_last() =~= parts);
}

/// A text is its lines: reading lines that were each ended by a newline gives
/// them back, with a last line that may lack its newline; a carriage return
/// before a newline belongs to the ending.
pub proof fn lines_are_read_back(s: Seq<char>, lines: Seq<Seq<char>>, last: Seq<char>)
    requires
        forall|i: int|
            0 <= i < lines.len() ==> !(#[trigger] lines[i]).contains('\n') && (lines[i].len() > 0
                ==> lines[i].last() != '\r'),
        !last.contains('\n'),
    ensures
        lines_of(terminated(lines)) == lines,
        last.len() > 0 ==> lines_of(terminated(lines) + last) == lines.push(last),
        !s.contains('\n') ==> lines_of(s + "\r\n"@) == seq![s],
{
    lemma_lines_of_terminated(lines);
    assert(lines.map_values(|l: Seq<char>| without_cr(l)) =~= lines);
    if last.len() > 0 {
        lemma_lines_with_rest(lines, last);
    }
    if !s.contains('\n') {
        reveal_strlit("\r\n");
        let t = s + "\r\n"@;
        assert forall|j: int| 0 <= j < s.len() + 1 implies #[trigger] t[j] != '\n' by {
            if j < s.len() {
                assert(t[j] == s[j]);
            }
        }
        lemma_first_index_is(t, '\n', s.len() as int + 1);
        assert(without_cr(t.take(s.len() as int + 1)) =~= s);
        let none = Seq::<char>::empty();
        assert(t.skip(s.len() as int + 2) =~= none);
        assert(lines_of(none) =~= Seq::<Seq<char>>::empty());
        assert(lines_of(t) == seq![s] + lines_of(none));
        assert(lines_of(t) =~= seq![s]);
    }
}

proof fn lemma_lines_with_rest(lines: Seq<Seq<char>>, last: Seq<char>)
    requires
        forall|i: int|
            0 <= i < lines.len() ==> !(#[trigger] lines[i]).contains('\n') && (lines[i].len() > 0
                ==> lines[i].last() != '\r'),
        !last.contains('\n'),
        last.len() > 0,
    ensures
        lines_of(terminated(lines) + last) == lines.push(last),
    decreases lines.len(),
{
    if lines.len() == 0 {
        assert(terminated(lines) + last =~= last);
        assert forall|j: int| 0 <= j < last.len() implies #[trigger] last[j] != '\n' by {
            if last[j] == '\n' {
                assert(last.contains('\n'));
            }
        }
        lemma_first_index_is(last, '\n', last.len() as int);
        assert(lines_of(last) =~= lines.push(last));
    } else {
        let a = lines[0];
        let rest = lines.skip(1);
        assert(lines =~= seq![a] + rest);
        assert forall|i: int| 0 <= i < rest.len() implies !(#[trigger] rest[i]).contains('\n') && (
        rest[i].len() > 0 ==> rest[i].last() != '\r') by {
            assert(rest[i] == lines[i + 1]);
        }
        lemma_lines_with_rest(rest, last);
        lemma_terminated_first(a, rest);
        reveal_strlit("\n");
        let tail = terminated(rest) + last;
        let s = terminated(lines) + last;
        assert(s =~= a + seq!['\n'] + tail);
        assert forall|j: int| 0 <= j < a.len() implies #[trigger] s[j] != '\n' by {
            assert(s[j] == a[j]);
            if a[j] == '\n' {
                assert(a.contains('\n'));
            }
        }
        lemma_first_index_is(s, '\n', a.len() as int);
        assert(s.take(a.len() as int) =~= a);
        assert(s.skip(a.len() as int + 1) =~= tail);
        assert(!lines[0].contains('\n'));
        assert(without_cr(a) =~= a);
        assert(lines_of(s) =~= lines.push(last));
    }
}

/// Lower case touches the capital letters of ASCII only, each of which has its
/// small letter 32 places on.
pub proof fn lower_case_letters(s: &[char], r: Vec<char>, i: int)
    requires
        call_ensures(to_lower, (s,), r),
        0 <= i < s@.len(),
    ensures
        r@.len() == s@.len(),
        'A' <= s@[i] <= 'Z' ==> r@[i] as u32 == s@[i] as u32 + 32,
        !('A' <= s@[i] <= 'Z') ==> r@[i] == s@[i],
{
}

/// Replacing takes the leftmost occurrence first, and text before it stays.
pub proof fn replacing_goes_from_left_to_right(
    before: Seq<char>,
    p: Seq<char>,
    rest: Seq<char>,
    w: Seq<char>,
)
    requires
        p.len() > 0,
        forall|i: int|
            0 <= i < before.len() ==> !starts(#[trigger] (before + p + rest).skip(i), p),
    ensures
        replaced(before + p + rest, p, w) == before + w + replaced(rest, p, w),
    decreases before.len(),
{
    let s = before + p + rest;
    if before.len() == 0 {
        assert(s =~= p + rest);
        assert(s.take(p.len() as int) =~= p);
        assert(s.skip(p.len() as int) =~= rest);
        assert(before + w + replaced(rest, p, w) =~= w + replaced(rest, p, w));
    } else {
        assert(!starts(s.skip(0), p));
        assert(s.skip(0) =~= s);
        let less = before.skip(1);
        assert(s.skip(1) =~= less + p + rest);
        assert forall|i: int| 0 <= i < less.len() implies !starts(
            #[trigger] (less + p + rest).skip(i),
            p,
        ) by {
            assert((less + p + rest).skip(i) =~= s.skip(i + 1));
        }
        replacing_goes_from_left_to_right(less, p, rest, w);
        assert(seq![s[0]] + (less + w + replaced(rest, p, w)) =~= before + w + replaced(
            rest,
            p,
            w,
        ));
    }
}

/// Text in which nothing is to be replaced stays as it is.
pub proof fn replacing_nothing(s: Seq<char>, p: Seq<char>, w: Seq<char>)
    requires
        forall|i: int| 0 <= i < s.len() ==> !starts(#[trigger] s.skip(i), p),
    ensures
        replaced(s, p, w) == s,
    decreases s.len(),
{
    if s.len() > 0 && p.len() > 0 {
        assert(s.skip(0) =~= s);
        assert(!starts(s.skip(0), p));
        let rest = s.skip(1);
        assert forall|i: int| 0 <= i < rest.len() implies !starts(#[trigger] rest.skip(i), p) by {
            assert(rest.skip(i) =~= s.skip(i + 1));
        }
        replacing_nothing(rest, p, w);
        assert(seq![s[0]] + rest =~= s);
    }
}

/// What is left without the characters at the end ends with another one, and
/// only they were taken.
pub proof fn stripping_the_end(s: &[char], c: char, r: &[char])
    requires
        call_ensures(strip_trailing, (s, c), r),
    ensures
        r@.len() <= s@.len(),
        s@.take(r@.len() as int) == r@,
        forall|i: int| r@.len() <= i < s@.len() ==> #[trigger] s@[i] == c,
        r@.len() > 0 ==> r@.last() != c,
{
    lemma_without_trailing(s@, c);
}

pub proof fn lemma_without_trailing(s: Seq<char>, c: char)
    ensures
        without_trailing(s, c).len() <= s.len(),
        s.take(without_trailing(s, c).len() as int) == without_trailing(s, c),
        forall|i: int| without_trailing(s, c).len() <= i < s.len() ==> #[trigger] s[i] == c,
        without_trailing(s, c).len() > 0 ==> without_trailing(s, c).last() != c,
    decreases s.len(),
{
    let r = without_trailing(s, c);
    if s.len() > 0 && s.last() == c {
        let front = s.drop_last();
        lemma_without_trailing(front, c);
        assert(s.take(r.len() as int) =~= front.take(r.len() as int));
        assert forall|i: int| r.len() <= i < s.len() implies #[trigger] s[i] == c by {
            if i < front.len() {
                assert(front[i] == s[i]);
            }
        }
    } else {
        assert(s.take(s.len() as int) =~= s);
    }
}

/// A prefix is taken off exactly when the text is the prefix and a rest.
pub proof fn prefixes_come_off(s: Seq<char>, p: Seq<char>, rest: Seq<char>)
    ensures
        after_prefix(s, p) == Some(rest) <==> s == p + rest,
{
    if after_prefix(s, p) == Some(rest) {
        assert(s =~= p + rest);
    }
    if s == p + rest {
        assert(s.take(p.len() as int) =~= p);
        assert(s.skip(p.len() as int) =~= rest);
    }
}

/// A text is cut in two at its first such character, and only there.
pub proof fn cutting_at_the_first(s: Seq<char>, c: char)
    ensures
        match split_pair(s, c) {
            Some((a, b)) => s == a + seq![c] + b && !a.contains(c),
            None => !s.contains(c),
        },
{
    lemma_first_index(s, c);
    let i = first_index(s, c);
    if i < s.len() {
        let a = s.take(i);
        assert(s =~= a + seq![c] + s.skip(i + 1));
        if a.contains(c) {
            let j = choose|j: int| 0 <= j < a.len() && a[j] == c;
            assert(s[j] != c);
        }
    } else if s.contains(c) {
        let j = choose|j: int| 0 <= j < s.len() && s[j] == c;
        assert(s[j] != c);
    }
}

/// Whatever white space stands around a text, trimming gives the text.
pub proof fn trimming_finds_the_text(a: Seq<char>, t: Seq<char>, b: Seq<char>)
    requires
        all_white(a),
        all_white(b),
        t.len() > 0 ==> !is_white(t[0]) && !is_white(t.last()),
    ensures
        trimmed(a + t + b) == t,
        t.len() > 0 ==> trimmed_start(a + t) == t && trimmed_end(t + b) == t,
{
    let s = a + t + b;
    assert forall|j: int| 0 <= j < a.len() implies is_white(#[trigger] s[j]) by {
        assert(s[j] == a[j]);
    }
    lemma_trimmed_start_skip(s, a.len() as int);
    let u = t + b;
    assert(s.skip(a.len() as int) =~= u);
    if t.len() == 0 {
        assert(u =~= b);
        assert forall|j: int| 0 <= j < b.len() implies is_white(#[trigger] b[j]) by {}
        lemma_trimmed_start_skip(b, b.len() as int);
        assert(b.skip(b.len() as int) =~= Seq::<char>::empty());
        assert(t =~= Seq::<char>::empty());
    } else {
        assert(u[0] == t[0]);
        assert forall|j: int| t.len() <= j < u.len() implies is_white(#[trigger] u[j]) by {
            assert(u[j] == b[j - t.len()]);
        }
        lemma_trimmed_end_take(u, t.len() as int);
        assert(u.take(t.len() as int) =~= t);
        let v = a + t;
        assert forall|j: int| 0 <= j < a.len() implies is_white(#[trigger] v[j]) by {
            assert(v[j] == a[j]);
        }
        lemma_trimmed_start_skip(v, a.len() as int);
        assert(v.skip(a.len() as int) =~= t);
    }
}

/// White space is what Unicode calls so: five control characters and the next
/// line, and the spaces and separators of every width.
pub proof fn white_space_is_that_of_unicode(c: char, r: bool)
    requires
        call_ensures(is_white_space, (c,), r),
    ensures
        r <==> (c as u32 == 0x9 || c as u32 == 0xa || c as u32 == 0xb || c as u32 == 0xc || c as u32
            == 0xd || c as u32 == 0x20 || c as u32 == 0x85 || c as u32 == 0xa0 || c as u32 == 0x1680
            || (c as u32 >= 0x2000 && c as u32 <= 0x200a) || c as u32 == 0x2028 || c as u32
            == 0x2029 || c as u32 == 0x202f || c as u32 == 0x205f || c as u32 == 0x3000),
        r <==> is_white(c),
{
}

} // verus!
