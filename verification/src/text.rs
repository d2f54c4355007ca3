//! Searching and cutting sequences of characters.
//!
//! The specification functions speak of `Seq<char>`, the view of a string;
//! the executable functions work on slices of characters and borrow from
//! their argument.

use vstd::prelude::*;
use vstd::slice::slice_subrange;

verus! {

/// `part` stands in `s` at offset `at`.
pub open spec fn occurs_at(s: Seq<char>, part: Seq<char>, at: int) -> bool {
    &&& 0 <= at
    &&& at + part.len() <= s.len()
    &&& s.subrange(at, at + part.len()) == part
}

/// `s` begins with `part`.
pub open spec fn begins_with(s: Seq<char>, part: Seq<char>) -> bool {
    occurs_at(s, part, 0)
}

/// `part` stands somewhere in `s`.
pub open spec fn occurs_in(s: Seq<char>, part: Seq<char>) -> bool {
    exists|at: int| occurs_at(s, part, at)
}

/// The offset of the first `sep` in `s`, or the length of `s` where it holds none.
pub open spec fn sep_offset(s: Seq<char>, sep: char) -> int
    decreases s.len(),
{
    if s.len() == 0 || s[0] == sep {
        0
    } else {
        1 + sep_offset(s.drop_first(), sep)
    }
}

/// The pieces of `s` between its separators. There is one piece more than
/// there are separators, and a piece may be empty.
pub open spec fn fields(s: Seq<char>, sep: char) -> Seq<Seq<char>>
    decreases s.len(),
{
    let cut = sep_offset(s, sep);
    if 0 <= cut < s.len() {
        seq![s.take(cut)] + fields(s.skip(cut + 1), sep)
    } else {
        seq![s]
    }
}

/// `s` without the run of `c` it begins with.
pub open spec fn without_leading(s: Seq<char>, c: char) -> Seq<char>
    decreases s.len(),
{
    if s.len() > 0 && s[0] == c {
        without_leading(s.drop_first(), c)
    } else {
        s
    }
}

/// The characters that part the words of a text: space, tab, line feed,
/// vertical tab, form feed and carriage return.
pub open spec fn is_space(c: char) -> bool {
    c == ' ' || c == '\t' || c == '\n' || c == '\u{b}' || c == '\u{c}' || c == '\r'
}

/// A word: one character or more, none of which parts words.
pub open spec fn is_word(w: Seq<char>) -> bool {
    w.len() > 0 && forall|i: int| 0 <= i < w.len() ==> !is_space(#[trigger] w[i])
}

/// A gap: characters that part words, and no others. It may be empty.
pub open spec fn is_gap(g: Seq<char>) -> bool {
    forall|i: int| 0 <= i < g.len() ==> is_space(#[trigger] g[i])
}

/// How many characters stand before the first one that parts words.
pub open spec fn word_len(s: Seq<char>) -> int
    decreases s.len(),
{
    if s.len() == 0 || is_space(s[0]) {
        0
    } else {
        1 + word_len(s.drop_first())
    }
}

/// The words of `s`: its longest runs of characters that do not part
/// words, in order. A text of such characters alone has no words.
pub open spec fn words(s: Seq<char>) -> Seq<Seq<char>>
    decreases s.len(),
    via words_decreases
{
    if s.len() == 0 {
        seq![]
    } else if is_space(s[0]) {
        words(s.drop_first())
    } else {
        seq![s.take(word_len(s))] + words(s.skip(word_len(s)))
    }
}

#[via_fn]
proof fn words_decreases(s: Seq<char>) {
    lemma_word_len_bounds(s);
}

/// What each of the borrowed pieces holds.
pub open spec fn views(parts: Seq<&[char]>) -> Seq<Seq<char>> {
    parts.map_values(|p: &[char]| p@)
}

/// `sep_offset` is the one offset before which there is no separator and
/// at which there is one, or the text ends.
pub proof fn lemma_sep_offset(s: Seq<char>, sep: char, cut: int)
    requires
        0 <= cut <= s.len(),
        forall|j: int| 0 <= j < cut ==> s[j] != sep,
        cut == s.len() || s[cut] == sep,
    ensures
        sep_offset(s, sep) == cut,
    decreases s.len(),
{
    if cut > 0 {
        lemma_sep_offset(s.drop_first(), sep, cut - 1);
    }
}

/// `word_len` lies within the text, no character before it parts words,
/// and the one at it does unless it is the end.
pub proof fn lemma_word_len_bounds(s: Seq<char>)
    ensures
        0 <= word_len(s) <= s.len(),
        s.len() > 0 && !is_space(s[0]) ==> word_len(s) > 0,
        forall|j: int| 0 <= j < word_len(s) ==> !is_space(#[trigger] s[j]),
        word_len(s) < s.len() ==> is_space(s[word_len(s)]),
    decreases s.len(),
{
    if !(s.len() == 0 || is_space(s[0])) {
        let rest = s.drop_first();
        lemma_word_len_bounds(rest);
        assert forall|j: int| 0 <= j < word_len(s) implies !is_space(#[trigger] s[j]) by {
            if j > 0 {
                assert(s[j] == rest[j - 1]);
            }
        }
    }
}

/// `word_len` is the one offset before which no character parts words
/// and at which one does, or the text ends.
pub proof fn lemma_word_len(s: Seq<char>, end: int)
    requires
        0 <= end <= s.len(),
        forall|j: int| 0 <= j < end ==> !is_space(#[trigger] s[j]),
        end == s.len() || is_space(s[end]),
    ensures
        word_len(s) == end,
    decreases s.len(),
{
    if end > 0 {
        let rest = s.drop_first();
        assert forall|j: int| 0 <= j < end - 1 implies !is_space(#[trigger] rest[j]) by {
            assert(rest[j] == s[j + 1]);
        }
        lemma_word_len(rest, end - 1);
    }
}

/// A word is the first word of whatever text it begins, as long as what
/// follows it is nothing or begins with a character that parts words.
pub proof fn lemma_words_begin(w: Seq<char>, rest: Seq<char>)
    requires
        is_word(w),
        rest.len() == 0 || is_space(rest[0]),
    ensures
        words(w + rest) == seq![w] + words(rest),
{
    let s = w + rest;
    assert forall|j: int| 0 <= j < w.len() implies !is_space(#[trigger] s[j]) by {
        assert(s[j] == w[j]);
    }
    lemma_word_len(s, w.len() as int);
    assert(s.take(w.len() as int) =~= w);
    assert(s.skip(w.len() as int) =~= rest);
}

/// A gap adds no word in front of a text.
pub proof fn lemma_words_after_gap(gap: Seq<char>, rest: Seq<char>)
    requires
        is_gap(gap),
    ensures
        words(gap + rest) == words(rest),
    decreases gap.len(),
{
    if gap.len() == 0 {
        assert(gap + rest =~= rest);
    } else {
        let shorter = gap.drop_first();
        assert forall|i: int| 0 <= i < shorter.len() implies is_space(#[trigger] shorter[i]) by {
            assert(shorter[i] == gap[i + 1]);
        }
        assert((gap + rest).drop_first() =~= shorter + rest);
        assert(is_space((gap + rest)[0])) by {
            assert((gap + rest)[0] == gap[0]);
        }
        lemma_words_after_gap(shorter, rest);
    }
}

/// A word is its own only word.
pub proof fn lemma_words_of_word(w: Seq<char>)
    requires
        is_word(w),
    ensures
        words(w) == seq![w],
{
    lemma_words_begin(w, Seq::empty());
    assert(w + Seq::<char>::empty() =~= w);
}

/// The characters of a string, in order.
pub fn chars_of(s: &str) -> (v: Vec<char>)
    ensures
        v@ == s@,
{
    let mut v: Vec<char> = Vec::new();
    for c in it: s.chars()
        invariant
            it.seq() == s@,
            v@ == it.seq().take(it.index()),
    {
        v.push(c);
    }
    v
}

/// Tells whether `part` stands in `s` at offset `at`.
pub fn matches_at(s: &[char], part: &[char], at: usize) -> (b: bool)
    ensures
        b == occurs_at(s@, part@, at as int),
{
    if at > s.len() || part.len() > s.len() - at {
        return false;
    }
    let mut i: usize = 0;
    while i < part.len()
        invariant
            at + part.len() <= s.len(),
            i <= part.len(),
            forall|j: int| 0 <= j < i ==> s@[at + j] == part@[j],
        decreases part.len() - i,
    {
        if s[at + i] != part[i] {
            assert(s@.subrange(at as int, at + part@.len())[i as int] != part@[i as int]);
            return false;
        }
        i += 1;
    }
    assert(s@.subrange(at as int, at + part@.len()) =~= part@);
    true
}

/// Tells whether `s` begins with `part`.
pub fn starts_with(s: &[char], part: &[char]) -> (b: bool)
    ensures
        b == begins_with(s@, part@),
{
    matches_at(s, part, 0)
}

/// Tells whether `part` stands somewhere in `s`.
pub fn contains(s: &[char], part: &[char]) -> (b: bool)
    ensures
        b == occurs_in(s@, part@),
{
    if part.len() > s.len() {
        return false;
    }
    let last: usize = s.len() - part.len();
    let mut at: usize = 0;
    while at < last
        invariant
            last == s.len() - part.len(),
            at <= last,
            forall|k: int| 0 <= k < at ==> !occurs_at(s@, part@, k),
        decreases last - at,
    {
        if matches_at(s, part, at) {
            return true;
        }
        at += 1;
    }
    matches_at(s, part, last)
}

/// The offset of the first `sep` at or after `from`, or the length of `s`.
pub fn find_sep(s: &[char], sep: char, from: usize) -> (at: usize)
    requires
        from <= s.len(),
    ensures
        from <= at <= s.len(),
        at - from == sep_offset(s@.skip(from as int), sep),
{
    let mut at: usize = from;
    while at < s.len() && s[at] != sep
        invariant
            from <= at <= s.len(),
            forall|j: int| from <= j < at ==> s@[j] != sep,
        decreases s.len() - at,
    {
        at += 1;
    }
    proof {
        lemma_sep_offset(s@.skip(from as int), sep, at - from);
    }
    at
}

/// Cuts `s` at every `sep`. The pieces come in order and leave the
/// separators out.
pub fn split<'a>(s: &'a [char], sep: char) -> (parts: Vec<&'a [char]>)
    ensures
        views(parts@) == fields(s@, sep),
{
    let mut parts: Vec<&'a [char]> = Vec::new();
    let mut start: usize = 0;
    assert(s@.skip(0) =~= s@);
    loop
        invariant_except_break
            start <= s.len(),
            views(parts@) + fields(s@.skip(start as int), sep) =~= fields(s@, sep),
        ensures
            views(parts@) == fields(s@, sep),
        decreases s.len() - start,
    {
        let end = find_sep(s, sep, start);
        let ghost before = views(parts@);
        let ghost tail = s@.skip(start as int);
        parts.push(slice_subrange(s, start, end));
        assert(views(parts@) =~= before.push(s@.subrange(start as int, end as int)));
        assert(tail.take(end - start) =~= s@.subrange(start as int, end as int));
        if end == s.len() {
            assert(tail =~= s@.subrange(start as int, end as int));
            break;
        }
        assert(tail.skip(end - start + 1) =~= s@.skip(end + 1));
        start = end + 1;
    }
    parts
}

/// Tells whether `c` parts words.
pub fn parts_words(c: char) -> (b: bool)
    ensures
        b == is_space(c),
{
    c == ' ' || c == '\t' || c == '\n' || c == '\u{b}' || c == '\u{c}' || c == '\r'
}

/// The words of `s`, in order.
pub fn split_words<'a>(s: &'a [char]) -> (parts: Vec<&'a [char]>)
    ensures
        views(parts@) == words(s@),
{
    let mut parts: Vec<&'a [char]> = Vec::new();
    let mut at: usize = 0;
    assert(s@.skip(0) =~= s@);
    while at < s.len()
        invariant
            at <= s.len(),
            views(parts@) + words(s@.skip(at as int)) =~= words(s@),
        decreases s.len() - at,
    {
        let ghost tail = s@.skip(at as int);
        if parts_words(s[at]) {
            assert(tail.drop_first() =~= s@.skip(at + 1));
            at += 1;
        } else {
            let mut end: usize = at + 1;
            while end < s.len() && !parts_words(s[end])
                invariant
                    at < end <= s.len(),
                    forall|j: int| at <= j < end ==> !is_space(#[trigger] s@[j]),
                decreases s.len() - end,
            {
                end += 1;
            }
            proof {
                assert forall|j: int| 0 <= j < end - at implies !is_space(#[trigger] tail[j]) by {
                    assert(tail[j] == s@[at + j]);
                }
                lemma_word_len(tail, end - at);
                assert(tail.take(end - at) =~= s@.subrange(at as int, end as int));
                assert(tail.skip(end - at) =~= s@.skip(end as int));
            }
            let ghost before = views(parts@);
            parts.push(slice_subrange(s, at, end));
            assert(views(parts@) =~= before.push(s@.subrange(at as int, end as int)));
            at = end;
        }
    }
    parts
}

/// Drops the run of `c` that `s` begins with.
pub fn trim_start<'a>(s: &'a [char], c: char) -> (rest: &'a [char])
    ensures
        rest@ == without_leading(s@, c),
{
    let mut at: usize = 0;
    assert(s@.skip(0) =~= s@);
    while at < s.len() && s[at] == c
        invariant
            at <= s.len(),
            without_leading(s@.skip(at as int), c) == without_leading(s@, c),
        decreases s.len() - at,
    {
        assert(s@.skip(at as int).drop_first() =~= s@.skip(at + 1));
        at += 1;
    }
    assert(s@.subrange(at as int, s@.len() as int) =~= s@.skip(at as int));
    slice_subrange(s, at, s.len())
}

} // verus!
