//! Text primitives on sequences of characters: whitespace, trimming,
//! splitting into words and into segments.
//!
//! Each executable function works on the characters of a string, not on its
//! bytes, and its contract is stated over the string's view, a `Seq<char>`.

use vstd::prelude::*;
use vstd::string::StrSliceExecFns;

verus! {

/// Whether `c` has the Unicode property `White_Space`.
pub open spec fn is_whitespace(c: char) -> bool {
    let u = c as u32;
    ||| 0x09 <= u <= 0x0D
    ||| u == 0x20
    ||| u == 0x85
    ||| u == 0xA0
    ||| u == 0x1680
    ||| 0x2000 <= u <= 0x200A
    ||| u == 0x2028
    ||| u == 0x2029
    ||| u == 0x202F
    ||| u == 0x205F
    ||| u == 0x3000
}

/// The characters that are whitespace.
pub open spec fn whitespace() -> spec_fn(char) -> bool {
    |c: char| is_whitespace(c)
}

/// The characters that are not whitespace.
pub open spec fn non_whitespace() -> spec_fn(char) -> bool {
    |c: char| !is_whitespace(c)
}

/// The characters other than `sep`.
pub open spec fn other_than(sep: char) -> spec_fn(char) -> bool {
    |c: char| c != sep
}

/// The number of elements at the front of `s` that all satisfy `keep`: the
/// index of the first element that does not, or the length of `s`.
pub open spec fn prefix_while<T>(s: Seq<T>, keep: spec_fn(T) -> bool) -> nat
    decreases s.len(),
{
    if s.len() > 0 && keep(s.first()) {
        1 + prefix_while(s.drop_first(), keep)
    } else {
        0
    }
}

/// The number of elements at the back of `s` that all satisfy `keep`.
pub open spec fn suffix_while<T>(s: Seq<T>, keep: spec_fn(T) -> bool) -> nat
    decreases s.len(),
{
    if s.len() > 0 && keep(s.last()) {
        1 + suffix_while(s.drop_last(), keep)
    } else {
        0
    }
}

/// `s` without its leading whitespace.
pub open spec fn trim_start(s: Seq<char>) -> Seq<char> {
    s.skip(prefix_while(s, whitespace()) as int)
}

/// `s` without its trailing whitespace.
pub open spec fn trim_end(s: Seq<char>) -> Seq<char> {
    s.take(s.len() - suffix_while(s, whitespace()))
}

/// `s` without its leading and trailing whitespace.
pub open spec fn trim(s: Seq<char>) -> Seq<char> {
    trim_end(trim_start(s))
}

/// Whether `s` holds nothing but whitespace.
pub open spec fn is_blank(s: Seq<char>) -> bool {
    forall|i: int| 0 <= i < s.len() ==> is_whitespace(#[trigger] s[i])
}

/// The maximal runs of non-whitespace characters of `s`, in order.
pub open spec fn words(s: Seq<char>) -> Seq<Seq<char>>
    decreases s.len(),
    via words_decreases
{
    let rest = trim_start(s);
    let n = prefix_while(rest, non_whitespace());
    if n == 0 {
        Seq::empty()
    } else {
        seq![rest.take(n as int)] + words(rest.skip(n as int))
    }
}

#[via_fn]
proof fn words_decreases(s: Seq<char>) {
    lemma_prefix_while_bound(s, whitespace());
    lemma_prefix_while_bound(trim_start(s), non_whitespace());
}

/// The pieces of `s` between the occurrences of `sep`. There is one piece
/// more than there are occurrences, and a piece may be empty.
pub open spec fn split(s: Seq<char>, sep: char) -> Seq<Seq<char>>
    decreases s.len(),
{
    let n = prefix_while(s, other_than(sep));
    if n >= s.len() {
        seq![s]
    } else {
        seq![s.take(n as int)] + split(s.skip(n as int + 1), sep)
    }
}

/// The piece of `s` at `index` among those that `sep` separates, if there
/// are that many.
pub open spec fn segment(s: Seq<char>, sep: char, index: nat) -> Option<Seq<char>> {
    let pieces = split(s, sep);
    if index < pieces.len() {
        Some(pieces[index as int])
    } else {
        None
    }
}

/// The lines of `lines` with `sep` between each two neighbours.
pub open spec fn join(lines: Seq<Seq<char>>, sep: Seq<char>) -> Seq<char>
    decreases lines.len(),
{
    if lines.len() == 0 {
        Seq::empty()
    } else if lines.len() == 1 {
        lines[0]
    } else {
        join(lines.drop_last(), sep) + sep + lines.last()
    }
}

/// Whether `needle` occurs in `s` as a run of consecutive characters.
pub open spec fn contains_run(s: Seq<char>, needle: Seq<char>) -> bool {
    exists|i: int|
        0 <= i && i + needle.len() <= s.len() && #[trigger] s.subrange(i, i + needle.len())
            == needle
}

/// A prefix of `s` satisfying `keep` is never longer than `s`.
pub proof fn lemma_prefix_while_bound<T>(s: Seq<T>, keep: spec_fn(T) -> bool)
    ensures
        prefix_while(s, keep) <= s.len(),
    decreases s.len(),
{
    if s.len() > 0 && keep(s.first()) {
        lemma_prefix_while_bound(s.drop_first(), keep);
    }
}

/// The elements that `prefix_while` counts satisfy `keep`, and the element
/// after them, if there is one, does not.
pub proof fn lemma_prefix_while_stops<T>(s: Seq<T>, keep: spec_fn(T) -> bool)
    ensures
        prefix_while(s, keep) <= s.len(),
        forall|i: int| 0 <= i < prefix_while(s, keep) ==> keep(#[trigger] s[i]),
        prefix_while(s, keep) < s.len() ==> !keep(s[prefix_while(s, keep) as int]),
    decreases s.len(),
{
    if s.len() > 0 && keep(s.first()) {
        let rest = s.drop_first();
        lemma_prefix_while_stops(rest, keep);
        assert forall|i: int| 0 <= i < prefix_while(s, keep) implies keep(#[trigger] s[i]) by {
            if i > 0 {
                assert(keep(rest[i - 1]));
            }
        }
    }
}

/// No piece of a split holds the separator.
pub proof fn lemma_split_pieces_lack_sep(s: Seq<char>, sep: char)
    ensures
        split(s, sep).len() >= 1,
        forall|k: int|
            0 <= k < split(s, sep).len() ==> !(#[trigger] split(s, sep)[k]).contains(sep),
    decreases s.len(),
{
    let n = prefix_while(s, other_than(sep)) as int;
    lemma_prefix_while_stops(s, other_than(sep));
    if n < s.len() {
        lemma_split_pieces_lack_sep(s.skip(n + 1), sep);
    }
}

/// `prefix_while` is `n` where the first `n` elements satisfy `keep` and the
/// element after them, if there is one, does not.
pub proof fn lemma_prefix_while_is<T>(s: Seq<T>, keep: spec_fn(T) -> bool, n: nat)
    requires
        n <= s.len(),
        forall|i: int| 0 <= i < n ==> keep(#[trigger] s[i]),
        n < s.len() ==> !keep(s[n as int]),
    ensures
        prefix_while(s, keep) == n,
    decreases n,
{
    if n > 0 {
        lemma_prefix_while_is(s.drop_first(), keep, (n - 1) as nat);
    }
}

/// `suffix_while` is `n` where the last `n` elements satisfy `keep` and the
/// element before them, if there is one, does not.
pub proof fn lemma_suffix_while_is<T>(s: Seq<T>, keep: spec_fn(T) -> bool, n: nat)
    requires
        n <= s.len(),
        forall|i: int| s.len() - n <= i < s.len() ==> keep(#[trigger] s[i]),
        n < s.len() ==> !keep(s[s.len() - n - 1]),
    ensures
        suffix_while(s, keep) == n,
    decreases n,
{
    if n > 0 {
        lemma_suffix_while_is(s.drop_last(), keep, (n - 1) as nat);
    }
}

/// Tests a character for the Unicode property `White_Space`.
pub fn char_is_whitespace(c: char) -> (b: bool)
    ensures
        b == is_whitespace(c),
{
    let u: u32 = c as u32;
    (0x09 <= u && u <= 0x0D) || u == 0x20 || u == 0x85 || u == 0xA0 || u == 0x1680 || (0x2000 <= u
        && u <= 0x200A) || u == 0x2028 || u == 0x2029 || u == 0x202F || u == 0x205F || u == 0x3000
}

/// The characters of a string, in order.
pub fn chars_of(s: &str) -> (chars: Vec<char>)
    ensures
        chars@ == s@,
{
    let mut chars: Vec<char> = Vec::new();
    for c in it: s.chars()
        invariant
            it.seq() == s@,
            chars@ == s@.take(it.index() as int),
    {
        chars.push(c);
    }
    chars
}

/// The characters of `s` from position `from` up to, not including, `to`, as
/// a string of their own.
pub(crate) fn substring(s: &str, from: usize, to: usize) -> (piece: String)
    requires
        from <= to <= s@.len(),
    ensures
        piece@ == s@.subrange(from as int, to as int),
{
    s.substring_char(from, to).to_owned()
}

/// The position after the whitespace that starts at `from`.
pub(crate) fn skip_whitespace(chars: &Vec<char>, from: usize) -> (to: usize)
    requires
        from <= chars.len(),
    ensures
        from <= to <= chars.len(),
        to == from + prefix_while(chars@.skip(from as int), whitespace()),
{
    let mut i: usize = from;
    while i < chars.len() && char_is_whitespace(chars[i])
        invariant
            from <= i <= chars.len(),
            forall|j: int| from <= j < i ==> is_whitespace(#[trigger] chars@[j]),
        decreases chars.len() - i,
    {
        i += 1;
    }
    proof {
        lemma_prefix_while_is(chars@.skip(from as int), whitespace(), (i - from) as nat);
    }
    i
}

/// The position after the run of non-whitespace that starts at `from`.
pub(crate) fn skip_word(chars: &Vec<char>, from: usize) -> (to: usize)
    requires
        from <= chars.len(),
    ensures
        from <= to <= chars.len(),
        to == from + prefix_while(chars@.skip(from as int), non_whitespace()),
{
    let mut i: usize = from;
    while i < chars.len() && !char_is_whitespace(chars[i])
        invariant
            from <= i <= chars.len(),
            forall|j: int| from <= j < i ==> !is_whitespace(#[trigger] chars@[j]),
        decreases chars.len() - i,
    {
        i += 1;
    }
    proof {
        lemma_prefix_while_is(chars@.skip(from as int), non_whitespace(), (i - from) as nat);
    }
    i
}

/// The position of the first `sep` at or after `from`, or the length of
/// `chars` where there is none.
pub(crate) fn skip_until(chars: &Vec<char>, from: usize, sep: char) -> (to: usize)
    requires
        from <= chars.len(),
    ensures
        from <= to <= chars.len(),
        to == from + prefix_while(chars@.skip(from as int), other_than(sep)),
{
    let mut i: usize = from;
    while i < chars.len() && chars[i] != sep
        invariant
            from <= i <= chars.len(),
            forall|j: int| from <= j < i ==> #[trigger] chars@[j] != sep,
        decreases chars.len() - i,
    {
        i += 1;
    }
    proof {
        lemma_prefix_while_is(chars@.skip(from as int), other_than(sep), (i - from) as nat);
    }
    i
}

/// The bounds of what trimming leaves of the characters from `from` up to
/// `to`.
pub(crate) fn trim_bounds(chars: &Vec<char>, from: usize, to: usize) -> (bounds: (usize, usize))
    requires
        from <= to <= chars.len(),
    ensures
        from <= bounds.0 <= bounds.1 <= to,
        chars@.subrange(bounds.0 as int, bounds.1 as int) == trim(
            chars@.subrange(from as int, to as int),
        ),
{
    let ghost whole = chars@.subrange(from as int, to as int);
    let mut a: usize = from;
    while a < to && char_is_whitespace(chars[a])
        invariant
            from <= a <= to <= chars.len(),
            forall|j: int| from <= j < a ==> is_whitespace(#[trigger] chars@[j]),
        decreases to - a,
    {
        a += 1;
    }
    let mut b: usize = to;
    while a < b && char_is_whitespace(chars[b - 1])
        invariant
            a <= b <= to <= chars.len(),
            forall|j: int| b <= j < to ==> is_whitespace(#[trigger] chars@[j]),
        decreases b - a,
    {
        b -= 1;
    }
    proof {
        lemma_prefix_while_is(whole, whitespace(), (a - from) as nat);
        lemma_suffix_while_is(trim_start(whole), whitespace(), (to - b) as nat);
    }
    (a, b)
}

/// `s` without its leading and trailing whitespace.
pub fn trimmed(s: &str) -> (t: String)
    ensures
        t@ == trim(s@),
{
    let chars = chars_of(s);
    let (a, b) = trim_bounds(&chars, 0, chars.len());
    assert(chars@.subrange(0, chars.len() as int) == chars@);
    substring(s, a, b)
}

/// Whether `s` holds nothing but whitespace.
pub fn blank(s: &str) -> (b: bool)
    ensures
        b == is_blank(s@),
{
    let chars = chars_of(s);
    proof {
        assert(chars@.skip(0) == chars@);
        lemma_prefix_while_stops(chars@, whitespace());
    }
    skip_whitespace(&chars, 0) == chars.len()
}

/// The words of `s`: its maximal runs of non-whitespace characters, in
/// order.
pub fn split_whitespace(s: &str) -> (pieces: Vec<String>)
    ensures
        pieces.deep_view() == words(s@),
{
    let chars = chars_of(s);
    let mut pieces: Vec<String> = Vec::new();
    let mut at: usize = 0;
    assert(s@.skip(0) == s@);
    loop
        invariant
            chars@ == s@,
            at <= chars.len(),
            words(s@) == pieces.deep_view() + words(s@.skip(at as int)),
        decreases chars.len() - at,
    {
        let from = skip_whitespace(&chars, at);
        let to = skip_word(&chars, from);
        let ghost rest = s@.skip(at as int);
        assert(trim_start(rest) == s@.skip(from as int));
        if to == from {
            return pieces;
        }
        let piece = substring(s, from, to);
        proof {
            assert(s@.skip(from as int).take(to - from) == piece@);
            assert(s@.skip(from as int).skip(to - from) == s@.skip(to as int));
            assert(pieces.deep_view().push(piece@) + words(s@.skip(to as int))
                == pieces.deep_view() + words(rest));
        }
        pieces.push(piece);
        at = to;
    }
}

/// The piece of `s` at `index` among those that `sep` separates, if there
/// are that many.
pub fn nth_segment(s: &str, sep: char, index: usize) -> (piece: Option<String>)
    ensures
        piece.deep_view() == segment(s@, sep, index as nat),
{
    let chars = chars_of(s);
    let mut start: usize = 0;
    let mut passed: usize = 0;
    assert(s@.skip(0) == s@);
    while passed < index
        invariant
            chars@ == s@,
            passed <= index,
            start <= chars.len(),
            segment(s@, sep, index as nat) == segment(
                s@.skip(start as int),
                sep,
                (index - passed) as nat,
            ),
        decreases index - passed,
    {
        let end = skip_until(&chars, start, sep);
        if end == chars.len() {
            return None;
        }
        assert(s@.skip(start as int).skip(end - start + 1) == s@.skip(end + 1));
        start = end + 1;
        passed += 1;
    }
    let end = skip_until(&chars, start, sep);
    Some(substring(s, start, end))
}

/// Whether `s` begins with `prefix`.
pub fn starts_with(s: &str, prefix: &str) -> (b: bool)
    ensures
        b == prefix@.is_prefix_of(s@),
{
    let chars = chars_of(s);
    let wanted = chars_of(prefix);
    if wanted.len() > chars.len() {
        return false;
    }
    let mut i: usize = 0;
    while i < wanted.len()
        invariant
            chars@ == s@,
            wanted@ == prefix@,
            i <= wanted.len() <= chars.len(),
            forall|j: int| 0 <= j < i ==> chars@[j] == wanted@[j],
        decreases wanted.len() - i,
    {
        if chars[i] != wanted[i] {
            return false;
        }
        i += 1;
    }
    true
}

/// Whether `needle` occurs in `s` as a run of consecutive characters.
pub fn contains(s: &str, needle: &str) -> (b: bool)
    ensures
        b == contains_run(s@, needle@),
{
    let chars = chars_of(s);
    let wanted = chars_of(needle);
    if wanted.len() > chars.len() {
        return false;
    }
    let last: usize = chars.len() - wanted.len();
    let mut at: usize = 0;
    while at <= last
        invariant
            chars@ == s@,
            wanted@ == needle@,
            last == chars.len() - wanted.len(),
            at <= last + 1,
            forall|i: int|
                0 <= i < at ==> #[trigger] chars@.subrange(i, i + wanted.len()) != wanted@,
        decreases last + 1 - at,
    {
        let mut i: usize = 0;
        while i < wanted.len() && chars[at + i] == wanted[i]
            invariant
                at <= last,
                last == chars.len() - wanted.len(),
                i <= wanted.len(),
                forall|j: int| 0 <= j < i ==> chars@[at + j] == wanted@[j],
            decreases wanted.len() - i,
        {
            i += 1;
        }
        if i == wanted.len() {
            assert(chars@.subrange(at as int, at + wanted.len()) =~= wanted@);
            return true;
        }
        at += 1;
    }
    false
}

} // verus!
