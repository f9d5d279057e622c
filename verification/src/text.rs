//! Searching and cutting text, by characters.

use vstd::prelude::*;

verus! {

/// Whether two texts hold the same characters.
pub fn same_text(a: &str, b: &str) -> (r: bool)
    ensures
        r == (a@ == b@),
{
    let x = a.to_owned();
    let y = b.to_owned();
    x == y
}

/// The characters of a text, in order.
pub fn chars_of(text: &str) -> (r: Vec<char>)
    ensures
        r@ == text@,
{
    let mut out: Vec<char> = Vec::new();
    for c in it: text.chars()
        invariant
            out@ == it.seq().take(it.index() as int),
            it.seq() == text@,
    {
        out.push(c);
    }
    out
}

/// Whether `pattern` stands in `text` at position `at`.
pub open spec fn occurs_at(text: Seq<char>, pattern: Seq<char>, at: int) -> bool {
    &&& 0 <= at
    &&& at + pattern.len() <= text.len()
    &&& text.subrange(at, at + pattern.len()) == pattern
}

/// Whether `at` is the leftmost position at which `pattern` stands in `text`.
pub open spec fn is_first_occurrence(text: Seq<char>, pattern: Seq<char>, at: int) -> bool {
    &&& occurs_at(text, pattern, at)
    &&& forall|j: int| 0 <= j < at ==> !occurs_at(text, pattern, j)
}

/// The leftmost position at which `pattern` stands in `text`, if it stands
/// there at all.
pub open spec fn first_occurrence(text: Seq<char>, pattern: Seq<char>) -> Option<int> {
    if exists|at: int| occurs_at(text, pattern, at) {
        Some(choose|at: int| is_first_occurrence(text, pattern, at))
    } else {
        None
    }
}

/// `text` cut in two at the leftmost `pattern`: what stands before it and
/// what stands after it. `None` where `pattern` does not occur.
pub open spec fn cut(text: Seq<char>, pattern: Seq<char>) -> Option<(Seq<char>, Seq<char>)> {
    match first_occurrence(text, pattern) {
        Some(at) => Some((text.take(at), text.skip(at + pattern.len()))),
        None => None,
    }
}

/// A leftmost occurrence is the one that `first_occurrence` names.
pub proof fn lemma_first_occurrence_is(text: Seq<char>, pattern: Seq<char>, at: int)
    requires
        is_first_occurrence(text, pattern, at),
    ensures
        first_occurrence(text, pattern) == Some(at),
{
    let chosen = choose|i: int| is_first_occurrence(text, pattern, i);
    assert(is_first_occurrence(text, pattern, chosen));
    if chosen < at {
        assert(!occurs_at(text, pattern, chosen));
    }
    if at < chosen {
        assert(!occurs_at(text, pattern, at));
    }
}

/// Whether `pattern` stands in `text` at `at`, compared character by character.
fn matches_at(text: &Vec<char>, pattern: &Vec<char>, at: usize) -> (r: bool)
    requires
        at + pattern@.len() <= text@.len(),
    ensures
        r == occurs_at(text@, pattern@, at as int),
{
    let length: usize = text.len();
    let mut k: usize = 0;
    while k < pattern.len()
        invariant
            k <= pattern@.len(),
            at + pattern@.len() <= text@.len() == length,
            forall|j: int| 0 <= j < k ==> text@[at + j] == pattern@[j],
        decreases pattern@.len() - k,
    {
        if text[at + k] != pattern[k] {
            proof {
                let window = text@.subrange(at as int, at + pattern@.len());
                assert(window[k as int] == text@[at + k]);
            }
            return false;
        }
        k += 1;
    }
    assert(text@.subrange(at as int, at + pattern@.len()) =~= pattern@);
    true
}

/// The leftmost position of `pattern` in `text`.
pub fn find_first(text: &Vec<char>, pattern: &Vec<char>) -> (r: Option<usize>)
    ensures
        match r {
            Some(at) => {
                &&& first_occurrence(text@, pattern@) == Some(at as int)
                &&& is_first_occurrence(text@, pattern@, at as int)
            },
            None => first_occurrence(text@, pattern@) is None,
        },
{
    if pattern.len() > text.len() {
        return None;
    }
    let last: usize = text.len() - pattern.len();
    let mut at: usize = 0;
    while at <= last
        invariant
            last == text@.len() - pattern@.len(),
            at <= last + 1,
            text@.len() <= usize::MAX,
            pattern@.len() == 0 ==> at == 0,
            forall|j: int| 0 <= j < at ==> !occurs_at(text@, pattern@, j),
        decreases last + 1 - at,
    {
        assert(pattern@.len() == 0 ==> text@.subrange(0, 0) =~= pattern@);
        if matches_at(text, pattern, at) {
            proof {
                lemma_first_occurrence_is(text@, pattern@, at as int);
            }
            return Some(at);
        }
        at += 1;
    }
    None
}

/// Cuts `text` in two at the leftmost `pattern`. The pattern itself is in
/// neither part. `None` where the pattern does not occur.
pub fn split_once(text: &str, pattern: &str) -> (r: Option<(String, String)>)
    ensures
        match r {
            Some((before, after)) => cut(text@, pattern@) == Some((before@, after@)),
            None => cut(text@, pattern@) is None,
        },
{
    let chars = chars_of(text);
    let sought = chars_of(pattern);
    let total: usize = chars.len();
    match find_first(&chars, &sought) {
        Some(at) => {
            let before = text.substring_char(0, at).to_owned();
            let after = text.substring_char(at + sought.len(), total).to_owned();
            Some((before, after))
        },
        None => None,
    }
}

/// Where no occurrence of `pattern` starts inside `before`, the cut of
/// `before + pattern + after` gives the two parts back.
pub proof fn lemma_cut_joined(before: Seq<char>, pattern: Seq<char>, after: Seq<char>)
    requires
        forall|j: int| 0 <= j < before.len() ==> !occurs_at(before + pattern + after, pattern, j),
    ensures
        cut(before + pattern + after, pattern) == Some((before, after)),
{
    let whole = before + pattern + after;
    let at = before.len() as int;
    assert(whole.subrange(at, at + pattern.len()) =~= pattern);
    lemma_first_occurrence_is(whole, pattern, at);
    assert(whole.take(at) =~= before);
    assert(whole.skip(at + pattern.len()) =~= after);
}

/// What a cut gives, put together again around the pattern, is the text;
/// and the pattern starts nowhere before the cut.
pub proof fn lemma_cut_parts(text: Seq<char>, pattern: Seq<char>)
    requires
        cut(text, pattern) is Some,
    ensures
        ({
            let (before, after) = cut(text, pattern).unwrap();
            &&& text == before + pattern + after
            &&& forall|j: int| 0 <= j < before.len() ==> !occurs_at(text, pattern, j)
        }),
{
    let at = choose|i: int| occurs_at(text, pattern, i);
    lemma_least_occurrence(text, pattern, at);
    let first = first_occurrence(text, pattern).unwrap();
    assert(is_first_occurrence(text, pattern, first));
    let (before, after) = cut(text, pattern).unwrap();
    assert(text =~= before + text.subrange(first, first + pattern.len()) + after);
}

/// Below any occurrence there is a leftmost one.
proof fn lemma_least_occurrence(text: Seq<char>, pattern: Seq<char>, at: int)
    requires
        occurs_at(text, pattern, at),
    ensures
        exists|first: int| is_first_occurrence(text, pattern, first),
    decreases at,
{
    if exists|j: int| 0 <= j < at && occurs_at(text, pattern, j) {
        let j = choose|j: int| 0 <= j < at && occurs_at(text, pattern, j);
        lemma_least_occurrence(text, pattern, j);
    } else {
        assert(is_first_occurrence(text, pattern, at));
    }
}

/// The lower-case form of an ASCII capital letter; any other character
/// is left as it is.
pub open spec fn lowered(c: char) -> char {
    if 'A' <= c <= 'Z' {
        ((c as u8) + 32) as char
    } else {
        c
    }
}

/// A text with each ASCII capital letter replaced by its lower-case form.
pub open spec fn ascii_lowercase(text: Seq<char>) -> Seq<char> {
    Seq::new(text.len(), |i: int| lowered(text[i]))
}

/// Calls `str::to_ascii_lowercase`, which maps the letters `A` to `Z` to
/// `a` to `z` and leaves every other character unchanged.
#[verifier::external_body]
pub(crate) fn to_ascii_lowercase(text: &str) -> (r: String)
    ensures
        r@ == ascii_lowercase(text@),
{
    text.to_ascii_lowercase()
}

/// The characters of an optional text.
pub open spec fn text_of(text: Option<String>) -> Option<Seq<char>> {
    match text {
        Some(t) => Some(t@),
        None => None,
    }
}

/// The characters of each text of a list.
pub open spec fn texts_of(items: Seq<String>) -> Seq<Seq<char>> {
    Seq::new(items.len(), |i: int| items[i]@)
}

} // verus!
