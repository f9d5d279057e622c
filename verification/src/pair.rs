//! The `key:value` arguments: a key, the first colon, and a value that may
//! hold further colons.

use vstd::prelude::*;
use crate::error::{EventError, PairKind};
use crate::text::{cut, lemma_cut_joined, lemma_cut_parts, occurs_at, split_once};

verus! {

/// The colon as a pattern of one character.
pub open spec fn colon() -> Seq<char> {
    seq![':']
}

/// Key and value of a `key:value` text, split at its first colon. `None`
/// where the text holds no colon.
pub open spec fn pair_of(text: Seq<char>) -> Option<(Seq<char>, Seq<char>)> {
    cut(text, colon())
}

/// What reading one argument of the given kind gives: the pair, or the
/// error that names the kind.
pub open spec fn pair_read(kind: PairKind, text: Seq<char>) -> Result<
    (Seq<char>, Seq<char>),
    EventError,
> {
    match pair_of(text) {
        Some(pair) => Ok(pair),
        None => Err(EventError::MissingValue(kind)),
    }
}

/// Splits a `key:value` text at its first colon.
pub fn split_pair(text: &str) -> (r: Option<(String, String)>)
    ensures
        match r {
            Some((key, value)) => pair_of(text@) == Some((key@, value@)),
            None => pair_of(text@) is None,
        },
{
    proof {
        reveal_strlit(":");
        assert(":"@ =~= colon());
    }
    split_once(text, ":")
}

/// Reads one `key:value` argument of the given kind. Fails exactly where
/// the text holds no colon.
pub fn read_pair(kind: PairKind, text: &str) -> (r: Result<(String, String), EventError>)
    ensures
        match r {
            Ok((key, value)) => pair_read(kind, text@) == Ok::<_, EventError>((key@, value@)),
            Err(error) => pair_read(kind, text@) == Err::<(Seq<char>, Seq<char>), _>(error),
        },
{
    match split_pair(text) {
        Some(pair) => Ok(pair),
        None => Err(EventError::MissingValue(kind)),
    }
}

/// A colon stands at `at` exactly where the one-character pattern does.
proof fn lemma_colon_occurs(text: Seq<char>, at: int)
    ensures
        occurs_at(text, colon(), at) <==> (0 <= at < text.len() && text[at] == ':'),
{
    if 0 <= at < text.len() {
        let window = text.subrange(at, at + 1);
        assert(window.len() == 1);
        assert(window[0] == text[at]);
        if text[at] == ':' {
            assert(window =~= colon());
        } else {
            assert(colon()[0] == ':');
        }
    }
}

/// Only the first colon splits: a key without a colon, a colon and any
/// value, put together, split into that key and that value, whatever colons the
/// value holds.
pub proof fn lemma_split_at_first_colon(key: Seq<char>, value: Seq<char>)
    requires
        !key.contains(':'),
    ensures
        pair_of(key + colon() + value) == Some((key, value)),
{
    let whole = key + colon() + value;
    assert forall|j: int| 0 <= j < key.len() implies !occurs_at(whole, colon(), j) by {
        lemma_colon_occurs(whole, j);
        assert(whole[j] == key[j]);
    }
    lemma_cut_joined(key, colon(), value);
}

/// What a split gives: the key holds no colon, and key, colon and value
/// make up the text.
pub proof fn lemma_pair_parts(text: Seq<char>)
    requires
        pair_of(text) is Some,
    ensures
        ({
            let (key, value) = pair_of(text).unwrap();
            &&& text == key + colon() + value
            &&& !key.contains(':')
        }),
{
    lemma_cut_parts(text, colon());
    let (key, value) = pair_of(text).unwrap();
    assert forall|j: int| 0 <= j < key.len() implies key[j] != ':' by {
        lemma_colon_occurs(text, j);
        assert(text[j] == key[j]);
    }
}

/// A text splits exactly where it holds a colon.
pub proof fn lemma_pair_needs_colon(text: Seq<char>)
    ensures
        pair_of(text) is Some <==> text.contains(':'),
{
    if text.contains(':') {
        let at = choose|i: int| 0 <= i < text.len() && text[i] == ':';
        lemma_colon_occurs(text, at);
    }
    if pair_of(text) is Some {
        let at = choose|i: int| occurs_at(text, colon(), i);
        lemma_colon_occurs(text, at);
    }
}

} // verus!
