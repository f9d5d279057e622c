//! Tags and extra data: maps that are merged from `key:value` arguments.

use vstd::prelude::*;
use crate::dict::{entries_map, Dict};
use crate::error::{EventError, PairKind};
use crate::pair::{pair_of, pair_read, read_pair};
use crate::text::texts_of;

verus! {

/// The map that a list of `key:value` texts describes, read from left to
/// right so that a later text overwrites an earlier one with the same key; or
/// the error of the first text that holds no colon.
pub open spec fn merged_pairs(kind: PairKind, pairs: Seq<Seq<char>>) -> Result<
    Map<Seq<char>, Seq<char>>,
    EventError,
>
    decreases pairs.len(),
{
    if pairs.len() == 0 {
        Ok(Map::empty())
    } else {
        match merged_pairs(kind, pairs.drop_last()) {
            Ok(map) => match pair_read(kind, pairs.last()) {
                Ok((key, value)) => Ok(map.insert(key, value)),
                Err(error) => Err(error),
            },
            Err(error) => Err(error),
        }
    }
}

/// An error among the first texts is the error of the whole list.
proof fn lemma_error_stays(kind: PairKind, pairs: Seq<Seq<char>>, upto: int)
    requires
        0 <= upto <= pairs.len(),
        merged_pairs(kind, pairs.take(upto)) is Err,
    ensures
        merged_pairs(kind, pairs) == merged_pairs(kind, pairs.take(upto)),
    decreases pairs.len() - upto,
{
    if upto == pairs.len() {
        assert(pairs.take(upto) =~= pairs);
    } else {
        assert(pairs.take(upto + 1).drop_last() =~= pairs.take(upto));
        lemma_error_stays(kind, pairs, upto + 1);
    }
}

/// The merge fails exactly where some text holds no colon, and then with
/// the error that names the kind.
pub proof fn lemma_merge_fails(kind: PairKind, pairs: Seq<Seq<char>>)
    ensures
        merged_pairs(kind, pairs) is Err <==> exists|i: int|
            0 <= i < pairs.len() && !(#[trigger] pairs[i]).contains(':'),
        merged_pairs(kind, pairs) is Err ==> merged_pairs(kind, pairs) == Err::<
            Map<Seq<char>, Seq<char>>,
            _,
        >(EventError::MissingValue(kind)),
    decreases pairs.len(),
{
    if pairs.len() > 0 {
        let front = pairs.drop_last();
        lemma_merge_fails(kind, front);
        crate::pair::lemma_pair_needs_colon(pairs.last());
        if merged_pairs(kind, pairs) is Err {
            if merged_pairs(kind, front) is Err {
                let i = choose|i: int| 0 <= i < front.len() && !(#[trigger] front[i]).contains(':');
                assert(!pairs[i].contains(':'));
            } else {
                assert(!pairs[pairs.len() - 1].contains(':'));
            }
        }
        if exists|i: int| 0 <= i < pairs.len() && !(#[trigger] pairs[i]).contains(':') {
            let i = choose|i: int| 0 <= i < pairs.len() && !(#[trigger] pairs[i]).contains(':');
            if i < front.len() {
                assert(!front[i].contains(':'));
            }
        }
    }
}

/// The last write wins: where every text splits, the map gives the key
/// of a text that text's value, unless a later text has the same key.
pub proof fn lemma_last_write_wins(kind: PairKind, pairs: Seq<Seq<char>>, at: int)
    requires
        merged_pairs(kind, pairs) is Ok,
        0 <= at < pairs.len(),
        forall|j: int|
            at < j < pairs.len() ==> (#[trigger] pair_of(pairs[j])).unwrap().0 != pair_of(
                pairs[at],
            ).unwrap().0,
    ensures
        pair_of(pairs[at]) is Some,
        merged_pairs(kind, pairs).unwrap().contains_key(pair_of(pairs[at]).unwrap().0),
        merged_pairs(kind, pairs).unwrap()[pair_of(pairs[at]).unwrap().0] == pair_of(
            pairs[at],
        ).unwrap().1,
    decreases pairs.len(),
{
    let front = pairs.drop_last();
    if at < pairs.len() - 1 {
        assert(pair_of(pairs[pairs.len() - 1]).unwrap().0 != pair_of(pairs[at]).unwrap().0);
        assert forall|j: int| at < j < front.len() implies (#[trigger] pair_of(
            front[j],
        )).unwrap().0 != pair_of(front[at]).unwrap().0 by {
            assert(pair_of(pairs[j]).unwrap().0 != pair_of(pairs[at]).unwrap().0);
        }
        lemma_last_write_wins(kind, front, at);
    }
}

/// A key is in the merged map exactly where some text has it.
pub proof fn lemma_merged_keys(kind: PairKind, pairs: Seq<Seq<char>>, key: Seq<char>)
    requires
        merged_pairs(kind, pairs) is Ok,
    ensures
        merged_pairs(kind, pairs).unwrap().contains_key(key) <==> exists|i: int|
            0 <= i < pairs.len() && (#[trigger] pair_of(pairs[i])) is Some && pair_of(
                pairs[i],
            ).unwrap().0 == key,
    decreases pairs.len(),
{
    if pairs.len() > 0 {
        let front = pairs.drop_last();
        lemma_merged_keys(kind, front, key);
        let here = pair_of(pairs[pairs.len() - 1]);
        if merged_pairs(kind, pairs).unwrap().contains_key(key) {
            if here.unwrap().0 != key {
                let i = choose|i: int|
                    0 <= i < front.len() && (#[trigger] pair_of(front[i])) is Some && pair_of(
                        front[i],
                    ).unwrap().0 == key;
                assert(pair_of(pairs[i]) is Some);
            }
        }
        if exists|i: int|
            0 <= i < pairs.len() && (#[trigger] pair_of(pairs[i])) is Some && pair_of(
                pairs[i],
            ).unwrap().0 == key {
            let i = choose|i: int|
                0 <= i < pairs.len() && (#[trigger] pair_of(pairs[i])) is Some && pair_of(
                    pairs[i],
                ).unwrap().0 == key;
            if i < front.len() {
                assert(pair_of(front[i]) is Some);
            }
        }
    }
}

/// The tags of an event: the given `key:value` texts merged into a map.
pub fn derive_tags(pairs: &Vec<String>) -> (r: Result<Dict<String>, EventError>)
    ensures
        match r {
            Ok(tags) => merged_pairs(PairKind::Tag, texts_of(pairs@)) == Ok::<_, EventError>(
                tags@,
            ),
            Err(error) => merged_pairs(PairKind::Tag, texts_of(pairs@)) == Err::<
                Map<Seq<char>, Seq<char>>,
                _,
            >(error),
        },
{
    let mut tags: Dict<String> = Dict::new();
    let mut at: usize = 0;
    proof {
        assert(texts_of(pairs@).take(0) =~= Seq::<Seq<char>>::empty());
    }
    while at < pairs.len()
        invariant
            at <= pairs@.len(),
            merged_pairs(PairKind::Tag, texts_of(pairs@).take(at as int)) == Ok::<_, EventError>(
                tags@,
            ),
        decreases pairs@.len() - at,
    {
        proof {
            let upto = texts_of(pairs@).take(at + 1);
            assert(upto.drop_last() =~= texts_of(pairs@).take(at as int));
            assert(upto.last() == pairs@[at as int]@);
            if merged_pairs(PairKind::Tag, upto) is Err {
                lemma_error_stays(PairKind::Tag, texts_of(pairs@), at + 1);
            }
        }
        match read_pair(PairKind::Tag, pairs[at].as_str()) {
            Ok((key, value)) => {
                tags.insert(key, value);
            },
            Err(error) => {
                return Err(error);
            },
        }
        at += 1;
    }
    proof {
        assert(texts_of(pairs@).take(at as int) =~= texts_of(pairs@));
    }
    Ok(tags)
}

/// A value of the extra data: a text, or an object with text fields.
#[derive(Debug)]
pub enum ExtraValue {
    Text(String),
    Object(Dict<String>),
}

/// What an `ExtraValue` stands for.
pub enum ExtraValueView {
    Text(Seq<char>),
    Object(Map<Seq<char>, Seq<char>>),
}

impl View for ExtraValue {
    type V = ExtraValueView;

    open spec fn view(&self) -> ExtraValueView {
        match self {
            ExtraValue::Text(text) => ExtraValueView::Text(text@),
            ExtraValue::Object(fields) => ExtraValueView::Object(fields@),
        }
    }
}

/// The key under which the process environment is put.
pub open spec fn environ_key() -> Seq<char> {
    "environ"@
}

/// The extra data before any argument is read: the environment as one
/// object under the key `environ`, or nothing where that is switched off.
pub open spec fn extra_base(no_environ: bool, environ: Seq<(String, String)>) -> Map<
    Seq<char>,
    ExtraValueView,
> {
    if no_environ {
        Map::empty()
    } else {
        Map::empty().insert(environ_key(), ExtraValueView::Object(entries_map(environ)))
    }
}

/// The extra data of an event: the environment entry first, then the
/// given `key:value` texts as text values, which overwrite what is there.
pub open spec fn extra_given(
    pairs: Seq<Seq<char>>,
    no_environ: bool,
    environ: Seq<(String, String)>,
) -> Result<Map<Seq<char>, ExtraValueView>, EventError> {
    match merged_pairs(PairKind::Extra, pairs) {
        Ok(given) => Ok(
            extra_base(no_environ, environ).union_prefer_right(
                given.map_values(|value: Seq<char>| ExtraValueView::Text(value)),
            ),
        ),
        Err(error) => Err(error),
    }
}

/// The variables of the environment as one object. Of two variables with
/// the same name the later one stays.
pub fn environ_object(environ: &Vec<(String, String)>) -> (r: ExtraValue)
    ensures
        r@ == ExtraValueView::Object(entries_map(environ@)),
{
    let mut fields: Dict<String> = Dict::new();
    let mut at: usize = 0;
    proof {
        assert(environ@.take(0) =~= Seq::<(String, String)>::empty());
    }
    while at < environ.len()
        invariant
            at <= environ@.len(),
            fields@ == entries_map(environ@.take(at as int)),
        decreases environ@.len() - at,
    {
        proof {
            let upto = environ@.take(at + 1);
            assert(upto.drop_last() =~= environ@.take(at as int));
            assert(upto.last() == environ@[at as int]);
        }
        fields.insert(environ[at].0.clone(), environ[at].1.clone());
        at += 1;
    }
    proof {
        assert(environ@.take(at as int) =~= environ@);
    }
    ExtraValue::Object(fields)
}

/// The extra data of an event. Unless `no_environ` is set, the variables
/// of `environ` are put under the key `environ` first; then each `key:value`
/// text is written as a text value.
pub fn derive_extra(pairs: &Vec<String>, no_environ: bool, environ: &Vec<(String, String)>) -> (r:
    Result<Dict<ExtraValue>, EventError>)
    ensures
        match r {
            Ok(extra) => extra_given(texts_of(pairs@), no_environ, environ@) == Ok::<
                _,
                EventError,
            >(extra@),
            Err(error) => extra_given(texts_of(pairs@), no_environ, environ@) == Err::<
                Map<Seq<char>, ExtraValueView>,
                _,
            >(error),
        },
{
    let ghost wrap = |value: Seq<char>| ExtraValueView::Text(value);
    let ghost base = extra_base(no_environ, environ@);
    let mut extra: Dict<ExtraValue> = Dict::new();
    if !no_environ {
        extra.insert("environ".to_owned(), environ_object(environ));
    }
    let mut at: usize = 0;
    proof {
        assert(texts_of(pairs@).take(0) =~= Seq::<Seq<char>>::empty());
        assert(extra@ =~= base.union_prefer_right(Map::<Seq<char>, Seq<char>>::empty().map_values(wrap)));
    }
    while at < pairs.len()
        invariant
            at <= pairs@.len(),
            wrap == |value: Seq<char>| ExtraValueView::Text(value),
            base == extra_base(no_environ, environ@),
            merged_pairs(PairKind::Extra, texts_of(pairs@).take(at as int)) is Ok,
            extra@ == base.union_prefer_right(
                merged_pairs(PairKind::Extra, texts_of(pairs@).take(at as int)).unwrap().map_values(
                    wrap,
                ),
            ),
        decreases pairs@.len() - at,
    {
        let ghost before = merged_pairs(PairKind::Extra, texts_of(pairs@).take(at as int)).unwrap();
        proof {
            let upto = texts_of(pairs@).take(at + 1);
            assert(upto.drop_last() =~= texts_of(pairs@).take(at as int));
            assert(upto.last() == pairs@[at as int]@);
            if merged_pairs(PairKind::Extra, upto) is Err {
                lemma_error_stays(PairKind::Extra, texts_of(pairs@), at + 1);
            }
        }
        match read_pair(PairKind::Extra, pairs[at].as_str()) {
            Ok((key, value)) => {
                proof {
                    assert(base.union_prefer_right(before.map_values(wrap)).insert(
                        key@,
                        ExtraValueView::Text(value@),
                    ) =~= base.union_prefer_right(before.insert(key@, value@).map_values(wrap)));
                }
                extra.insert(key, ExtraValue::Text(value));
            },
            Err(error) => {
                return Err(error);
            },
        }
        at += 1;
    }
    proof {
        assert(texts_of(pairs@).take(at as int) =~= texts_of(pairs@));
    }
    Ok(extra)
}

/// Whether some text of the list has the given key.
pub open spec fn key_given(pairs: Seq<Seq<char>>, key: Seq<char>) -> bool {
    exists|i: int|
        0 <= i < pairs.len() && (#[trigger] pair_of(pairs[i])) is Some && pair_of(
            pairs[i],
        ).unwrap().0 == key
}

/// Unless it is switched off or overwritten, the extra data holds the
/// whole environment under `environ`: where the environment is wanted and no
/// argument has that key, the entry is the object made of all the variables.
pub proof fn lemma_environ_present(pairs: Seq<Seq<char>>, environ: Seq<(String, String)>)
    requires
        merged_pairs(PairKind::Extra, pairs) is Ok,
        !key_given(pairs, environ_key()),
    ensures
        extra_given(pairs, false, environ).unwrap().contains_key(environ_key()),
        extra_given(pairs, false, environ).unwrap()[environ_key()] == ExtraValueView::Object(
            entries_map(environ),
        ),
{
    lemma_merged_keys(PairKind::Extra, pairs, environ_key());
}

/// Where the environment is switched off and no argument has the key
/// `environ`, the extra data has no such key.
pub proof fn lemma_environ_absent(pairs: Seq<Seq<char>>, environ: Seq<(String, String)>)
    requires
        merged_pairs(PairKind::Extra, pairs) is Ok,
        !key_given(pairs, environ_key()),
    ensures
        !extra_given(pairs, true, environ).unwrap().contains_key(environ_key()),
{
    lemma_merged_keys(PairKind::Extra, pairs, environ_key());
}

/// An argument always has the last word: whatever the switch says and
/// whatever the environment holds, the extra data gives the key of an argument
/// that argument's value as a text, unless a later argument has the same key.
pub proof fn lemma_extra_argument_wins(
    pairs: Seq<Seq<char>>,
    no_environ: bool,
    environ: Seq<(String, String)>,
    at: int,
)
    requires
        merged_pairs(PairKind::Extra, pairs) is Ok,
        0 <= at < pairs.len(),
        forall|j: int|
            at < j < pairs.len() ==> (#[trigger] pair_of(pairs[j])).unwrap().0 != pair_of(
                pairs[at],
            ).unwrap().0,
    ensures
        pair_of(pairs[at]) is Some,
        extra_given(pairs, no_environ, environ).unwrap().contains_key(
            pair_of(pairs[at]).unwrap().0,
        ),
        extra_given(pairs, no_environ, environ).unwrap()[pair_of(pairs[at]).unwrap().0]
            == ExtraValueView::Text(pair_of(pairs[at]).unwrap().1),
{
    lemma_last_write_wins(PairKind::Extra, pairs, at);
}

} // verus!
