//! Keyed lookup in a sequence of children: the single primitive that
//! identifier resolution is built on, with its correctness laws.

use vstd::prelude::*;

verus! {

/// The first element of `s` whose key equals `id`, if any.
pub open spec fn find_keyed<A>(s: Seq<A>, key: spec_fn(A) -> u64, id: u64) -> Option<A>
    decreases s.len(),
{
    if s.len() == 0 {
        None
    } else if key(s[0]) == id {
        Some(s[0])
    } else {
        find_keyed(s.drop_first(), key, id)
    }
}

/// `s` with its first element of key `id` replaced by `a`; `s` itself when no
/// element carries that key.
pub open spec fn replace_keyed<A>(s: Seq<A>, key: spec_fn(A) -> u64, id: u64, a: A) -> Seq<A>
    decreases s.len(),
{
    if s.len() == 0 {
        s
    } else if key(s[0]) == id {
        s.update(0, a)
    } else {
        seq![s[0]] + replace_keyed(s.drop_first(), key, id, a)
    }
}

/// No two elements of `s` share a key. The surrounding document model is
/// responsible for establishing this; resolution relies on it for uniqueness.
pub open spec fn unique_keys<A>(s: Seq<A>, key: spec_fn(A) -> u64) -> bool {
    forall|i: int, j: int| 0 <= i < j < s.len() ==> key(s[i]) != key(s[j])
}

/// Resolution correctness: looking up `id` yields an element of `s` whose key
/// equals `id`, or nothing exactly when no element carries that key. A valid
/// sibling identifier therefore never resolves to the wrong child.
pub proof fn lemma_find_keyed_correct<A>(s: Seq<A>, key: spec_fn(A) -> u64, id: u64)
    ensures
        match find_keyed(s, key, id) {
            Some(a) => key(a) == id && s.contains(a),
            None => forall|i: int| 0 <= i < s.len() ==> key(#[trigger] s[i]) != id,
        },
    decreases s.len(),
{
    if s.len() > 0 && key(s[0]) != id {
        lemma_find_keyed_correct(s.drop_first(), key, id);
        match find_keyed(s.drop_first(), key, id) {
            Some(a) => {
                let i = choose|i: int| 0 <= i < s.drop_first().len() && s.drop_first()[i] == a;
                assert(s[i + 1] == a);
            },
            None => {
                assert forall|i: int| 0 <= i < s.len() implies key(#[trigger] s[i]) != id by {
                    if i > 0 {
                        assert(s.drop_first()[i - 1] == s[i]);
                    }
                }
            },
        }
    }
}

/// Under unique keys, resolution returns the one element carrying `id`: any
/// element of `s` whose key equals `id` is the resolved one.
pub proof fn lemma_find_keyed_unique<A>(s: Seq<A>, key: spec_fn(A) -> u64, id: u64, i: int)
    requires
        unique_keys(s, key),
        0 <= i < s.len(),
        key(s[i]) == id,
    ensures
        find_keyed(s, key, id) == Some(s[i]),
    decreases s.len(),
{
    if i == 0 {
    } else {
        assert(key(s[0]) != id);
        assert(unique_keys(s.drop_first(), key)) by {
            assert forall|m: int, n: int|
                0 <= m < n < s.drop_first().len() implies key(s.drop_first()[m]) != key(
                s.drop_first()[n],
            ) by {
                assert(s.drop_first()[m] == s[m + 1]);
                assert(s.drop_first()[n] == s[n + 1]);
            }
        }
        assert(s.drop_first()[i - 1] == s[i]);
        lemma_find_keyed_unique(s.drop_first(), key, id, i - 1);
    }
}

/// When the first match for `id` stands at position `i`, resolution returns
/// exactly the element at `i`.
pub proof fn lemma_find_keyed_at<A>(s: Seq<A>, key: spec_fn(A) -> u64, id: u64, i: int)
    requires
        0 <= i < s.len(),
        key(s[i]) == id,
        forall|j: int| 0 <= j < i ==> key(#[trigger] s[j]) != id,
    ensures
        find_keyed(s, key, id) == Some(s[i]),
    decreases s.len(),
{
    if i > 0 {
        assert(s.drop_first()[i - 1] == s[i]);
        assert forall|j: int| 0 <= j < i - 1 implies key(#[trigger] s.drop_first()[j]) != id by {
            assert(s.drop_first()[j] == s[j + 1]);
        }
        lemma_find_keyed_at(s.drop_first(), key, id, i - 1);
    }
}

/// When the first match for `id` stands at position `i`, replacement updates
/// exactly position `i` and leaves every other element in place.
pub proof fn lemma_replace_keyed_at<A>(s: Seq<A>, key: spec_fn(A) -> u64, id: u64, a: A, i: int)
    requires
        0 <= i < s.len(),
        key(s[i]) == id,
        forall|j: int| 0 <= j < i ==> key(#[trigger] s[j]) != id,
    ensures
        replace_keyed(s, key, id, a) == s.update(i, a),
    decreases s.len(),
{
    if i > 0 {
        assert(s.drop_first()[i - 1] == s[i]);
        assert forall|j: int| 0 <= j < i - 1 implies key(#[trigger] s.drop_first()[j]) != id by {
            assert(s.drop_first()[j] == s[j + 1]);
        }
        lemma_replace_keyed_at(s.drop_first(), key, id, a, i - 1);
        assert(replace_keyed(s, key, id, a) == seq![s[0]] + s.drop_first().update(i - 1, a));
        assert(seq![s[0]] + s.drop_first().update(i - 1, a) =~= s.update(i, a));
    }
}

} // verus!
