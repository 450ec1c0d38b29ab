//! A recency list: the mathematical model of a least-recently-used cache.
//!
//! The list holds key/value pairs, most recently used first. Every key occurs
//! at most once, and the list never grows past a fixed limit: when a new key
//! arrives at a full list, the last pair (the least recently used) leaves.

use vstd::prelude::*;

verus! {

/// Whether some pair of `entries` has the key `key`.
pub open spec fn holds<K, V>(entries: Seq<(K, V)>, key: K) -> bool {
    exists|i: int| 0 <= i < entries.len() && (#[trigger] entries[i]).0 == key
}

/// The place of `key` in `entries`, counted from the most recently used pair.
/// Meaningful only where `holds(entries, key)`.
pub open spec fn rank<K, V>(entries: Seq<(K, V)>, key: K) -> int {
    choose|i: int| 0 <= i < entries.len() && (#[trigger] entries[i]).0 == key
}

/// The value kept under `key`. Meaningful only where `holds(entries, key)`.
pub open spec fn value_of<K, V>(entries: Seq<(K, V)>, key: K) -> V {
    entries[rank(entries, key)].1
}

/// No key occurs twice.
pub open spec fn distinct<K, V>(entries: Seq<(K, V)>) -> bool {
    forall|i: int, j: int|
        0 <= i < j < entries.len() ==> (#[trigger] entries[i]).0 != (#[trigger] entries[j]).0
}

/// The list after `key` has been used: its pair moves to the front and the
/// others keep their order. A key that is not held changes nothing.
pub open spec fn promoted<K, V>(entries: Seq<(K, V)>, key: K) -> Seq<(K, V)> {
    if holds(entries, key) {
        seq![entries[rank(entries, key)]] + entries.remove(rank(entries, key))
    } else {
        entries
    }
}

/// The list after `value` has been put under `key`, with room for `limit`
/// pairs. A key that is held gets the new value and moves to the front. A new
/// key goes to the front; if the list is full, the last pair leaves.
pub open spec fn inserted<K, V>(entries: Seq<(K, V)>, limit: nat, key: K, value: V) -> Seq<(K, V)> {
    if holds(entries, key) {
        seq![(key, value)] + entries.remove(rank(entries, key))
    } else if entries.len() == limit {
        seq![(key, value)] + entries.drop_last()
    } else {
        seq![(key, value)] + entries
    }
}

/// A list that a cache of `limit` places can be in.
pub open spec fn bounded<K, V>(entries: Seq<(K, V)>, limit: nat) -> bool {
    &&& distinct(entries)
    &&& entries.len() <= limit
    &&& limit >= 1
}

/// In a list without repeated keys, the place of a key is the one place
/// where it stands.
pub proof fn lemma_rank_is_unique<K, V>(entries: Seq<(K, V)>, i: int)
    requires
        distinct(entries),
        0 <= i < entries.len(),
    ensures
        holds(entries, entries[i].0),
        rank(entries, entries[i].0) == i,
        value_of(entries, entries[i].0) == entries[i].1,
{
    let key = entries[i].0;
    let r = rank(entries, key);
    assert(0 <= r < entries.len() && entries[r].0 == key);
    if r < i {
        assert(entries[r].0 != entries[i].0);
    } else if i < r {
        assert(entries[i].0 != entries[r].0);
    }
}

/// A key that is held stands at its rank.
pub proof fn lemma_rank_in_range<K, V>(entries: Seq<(K, V)>, key: K)
    requires
        holds(entries, key),
    ensures
        0 <= rank(entries, key) < entries.len(),
        entries[rank(entries, key)].0 == key,
{
}

/// Using a key keeps every pair and the bound, and puts the key first.
pub proof fn lemma_promoted<K, V>(entries: Seq<(K, V)>, limit: nat, key: K)
    requires
        bounded(entries, limit),
        holds(entries, key),
    ensures
        bounded(promoted(entries, key), limit),
        promoted(entries, key).len() == entries.len(),
        promoted(entries, key)[0] == (key, value_of(entries, key)),
        forall|other: K| holds(promoted(entries, key), other) <==> holds(entries, other),
        forall|other: K|
            holds(entries, other) ==> value_of(promoted(entries, key), other) == value_of(
                entries,
                other,
            ),
{
    let r = rank(entries, key);
    let after = promoted(entries, key);
    lemma_rank_in_range(entries, key);
    assert(after.len() == entries.len());
    // Where each pair of the new list stood in the old one.
    assert forall|j: int| 0 <= j < after.len() implies #[trigger] after[j] == entries[origin(r, j)]
        && 0 <= origin(r, j) < entries.len() by {
        if j > 0 {
            assert(after[j] == entries.remove(r)[j - 1]);
        }
    }
    assert(distinct(after)) by {
        assert forall|i: int, j: int| 0 <= i < j < after.len() implies (#[trigger] after[i]).0 != (
        #[trigger] after[j]).0 by {
            let a = origin(r, i);
            let b = origin(r, j);
            assert(after[i] == entries[a]);
            assert(after[j] == entries[b]);
            assert(a != b);
            if a < b {
                assert(entries[a].0 != entries[b].0);
            } else {
                assert(entries[b].0 != entries[a].0);
            }
        }
    }
    assert forall|other: K| holds(after, other) <==> holds(entries, other) by {
        if holds(after, other) {
            let j = rank(after, other);
            lemma_rank_in_range(after, other);
            assert(after[j] == entries[origin(r, j)]);
            assert(entries[origin(r, j)].0 == other);
        }
        if holds(entries, other) {
            let i = rank(entries, other);
            lemma_rank_in_range(entries, other);
            let j = target(r, i);
            assert(after[j] == entries[origin(r, j)]);
            assert(origin(r, j) == i);
            assert(after[j].0 == other);
        }
    }
    assert forall|other: K| holds(entries, other) implies value_of(after, other) == value_of(
        entries,
        other,
    ) by {
        let i = rank(entries, other);
        lemma_rank_in_range(entries, other);
        let j = target(r, i);
        assert(after[j] == entries[origin(r, j)]);
        assert(origin(r, j) == i);
        lemma_rank_is_unique(after, j);
    }
}

/// The old place of the pair that stands at `j` once the pair at `r` has
/// moved to the front.
pub open spec fn origin(r: int, j: int) -> int {
    if j == 0 {
        r
    } else if j - 1 < r {
        j - 1
    } else {
        j
    }
}

/// The new place of the pair that stood at `i` once the pair at `r` has
/// moved to the front.
pub open spec fn target(r: int, i: int) -> int {
    if i == r {
        0
    } else if i < r {
        i + 1
    } else {
        i
    }
}

/// Putting a value keeps the bound, puts the pair first, and is found again.
pub proof fn lemma_inserted<K, V>(entries: Seq<(K, V)>, limit: nat, key: K, value: V)
    requires
        bounded(entries, limit),
    ensures
        bounded(inserted(entries, limit, key, value), limit),
        inserted(entries, limit, key, value)[0] == (key, value),
        holds(inserted(entries, limit, key, value), key),
        rank(inserted(entries, limit, key, value), key) == 0,
        value_of(inserted(entries, limit, key, value), key) == value,
        holds(entries, key) ==> inserted(entries, limit, key, value).len() == entries.len(),
        !holds(entries, key) && entries.len() < limit ==> inserted(entries, limit, key, value).len()
            == entries.len() + 1,
        !holds(entries, key) && entries.len() == limit ==> inserted(
            entries,
            limit,
            key,
            value,
        ).len() == limit,
{
    let after = inserted(entries, limit, key, value);
    assert(after[0] == (key, value));
    // Every pair behind the first stood in the old list, in the same order,
    // under a key other than `key`.
    if holds(entries, key) {
        let r = rank(entries, key);
        lemma_rank_in_range(entries, key);
        assert forall|j: int| 1 <= j < after.len() implies (#[trigger] after[j]) == entries[skip(
            r,
            j - 1,
        )] && after[j].0 != key by {
            assert(after[j] == entries.remove(r)[j - 1]);
            let a = skip(r, j - 1);
            if a < r {
                assert(entries[a].0 != entries[r].0);
            } else {
                assert(entries[r].0 != entries[a].0);
            }
        }
        assert(distinct(after)) by {
            assert forall|i: int, j: int| 0 <= i < j < after.len() implies (#[trigger] after[i]).0
                != (#[trigger] after[j]).0 by {
                if i == 0 {
                } else {
                    let a = skip(r, i - 1);
                    let b = skip(r, j - 1);
                    assert(after[i] == entries[a]);
                    assert(after[j] == entries[b]);
                    assert(a < b);
                    assert(entries[a].0 != entries[b].0);
                }
            }
        }
    } else {
        assert forall|j: int| 1 <= j < after.len() implies (#[trigger] after[j]) == entries[j - 1]
            && after[j].0 != key by {
            assert(entries[j - 1].0 != key);
        }
        assert(distinct(after)) by {
            assert forall|i: int, j: int| 0 <= i < j < after.len() implies (#[trigger] after[i]).0
                != (#[trigger] after[j]).0 by {
                if i == 0 {
                } else {
                    assert(after[i] == entries[i - 1]);
                    assert(after[j] == entries[j - 1]);
                    assert(entries[i - 1].0 != entries[j - 1].0);
                }
            }
        }
    }
    assert(after[0].0 == key);
    lemma_rank_is_unique(after, 0);
}

/// The old place of the pair that stands at `j` once the pair at `r` has
/// been taken out.
pub open spec fn skip(r: int, j: int) -> int {
    if j < r {
        j
    } else {
        j + 1
    }
}

/// Using the key that already stands first changes nothing.
pub proof fn lemma_promoted_front<K, V>(entries: Seq<(K, V)>)
    requires
        distinct(entries),
        entries.len() > 0,
    ensures
        promoted(entries, entries[0].0) == entries,
{
    lemma_rank_is_unique(entries, 0);
    assert(seq![entries[0]] + entries.remove(0) =~= entries);
}

/// Putting a new key into a full list drops exactly the last pair: its key
/// is gone, and every other key stays with its value.
pub proof fn lemma_inserted_evicts_last<K, V>(entries: Seq<(K, V)>, limit: nat, key: K, value: V)
    requires
        bounded(entries, limit),
        entries.len() == limit,
        !holds(entries, key),
    ensures
        inserted(entries, limit, key, value) == seq![(key, value)] + entries.drop_last(),
        !holds(inserted(entries, limit, key, value), entries.last().0),
        forall|other: K|
            holds(entries, other) && other != entries.last().0 ==> holds(
                inserted(entries, limit, key, value),
                other,
            ) && value_of(inserted(entries, limit, key, value), other) == value_of(entries, other),
{
    let after = inserted(entries, limit, key, value);
    let gone = entries.last().0;
    lemma_inserted(entries, limit, key, value);
    assert forall|j: int| 1 <= j < after.len() implies (#[trigger] after[j]) == entries[j - 1] by {}
    lemma_rank_is_unique(entries, entries.len() - 1);
    if holds(after, gone) {
        let j = rank(after, gone);
        lemma_rank_in_range(after, gone);
        if j == 0 {
            assert(key == gone);
            assert(holds(entries, key));
        } else {
            assert(after[j] == entries[j - 1]);
            assert(entries[j - 1].0 != entries[entries.len() - 1].0);
        }
    }
    assert forall|other: K| holds(entries, other) && other != gone implies holds(after, other)
        && value_of(after, other) == value_of(entries, other) by {
        let i = rank(entries, other);
        lemma_rank_in_range(entries, other);
        assert(i != entries.len() - 1);
        assert(after[i + 1] == entries[i]);
        lemma_rank_is_unique(after, i + 1);
    }
}

/// Putting a new key into a list with room left drops nothing.
pub proof fn lemma_inserted_keeps_all<K, V>(entries: Seq<(K, V)>, limit: nat, key: K, value: V)
    requires
        bounded(entries, limit),
        entries.len() < limit,
        !holds(entries, key),
    ensures
        inserted(entries, limit, key, value) == seq![(key, value)] + entries,
        forall|other: K|
            holds(entries, other) ==> holds(inserted(entries, limit, key, value), other)
                && value_of(inserted(entries, limit, key, value), other) == value_of(
                entries,
                other,
            ),
{
    let after = inserted(entries, limit, key, value);
    lemma_inserted(entries, limit, key, value);
    assert forall|other: K| holds(entries, other) implies holds(after, other) && value_of(
        after,
        other,
    ) == value_of(entries, other) by {
        let i = rank(entries, other);
        lemma_rank_in_range(entries, other);
        assert(after[i + 1] == entries[i]);
        lemma_rank_is_unique(after, i + 1);
    }
}

/// Neither using a key nor putting a value brings in a pair from nowhere:
/// what stands in the list afterwards stood there before, or is the pair
/// that was put.
pub proof fn lemma_members<K, V>(entries: Seq<(K, V)>, limit: nat, key: K, value: V)
    requires
        bounded(entries, limit),
    ensures
        forall|j: int|
            0 <= j < promoted(entries, key).len() ==> entries.contains(
                #[trigger] promoted(entries, key)[j],
            ),
        forall|j: int|
            0 <= j < inserted(entries, limit, key, value).len() ==> (#[trigger] inserted(
                entries,
                limit,
                key,
                value,
            )[j]) == (key, value) || entries.contains(inserted(entries, limit, key, value)[j]),
{
    let used = promoted(entries, key);
    let put = inserted(entries, limit, key, value);
    assert forall|j: int| 0 <= j < used.len() implies entries.contains(#[trigger] used[j]) by {
        if holds(entries, key) {
            let r = rank(entries, key);
            lemma_rank_in_range(entries, key);
            if j == 0 {
                assert(used[j] == entries[r]);
            } else {
                assert(used[j] == entries.remove(r)[j - 1]);
                assert(used[j] == entries[skip(r, j - 1)]);
            }
        } else {
            assert(used[j] == entries[j]);
        }
    }
    assert forall|j: int| 0 <= j < put.len() implies (#[trigger] put[j]) == (key, value)
        || entries.contains(put[j]) by {
        if j > 0 {
            if holds(entries, key) {
                let r = rank(entries, key);
                lemma_rank_in_range(entries, key);
                assert(put[j] == entries.remove(r)[j - 1]);
                assert(put[j] == entries[skip(r, j - 1)]);
            } else {
                assert(put[j] == entries[j - 1]);
            }
        }
    }
}

} // verus!
