//! What holds of every compilation cache, whatever it keeps and whatever the
//! compiler gives. Each law is stated over the model that the contracts of
//! `CompilationCache` use, and proved from the definitions alone.

use crate::cache::{counted, faithful, gives_for, CacheModel};
use crate::recency::{
    lemma_inserted, lemma_inserted_evicts_last, lemma_inserted_keeps_all, lemma_members,
    lemma_promoted, lemma_promoted_front, lemma_rank_in_range, lemma_rank_is_unique, rank,
};
use crate::storage::{Compiled, Slot};
use vrl::compiler::Program;
use vstd::prelude::*;

verus! {

/// A lookup leaves a cache that the next lookup can start from: no text
/// twice, no more entries than the limit.
pub proof fn law_lookup_keeps_the_bound(cache: CacheModel, text: Seq<char>, compiled: Slot)
    requires
        cache.wf(),
    ensures
        cache.looked_up(text, compiled).wf(),
        cache.looked_up(text, compiled).limit == cache.limit,
        cache.looked_up(text, compiled).entries.len() <= cache.limit,
{
    if cache.knows(text) {
        lemma_promoted(cache.entries, cache.limit, text);
    } else {
        lemma_inserted(cache.entries, cache.limit, text, compiled);
    }
}

/// After a lookup the text is known, it is the most recently used, and what
/// is kept for it is what the lookup answered.
pub proof fn law_lookup_remembers(cache: CacheModel, text: Seq<char>, compiled: Slot)
    requires
        cache.wf(),
    ensures
        cache.looked_up(text, compiled).knows(text),
        cache.looked_up(text, compiled).entries[0] == (text, cache.answer(text, compiled)),
        cache.looked_up(text, compiled).kept(text) == cache.answer(text, compiled),
{
    let after = cache.looked_up(text, compiled);
    if cache.knows(text) {
        lemma_promoted(cache.entries, cache.limit, text);
    } else {
        lemma_inserted(cache.entries, cache.limit, text, compiled);
    }
    lemma_rank_is_unique(after.entries, 0);
}

/// Compiling is idempotent: looking the same text up a second time is a hit.
/// The second lookup calls no compiler, answers what the first one answered,
/// whatever a compiler would give by then, and leaves the cache as it found
/// it.
pub proof fn law_second_lookup_is_a_hit(
    cache: CacheModel,
    text: Seq<char>,
    first: Slot,
    second: Slot,
)
    requires
        cache.wf(),
    ensures
        cache.looked_up(text, first).knows(text),
        cache.looked_up(text, first).answer(text, second) == cache.answer(text, first),
        cache.looked_up(text, first).looked_up(text, second) == cache.looked_up(text, first),
        cache.looked_up(text, first).looked_up(text, second).compilations == cache.looked_up(
            text,
            first,
        ).compilations,
{
    let once = cache.looked_up(text, first);
    law_lookup_keeps_the_bound(cache, text, first);
    law_lookup_remembers(cache, text, first);
    lemma_promoted_front(once.entries);
}

/// A cache cannot be told from the compiler behind it. If everything the
/// cache keeps is a result that the compiler may give for its text, then so
/// is the answer to every lookup, hit or miss, and the cache stays that way.
/// Where the compiler gives one result for each text, a lookup answers
/// exactly what compiling the text afresh would give.
pub proof fn law_answers_are_compilations<F: FnOnce(&str) -> Compiled>(
    cache: CacheModel,
    compile: F,
    text: Seq<char>,
    compiled: Slot,
)
    requires
        cache.wf(),
        faithful(cache, compile),
        gives_for(compile, text, compiled),
    ensures
        gives_for(compile, text, cache.answer(text, compiled)),
        faithful(cache.looked_up(text, compiled), compile),
        (forall|first: Slot, second: Slot|
            gives_for(compile, text, first) && gives_for(compile, text, second) ==> first
                == second) ==> cache.answer(text, compiled) == compiled,
{
    let after = cache.looked_up(text, compiled);
    if cache.knows(text) {
        lemma_rank_in_range(cache.entries, text);
        let r = rank(cache.entries, text);
        assert(gives_for(compile, cache.entries[r].0, cache.entries[r].1));
    }
    lemma_members(cache.entries, cache.limit, text, compiled);
    assert forall|j: int| 0 <= j < after.entries.len() implies gives_for(
        compile,
        (#[trigger] after.entries[j]).0,
        after.entries[j].1,
    ) by {
        let pair = after.entries[j];
        if cache.entries.contains(pair) {
            let i = choose|i: int| 0 <= i < cache.entries.len() && cache.entries[i] == pair;
            assert(gives_for(compile, cache.entries[i].0, cache.entries[i].1));
        }
    }
}

/// What is kept for a text never changes under lookups: it stays as it is,
/// whatever else is looked up, until the entry is dropped. And an entry is
/// dropped in one way only: as the least recently used entry of a full cache,
/// when a text arrives that is not known.
pub proof fn law_entry_stays_until_dropped(
    cache: CacheModel,
    text: Seq<char>,
    other: Seq<char>,
    compiled: Slot,
)
    requires
        cache.wf(),
        cache.knows(text),
    ensures
        cache.looked_up(other, compiled).knows(text) ==> cache.looked_up(other, compiled).kept(text)
            == cache.kept(text),
        !cache.looked_up(other, compiled).knows(text) ==> {
            &&& !cache.knows(other)
            &&& cache.entries.len() == cache.limit
            &&& cache.entries.last().0 == text
        },
{
    if cache.knows(other) {
        law_hit_drops_nothing(cache, other, compiled);
    } else if cache.entries.len() < cache.limit {
        law_cache_with_room_drops_nothing(cache, other, compiled);
    } else {
        law_full_cache_drops_least_recent(cache, other, compiled);
    }
}

/// Failures are remembered: once a text has been answered with the message
/// of a failed compilation, the next lookup of it gives that same message
/// and calls no compiler. By `law_entry_stays_until_dropped` so does every
/// later one, for as long as the entry stays.
pub proof fn law_failure_is_remembered(
    cache: CacheModel,
    text: Seq<char>,
    first: Slot,
    second: Slot,
    message: Seq<char>,
)
    requires
        cache.wf(),
        cache.answer(text, first) == Err::<Program, Seq<char>>(message),
    ensures
        cache.looked_up(text, first).answer(text, second) == Err::<Program, Seq<char>>(message),
        cache.looked_up(text, first).looked_up(text, second).compilations == cache.looked_up(
            text,
            first,
        ).compilations,
{
    law_second_lookup_is_a_hit(cache, text, first, second);
}

/// The cache after `count` lookups of `text` in a row, where the compiler
/// would give `outcomes(k)` if the lookup number `k` called it.
pub open spec fn after_lookups(
    cache: CacheModel,
    text: Seq<char>,
    outcomes: spec_fn(nat) -> Slot,
    count: nat,
) -> CacheModel
    decreases count,
{
    if count == 0 {
        cache
    } else {
        after_lookups(cache, text, outcomes, (count - 1) as nat).looked_up(
            text,
            outcomes((count - 1) as nat),
        )
    }
}

/// Any number of lookups of one text, one after the other, compile it at
/// most once: once if the text was not known, never if it was. Each of them
/// answers what the first one answered.
pub proof fn law_lookups_compile_once(
    cache: CacheModel,
    text: Seq<char>,
    outcomes: spec_fn(nat) -> Slot,
    count: nat,
)
    requires
        cache.wf(),
        count >= 1,
    ensures
        after_lookups(cache, text, outcomes, count).wf(),
        after_lookups(cache, text, outcomes, count) == cache.looked_up(text, outcomes(0)),
        after_lookups(cache, text, outcomes, count).compilations == if cache.knows(text) {
            cache.compilations
        } else {
            counted(cache.compilations)
        },
        after_lookups(cache, text, outcomes, (count - 1) as nat).answer(
            text,
            outcomes((count - 1) as nat),
        ) == cache.answer(text, outcomes(0)),
    decreases count,
{
    law_lookup_keeps_the_bound(cache, text, outcomes(0));
    if count == 1 {
        assert(after_lookups(cache, text, outcomes, 0) == cache);
        assert(after_lookups(cache, text, outcomes, 1) == cache.looked_up(text, outcomes(0)));
    } else {
        let earlier = (count - 1) as nat;
        law_lookups_compile_once(cache, text, outcomes, earlier);
        law_second_lookup_is_a_hit(cache, text, outcomes(0), outcomes(earlier));
    }
}

/// A cache under pressure forgets the least recently used text and no
/// other: when a text that is not known is looked up in a full cache, the
/// text that stood last is dropped, every other text stays with what was kept
/// for it, and the cache is as full as before.
pub proof fn law_full_cache_drops_least_recent(cache: CacheModel, text: Seq<char>, compiled: Slot)
    requires
        cache.wf(),
        cache.entries.len() == cache.limit,
        !cache.knows(text),
    ensures
        cache.looked_up(text, compiled).entries.len() == cache.limit,
        !cache.looked_up(text, compiled).knows(cache.entries.last().0),
        forall|other: Seq<char>|
            cache.knows(other) && other != cache.entries.last().0 ==> cache.looked_up(
                text,
                compiled,
            ).knows(other) && cache.looked_up(text, compiled).kept(other) == cache.kept(other),
{
    lemma_inserted(cache.entries, cache.limit, text, compiled);
    lemma_inserted_evicts_last(cache.entries, cache.limit, text, compiled);
}

/// A cache with room left forgets nothing when a new text is looked up.
pub proof fn law_cache_with_room_drops_nothing(cache: CacheModel, text: Seq<char>, compiled: Slot)
    requires
        cache.wf(),
        cache.entries.len() < cache.limit,
        !cache.knows(text),
    ensures
        cache.looked_up(text, compiled).entries.len() == cache.entries.len() + 1,
        forall|other: Seq<char>|
            cache.knows(other) ==> cache.looked_up(text, compiled).knows(other) && cache.looked_up(
                text,
                compiled,
            ).kept(other) == cache.kept(other),
{
    lemma_inserted(cache.entries, cache.limit, text, compiled);
    lemma_inserted_keeps_all(cache.entries, cache.limit, text, compiled);
}

/// A hit forgets nothing: every text stays with what was kept for it.
pub proof fn law_hit_drops_nothing(cache: CacheModel, text: Seq<char>, compiled: Slot)
    requires
        cache.wf(),
        cache.knows(text),
    ensures
        cache.looked_up(text, compiled).entries.len() == cache.entries.len(),
        cache.looked_up(text, compiled).compilations == cache.compilations,
        forall|other: Seq<char>|
            cache.knows(other) <==> cache.looked_up(text, compiled).knows(other),
        forall|other: Seq<char>|
            cache.knows(other) ==> cache.looked_up(text, compiled).kept(other) == cache.kept(other),
{
    lemma_promoted(cache.entries, cache.limit, text);
}

/// A text that was dropped is compiled again when it is next looked up, and
/// answered with what the compiler then gives: that an entry is missing is
/// never an error.
pub proof fn law_dropped_text_is_compiled_again(
    cache: CacheModel,
    text: Seq<char>,
    compiled: Slot,
    again: Slot,
)
    requires
        cache.wf(),
        cache.entries.len() == cache.limit,
        !cache.knows(text),
    ensures
        !cache.looked_up(text, compiled).knows(cache.entries.last().0),
        cache.looked_up(text, compiled).answer(cache.entries.last().0, again) == again,
        cache.looked_up(text, compiled).looked_up(cache.entries.last().0, again).compilations
            == counted(cache.looked_up(text, compiled).compilations),
        cache.looked_up(text, compiled).looked_up(cache.entries.last().0, again).knows(
            cache.entries.last().0,
        ),
{
    let dropped = cache.entries.last().0;
    let after = cache.looked_up(text, compiled);
    law_full_cache_drops_least_recent(cache, text, compiled);
    law_lookup_keeps_the_bound(cache, text, compiled);
    law_lookup_remembers(after, dropped, again);
}

/// The cache after each text of `texts` has been looked up, in their order,
/// where the compiler would give `outcomes(k)` for the text number `k`.
pub open spec fn after_series(
    cache: CacheModel,
    texts: Seq<Seq<char>>,
    outcomes: spec_fn(int) -> Slot,
) -> CacheModel
    decreases texts.len(),
{
    if texts.len() == 0 {
        cache
    } else {
        after_series(cache, texts.drop_last(), outcomes).looked_up(
            texts.last(),
            outcomes(texts.len() - 1),
        )
    }
}

/// The texts of `texts` with what the compiler gave for each, the last one
/// first.
pub open spec fn newest_first(texts: Seq<Seq<char>>, outcomes: spec_fn(int) -> Slot) -> Seq<
    (Seq<char>, Slot),
> {
    Seq::new(
        texts.len(),
        |i: int| (texts[texts.len() - 1 - i], outcomes(texts.len() - 1 - i)),
    )
}

/// The first `limit` pairs of `entries`, or all of them if there are fewer.
pub open spec fn most_recent(entries: Seq<(Seq<char>, Slot)>, limit: nat) -> Seq<
    (Seq<char>, Slot),
> {
    if entries.len() <= limit {
        entries
    } else {
        entries.subrange(0, limit as int)
    }
}

/// A cache keeps the most recently used texts, as many as it has room for.
/// After texts that were not known, all different, have been looked up one
/// after the other, the cache holds them newest first, then what it held
/// before, cut off at its limit. Each of them was compiled, which the counter
/// shows as long as it has not reached its end.
pub proof fn law_cache_keeps_most_recent(
    cache: CacheModel,
    texts: Seq<Seq<char>>,
    outcomes: spec_fn(int) -> Slot,
)
    requires
        cache.wf(),
        texts.no_duplicates(),
        forall|k: int| 0 <= k < texts.len() ==> !cache.knows(#[trigger] texts[k]),
    ensures
        after_series(cache, texts, outcomes).wf(),
        after_series(cache, texts, outcomes).limit == cache.limit,
        after_series(cache, texts, outcomes).entries == most_recent(
            newest_first(texts, outcomes) + cache.entries,
            cache.limit,
        ),
        cache.compilations + texts.len() <= u64::MAX ==> after_series(
            cache,
            texts,
            outcomes,
        ).compilations == cache.compilations + texts.len(),
    decreases texts.len(),
{
    let limit = cache.limit;
    if texts.len() == 0 {
        assert(newest_first(texts, outcomes) + cache.entries =~= cache.entries);
    } else {
        let earlier = texts.drop_last();
        let text = texts.last();
        let compiled = outcomes(texts.len() - 1);
        let before = after_series(cache, earlier, outcomes);
        let all = newest_first(earlier, outcomes) + cache.entries;
        assert forall|k: int| 0 <= k < earlier.len() implies !cache.knows(
            #[trigger] earlier[k],
        ) by {
            assert(earlier[k] == texts[k]);
        }
        law_cache_keeps_most_recent(cache, earlier, outcomes);
        // The new text is none of those that the cache holds by now.
        assert(!before.knows(text)) by {
            if before.knows(text) {
                let i = rank(before.entries, text);
                lemma_rank_in_range(before.entries, text);
                assert(before.entries[i] == all[i]);
                if i < earlier.len() {
                    assert(all[i].0 == earlier[earlier.len() - 1 - i]);
                    assert(texts[earlier.len() - 1 - i] == texts[texts.len() - 1]);
                } else {
                    assert(all[i] == cache.entries[i - earlier.len()]);
                    assert(cache.knows(texts[texts.len() - 1]));
                }
            }
        }
        lemma_inserted(before.entries, limit, text, compiled);
        assert(newest_first(texts, outcomes) + cache.entries =~= seq![(text, compiled)] + all);
        assert(after_series(cache, texts, outcomes).entries =~= most_recent(
            seq![(text, compiled)] + all,
            limit,
        ));
    }
}

/// Once as many new texts have arrived as the cache has room for, nothing
/// that it held before is left: the cache holds the newest of the new texts,
/// and every older entry has made room.
pub proof fn law_pressure_drops_all_older(
    cache: CacheModel,
    texts: Seq<Seq<char>>,
    outcomes: spec_fn(int) -> Slot,
)
    requires
        cache.wf(),
        texts.no_duplicates(),
        forall|k: int| 0 <= k < texts.len() ==> !cache.knows(#[trigger] texts[k]),
        texts.len() >= cache.limit,
    ensures
        after_series(cache, texts, outcomes).entries.len() == cache.limit,
        after_series(cache, texts, outcomes).entries == newest_first(texts, outcomes).subrange(
            0,
            cache.limit as int,
        ),
        forall|other: Seq<char>|
            cache.knows(other) ==> !after_series(cache, texts, outcomes).knows(other),
        forall|k: int|
            texts.len() - cache.limit <= k < texts.len() ==> after_series(
                cache,
                texts,
                outcomes,
            ).knows(#[trigger] texts[k]),
        forall|k: int|
            0 <= k < texts.len() - cache.limit ==> !after_series(cache, texts, outcomes).knows(
                #[trigger] texts[k],
            ),
{
    let after = after_series(cache, texts, outcomes);
    let newest = newest_first(texts, outcomes);
    let limit = cache.limit as int;
    law_cache_keeps_most_recent(cache, texts, outcomes);
    assert(after.entries =~= newest.subrange(0, limit));
    assert forall|i: int| 0 <= i < limit implies (#[trigger] after.entries[i]).0 == texts[texts.len()
        - 1 - i] by {
        assert(after.entries[i] == newest[i]);
    }
    assert forall|other: Seq<char>| cache.knows(other) implies !after.knows(other) by {
        if after.knows(other) {
            let i = rank(after.entries, other);
            lemma_rank_in_range(after.entries, other);
            assert(after.entries[i].0 == texts[texts.len() - 1 - i]);
        }
    }
    assert forall|k: int| texts.len() - limit <= k < texts.len() implies after.knows(
        #[trigger] texts[k],
    ) by {
        let i = texts.len() - 1 - k;
        assert(after.entries[i].0 == texts[k]);
    }
    assert forall|k: int| 0 <= k < texts.len() - limit implies !after.knows(
        #[trigger] texts[k],
    ) by {
        if after.knows(texts[k]) {
            let i = rank(after.entries, texts[k]);
            lemma_rank_in_range(after.entries, texts[k]);
            assert(after.entries[i].0 == texts[texts.len() - 1 - i]);
            assert(texts[k] == texts[texts.len() - 1 - i]);
        }
    }
}

} // verus!
