//! The compilation cache: program texts and what compiling them gave, kept
//! for reuse, the least recently used text making room when the cache is
//! full.
//!
//! `CacheModel` is what contracts say of a cache, `CompilationCache` the cache
//! itself. Its storage is `lru::LruCache`, seen through the contracts of
//! `storage`. The compiler is no part of the cache: a lookup is given the
//! compiler to use where the text is new.

use crate::laws::law_answers_are_compilations;
use crate::recency::{
    bounded, holds, inserted, lemma_inserted, lemma_promoted, lemma_promoted_front,
    lemma_rank_in_range, promoted, rank, value_of,
};
use crate::storage::{
    cache_cap, cache_contains, cache_entries, cache_get, cache_len, cache_limit, cache_put,
    new_cache, shared_again, slot_view, stored_view, Compiled, Slot, Stored,
};
use lru::LruCache;
use std::sync::Arc;
use vstd::pervasive::unreached;
use vstd::prelude::*;

verus! {

/// The number of program texts a cache keeps unless told otherwise.
pub const DEFAULT_CAPACITY: usize = 400;

/// The state of a compilation cache, as contracts see it.
pub struct CacheModel {
    /// Each program text with what is kept for it, most recently used first.
    pub entries: Seq<(Seq<char>, Slot)>,
    /// The number of entries the cache holds at most.
    pub limit: nat,
    /// How often the cache has called a compiler.
    pub compilations: nat,
}

/// The count after one more call of the compiler. It stops at the largest
/// number the counter can hold.
pub open spec fn counted(compilations: nat) -> nat {
    if compilations < u64::MAX {
        compilations + 1
    } else {
        compilations
    }
}

impl CacheModel {
    /// No program text is kept twice, and no more entries than the limit.
    pub open spec fn wf(self) -> bool {
        bounded(self.entries, self.limit)
    }

    /// Whether something is kept for `text`.
    pub open spec fn knows(self, text: Seq<char>) -> bool {
        holds(self.entries, text)
    }

    /// What is kept for `text`. Meaningful only where `self.knows(text)`.
    pub open spec fn kept(self, text: Seq<char>) -> Slot {
        value_of(self.entries, text)
    }

    /// What is kept for the most recently used text. Meaningful only where
    /// the cache is not empty.
    pub open spec fn latest(self) -> Slot {
        self.entries[0].1
    }

    /// The cache after `slot` has been stored for `text`.
    pub open spec fn stored(self, text: Seq<char>, slot: Slot) -> CacheModel {
        CacheModel {
            entries: inserted(self.entries, self.limit, text, slot),
            limit: self.limit,
            compilations: self.compilations,
        }
    }

    /// The cache after `text` has been looked up, where compiling it would
    /// give `compiled`. A text that is known becomes the most recently used
    /// and is not compiled. A text that is not known is compiled once and
    /// stored.
    pub open spec fn looked_up(self, text: Seq<char>, compiled: Slot) -> CacheModel {
        if self.knows(text) {
            CacheModel {
                entries: promoted(self.entries, text),
                limit: self.limit,
                compilations: self.compilations,
            }
        } else {
            CacheModel {
                entries: inserted(self.entries, self.limit, text, compiled),
                limit: self.limit,
                compilations: counted(self.compilations),
            }
        }
    }

    /// What looking up `text` answers, where compiling it would give
    /// `compiled`: what is kept, or else what the compiler gives.
    pub open spec fn answer(self, text: Seq<char>, compiled: Slot) -> Slot {
        if self.knows(text) {
            self.kept(text)
        } else {
            compiled
        }
    }
}

/// Whether `slot` is a result that `compile` may give for `text`.
pub open spec fn gives<F: FnOnce(&str) -> Compiled>(compile: F, text: &str, slot: Slot) -> bool {
    exists|compiled: Compiled| #[trigger]
        compile.ensures((text,), compiled) && slot_view(compiled) == slot
}

/// Whether `slot` is a result that `compile` may give for the program text
/// `text`.
pub open spec fn gives_for<F: FnOnce(&str) -> Compiled>(
    compile: F,
    text: Seq<char>,
    slot: Slot,
) -> bool {
    exists|source: &str| source@ == text && #[trigger] gives(compile, source, slot)
}

/// Whether everything that `cache` keeps is a result that `compile` may give
/// for the text it is kept under.
pub open spec fn faithful<F: FnOnce(&str) -> Compiled>(cache: CacheModel, compile: F) -> bool {
    forall|i: int|
        0 <= i < cache.entries.len() ==> gives_for(
            compile,
            (#[trigger] cache.entries[i]).0,
            cache.entries[i].1,
        )
}

/// A bounded cache from program text to what compiling it gave: the compiled
/// program or the message of the failure. Both are kept, so that a text is
/// compiled at most once for as long as its entry stays.
pub struct CompilationCache {
    entries: LruCache<String, Stored>,
    compilations: u64,
}

impl View for CompilationCache {
    type V = CacheModel;

    closed spec fn view(&self) -> CacheModel {
        CacheModel {
            entries: cache_entries(self.entries),
            limit: cache_limit(self.entries),
            compilations: self.compilations as nat,
        }
    }
}

/// Hands out what a stored value holds: the program as one more holder of
/// it, the message as a copy.
fn handed_out(stored: &Stored) -> (found: Stored)
    ensures
        stored_view(found) == stored_view(*stored),
{
    match stored {
        Ok(shared) => Ok(shared_again(shared)),
        Err(message) => Err(message.clone()),
    }
}

/// Makes of what a compiler gave what the cache keeps: the program becomes a
/// shared one.
fn to_store(compiled: Compiled) -> (stored: Stored)
    ensures
        stored_view(stored) == slot_view(compiled),
{
    match compiled {
        Ok(program) => Ok(Arc::new(program)),
        Err(message) => Err(message),
    }
}

impl CompilationCache {
    /// What holds of every cache at all times: no text is kept twice, and no
    /// more texts than the capacity.
    #[verifier::type_invariant]
    spec fn well_formed(&self) -> bool {
        bounded(cache_entries(self.entries), cache_limit(self.entries))
    }

    /// An empty cache of the default capacity.
    pub fn new() -> (cache: CompilationCache)
        ensures
            cache@.wf(),
            cache@.entries.len() == 0,
            cache@.limit == DEFAULT_CAPACITY,
            cache@.compilations == 0,
    {
        CompilationCache { entries: new_cache(DEFAULT_CAPACITY), compilations: 0 }
    }

    /// An empty cache with room for `capacity` program texts, or `None` where
    /// `capacity` is zero: a cache must have room for the text it is asked
    /// for.
    pub fn with_capacity(capacity: usize) -> (made: Option<CompilationCache>)
        ensures
            capacity == 0 <==> made is None,
            made matches Some(cache) ==> {
                &&& cache@.wf()
                &&& cache@.entries.len() == 0
                &&& cache@.limit == capacity
                &&& cache@.compilations == 0
            },
    {
        if capacity == 0 {
            None
        } else {
            Some(CompilationCache { entries: new_cache(capacity), compilations: 0 })
        }
    }

    /// The number of program texts that are kept.
    pub fn len(&self) -> (len: usize)
        ensures
            self@.wf(),
            len == self@.entries.len(),
    {
        proof {
            use_type_invariant(self);
        }
        cache_len(&self.entries)
    }

    /// The number of program texts that the cache keeps at most.
    pub fn capacity(&self) -> (capacity: usize)
        ensures
            self@.wf(),
            capacity == self@.limit,
    {
        proof {
            use_type_invariant(self);
        }
        cache_cap(&self.entries)
    }

    /// How often this cache has called a compiler.
    pub fn compilations(&self) -> (compilations: u64)
        ensures
            self@.wf(),
            compilations == self@.compilations,
    {
        proof {
            use_type_invariant(self);
        }
        self.compilations
    }

    /// Whether something is kept for `text`. Asking does not count as a use.
    pub fn contains(&self, text: &str) -> (known: bool)
        ensures
            self@.wf(),
            known == self@.knows(text@),
    {
        proof {
            use_type_invariant(self);
        }
        cache_contains(&self.entries, text)
    }

    /// Stores `compiled` for `text` and hands out what the cache now keeps
    /// for it. The entry becomes the most recently used; if the text is new
    /// and the cache is full, the least recently used entry is dropped.
    pub fn store(&mut self, text: &str, compiled: Compiled) -> (found: Stored)
        ensures
            old(self)@.wf(),
            final(self)@.wf(),
            final(self)@ == old(self)@.stored(text@, slot_view(compiled)),
            stored_view(found) == slot_view(compiled),
            final(self)@.knows(text@),
            final(self)@.latest() == slot_view(compiled),
            final(self)@.kept(text@) == slot_view(compiled),
    {
        let ghost before = cache_entries(self.entries);
        let ghost limit = cache_limit(self.entries);
        let ghost slot = slot_view(compiled);
        proof {
            use_type_invariant(&*self);
            lemma_inserted(before, limit, text@, slot);
            lemma_promoted_front(inserted(before, limit, text@, slot));
        }
        cache_put(&mut self.entries, text.to_owned(), to_store(compiled));
        match cache_get(&mut self.entries, text) {
            Some(stored) => handed_out(stored),
            None => unreached(),
        }
    }

    /// Looks `text` up and compiles it with `compile` only if nothing is kept
    /// for it.
    ///
    /// A text that is known is answered from the cache, a failure with the
    /// message it failed with, and `compile` is not called. A text that is
    /// not known is compiled; what `compile` gives is stored, success or
    /// failure alike, and answered from the cache. Either way the entry ends
    /// up as the most recently used.
    pub fn lookup_or_compile_with<F>(&mut self, text: &str, compile: F) -> (found: Stored) where
        F: FnOnce(&str) -> Compiled,

        requires
            compile.requires((text,)),
        ensures
            old(self)@.wf(),
            final(self)@.wf(),
            final(self)@ == old(self)@.looked_up(text@, stored_view(found)),
            old(self)@.knows(text@) ==> stored_view(found) == old(self)@.kept(text@),
            !old(self)@.knows(text@) ==> gives(compile, text, stored_view(found)),
            final(self)@.knows(text@),
            final(self)@.latest() == stored_view(found),
            final(self)@.kept(text@) == stored_view(found),
            faithful(old(self)@, compile) ==> faithful(final(self)@, compile) && gives_for(
                compile,
                text@,
                stored_view(found),
            ),
    {
        let ghost model = self@;
        let ghost before = cache_entries(self.entries);
        let ghost limit = cache_limit(self.entries);
        proof {
            use_type_invariant(&*self);
        }
        if !cache_contains(&self.entries, text) {
            let compiled = compile(text);
            let ghost slot = slot_view(compiled);
            if self.compilations < u64::MAX {
                self.compilations = self.compilations + 1;
            }
            proof {
                lemma_inserted(before, limit, text@, slot);
                lemma_promoted_front(inserted(before, limit, text@, slot));
                assert(gives(compile, text, slot));
                if faithful(model, compile) {
                    law_answers_are_compilations(model, compile, text@, slot);
                }
            }
            cache_put(&mut self.entries, text.to_owned(), to_store(compiled));
        } else {
            proof {
                lemma_promoted(before, limit, text@);
                if faithful(model, compile) {
                    lemma_rank_in_range(before, text@);
                    assert(gives_for(
                        compile,
                        before[rank(before, text@)].0,
                        before[rank(before, text@)].1,
                    ));
                    law_answers_are_compilations(model, compile, text@, model.kept(text@));
                }
            }
        }
        match cache_get(&mut self.entries, text) {
            Some(stored) => handed_out(stored),
            None => unreached(),
        }
    }
}

} // verus!
