//! The storage of the compilation cache, as this library sees it.
//!
//! The cache is `lru::LruCache`. Verus does not read that crate, so every
//! item here is trusted: the type, two names for what a cache holds, and a
//! wrapper round each method that the library calls, whose contract says what
//! the method does to the entries and their order as the crate's source
//! shows it.

use crate::recency::{holds, inserted, promoted, value_of};
use lru::LruCache;
use std::num::NonZeroUsize;
use std::sync::Arc;
use vrl::compiler::Program;
use vstd::prelude::*;

verus! {

/// `lru::LruCache`: a map with a fixed number of places that forgets the
/// least recently used entry when a new one needs room.
#[verifier::external_type_specification]
#[verifier::external_body]
#[verifier::reject_recursive_types(K)]
#[verifier::reject_recursive_types(V)]
#[verifier::reject_recursive_types(S)]
pub struct ExLruCache<K, V, S>(LruCache<K, V, S>);

/// `lru::DefaultHasher`: the hasher an `LruCache` uses unless given another.
#[verifier::external_type_specification]
#[verifier::external_body]
pub struct ExDefaultHasher(lru::DefaultHasher);

/// What a cache keeps for one program text, as contracts see it: the compiled
/// program, or the text of the diagnostics that compiling ended with.
pub type Slot = Result<Program, Seq<char>>;

/// What compiling a program text gives: the program, or the message of its
/// diagnostics.
pub type Compiled = Result<Program, String>;

/// What the cache keeps for a program text and hands out for it. A program is
/// shared: the cache and everyone who was handed the program hold the same
/// one, and it lives as long as any of them.
pub type Stored = Result<Arc<Program>, String>;

/// The entries of `cache`, most recently used first: each program text with
/// what is kept for it.
pub uninterp spec fn cache_entries(cache: LruCache<String, Result<Arc<Program>, String>>) -> Seq<
    (Seq<char>, Result<Program, Seq<char>>),
>;

/// The number of entries that `cache` was made to hold at most.
pub uninterp spec fn cache_limit(cache: LruCache<String, Result<Arc<Program>, String>>) -> nat;

/// What a compiler gave, as contracts see it: an error message by its
/// characters.
pub open spec fn slot_view(compiled: Compiled) -> Slot {
    match compiled {
        Ok(program) => Ok(program),
        Err(message) => Err(message@),
    }
}

/// A stored value as contracts see it: the program that is shared, or an
/// error message by its characters.
pub open spec fn stored_view(stored: Stored) -> Slot {
    match stored {
        Ok(shared) => Ok(*shared),
        Err(message) => Err(message@),
    }
}

/// Calls `Arc::clone`: one more holder of the same program.
#[verifier::external_body]
pub(crate) fn shared_again(shared: &Arc<Program>) -> (again: Arc<Program>)
    ensures
        *again == **shared,
{
    Arc::clone(shared)
}

/// Calls `LruCache::sparse`: a cache without entries and with room for
/// `capacity` of them, which takes memory as entries arrive and none ahead of
/// them, so that no capacity is too large to ask for. The crate takes the
/// capacity as a number that is not zero, so zero is left out.
#[verifier::external_body]
pub(crate) fn new_cache(capacity: usize) -> (cache: LruCache<String, Stored>)
    requires
        capacity > 0,
    ensures
        cache_entries(cache) == Seq::<(Seq<char>, Slot)>::empty(),
        cache_limit(cache) == capacity,
{
    LruCache::sparse(NonZeroUsize::new(capacity).unwrap())
}

/// Calls `LruCache::len`: the number of entries.
#[verifier::external_body]
pub(crate) fn cache_len(cache: &LruCache<String, Stored>) -> (len: usize)
    ensures
        len == cache_entries(*cache).len(),
{
    cache.len()
}

/// Calls `LruCache::cap`: the number of entries the cache was made for.
#[verifier::external_body]
pub(crate) fn cache_cap(cache: &LruCache<String, Stored>) -> (cap: usize)
    ensures
        cap == cache_limit(*cache),
{
    cache.cap().get()
}

/// Calls `LruCache::contains`: whether an entry has the key `key`. The order
/// of use is left as it is.
#[verifier::external_body]
pub(crate) fn cache_contains(cache: &LruCache<String, Stored>, key: &str) -> (found: bool)
    ensures
        found == holds(cache_entries(*cache), key@),
{
    cache.contains(key)
}

/// Calls `LruCache::get`: the value kept under `key`, if there is one. An
/// entry that is found becomes the most recently used; nothing else changes.
/// The call is taken not to panic: it hashes the key and relinks one entry.
#[verifier::external_body]
pub(crate) fn cache_get<'a>(cache: &'a mut LruCache<String, Stored>, key: &str) -> (hit: Option<
    &'a Stored,
>)
    ensures
        cache_limit(*final(cache)) == cache_limit(*old(cache)),
        cache_entries(*final(cache)) == promoted(cache_entries(*old(cache)), key@),
        match hit {
            Some(stored) => holds(cache_entries(*old(cache)), key@) && stored_view(*stored)
                == value_of(cache_entries(*old(cache)), key@),
            None => !holds(cache_entries(*old(cache)), key@),
        },
    no_unwind
{
    cache.get(key)
}

/// Calls `LruCache::put`: keeps `value` under `key` as the most recently used
/// entry. A key that is already there gets the new value. Otherwise, if the
/// cache is full, its least recently used entry is dropped to make room.
/// What the call returns, the value that was replaced, is dropped. The call
/// is taken not to panic: it hashes the key, links one entry and drops at
/// most one.
#[verifier::external_body]
pub(crate) fn cache_put(cache: &mut LruCache<String, Stored>, key: String, value: Stored)
    ensures
        cache_limit(*final(cache)) == cache_limit(*old(cache)),
        cache_entries(*final(cache)) == inserted(
            cache_entries(*old(cache)),
            cache_limit(*old(cache)),
            key@,
            stored_view(value),
        ),
    no_unwind
{
    cache.put(key, value);
}

} // verus!
