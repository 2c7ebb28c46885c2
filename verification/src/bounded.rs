//! The bounded stores, backed by `moka`'s synchronous cache.
//!
//! `moka::sync::Cache` is a concurrent associative store with a capacity
//! budget, an optional per-entry weigher, and approximate least-value
//! eviction.  Verus does not read `moka`; the wrappers here state, over an
//! abstract map of each store's possible contents, what `moka`'s source and
//! documentation promise.  Because the store may evict entries of its own
//! accord at any moment, the abstract map is an upper bound on the real
//! contents: a lookup may miss even for a key the map holds, but a lookup
//! never returns a value the map does not hold for that key -- never a stale
//! overwritten value, never another key's value.
//!
//! Three stores are instantiated: line sequences and verbatim contents
//! (byte-budgeted, weighed by allocated footprint), and fingerprint triples
//! (entry-count budget).

use std::sync::Arc;
use vstd::prelude::*;

verus! {

#[verifier::external_type_specification]
#[verifier::external_body]
#[verifier::reject_recursive_types(K)]
#[verifier::reject_recursive_types(V)]
#[verifier::reject_recursive_types(S)]
pub struct ExCache<K, V, S>(moka::sync::Cache<K, V, S>);

/// The entries the line store may still hold: each path's split lines.
pub uninterp spec fn lines_model(c: &moka::sync::Cache<String, Arc<Vec<String>>>) -> Map<
    Seq<char>,
    Seq<Seq<char>>,
>;

/// The entries the content store may still hold: each path's verbatim text.
pub uninterp spec fn content_model(c: &moka::sync::Cache<String, String>) -> Map<
    Seq<char>,
    Seq<char>,
>;

/// The entries the fingerprint store may still hold: each path's cached
/// (seconds, nanoseconds, size) triple.
pub uninterp spec fn meta_model(c: &moka::sync::Cache<String, (u64, u32, u64)>) -> Map<
    Seq<char>,
    (u64, u32, u64),
>;

/// The byte budget the line store was built with.
pub uninterp spec fn lines_store_budget(c: &moka::sync::Cache<String, Arc<Vec<String>>>) -> u64;

/// The byte budget the content store was built with.
pub uninterp spec fn content_store_budget(c: &moka::sync::Cache<String, String>) -> u64;

/// The contents of a line store that holds nothing.
pub open spec fn no_lines() -> Map<Seq<char>, Seq<Seq<char>>> {
    Map::empty()
}

/// The contents of a content store that holds nothing.
pub open spec fn no_content() -> Map<Seq<char>, Seq<char>> {
    Map::empty()
}

/// The contents of a fingerprint store that holds nothing.
pub open spec fn no_meta() -> Map<Seq<char>, (u64, u32, u64)> {
    Map::empty()
}

/// Fixed per-entry overhead charged on top of a value's own footprint,
/// covering object headers and alignment.
pub const ENTRY_OVERHEAD: u64 = 128;

/// Relies on Vec::capacity: the number of elements the vector can hold
/// without reallocating, never below its length.
#[verifier::external_body]
pub(crate) fn vec_capacity(v: &Vec<String>) -> (r: usize)
    ensures
        r >= v@.len(),
{
    v.capacity()
}

/// Relies on String::capacity: the size in bytes of the allocated buffer,
/// never below the text's byte length, which in UTF-8 is never below its
/// character count.  How much larger it is depends on the allocator.
#[verifier::external_body]
pub(crate) fn string_capacity(s: &String) -> (r: usize)
    ensures
        r >= s@.len(),
{
    s.capacity()
}

/// The total character count of a line sequence.
pub open spec fn text_len_of(ls: Seq<Seq<char>>) -> int
    decreases ls.len(),
{
    if ls.len() == 0 {
        0
    } else {
        text_len_of(ls.drop_last()) + ls.last().len()
    }
}

/// The least weight the line weigher may charge: the fixed overhead, one
/// byte per character of text, and one slot per line, clipped to the
/// weigher's range.  The true charge is higher whenever buffers are
/// over-allocated; by how much depends on the allocator and cannot be
/// stated.
pub open spec fn min_lines_weight(ls: Seq<Seq<char>>) -> int {
    vstd::math::min(
        ENTRY_OVERHEAD as int + text_len_of(ls) + ls.len() * vstd::layout::size_of::<String>(),
        u32::MAX as int,
    )
}

/// The least weight the content weigher may charge: the fixed overhead
/// plus one byte per character of text, clipped to the weigher's range.
pub open spec fn min_content_weight(s: Seq<char>) -> int {
    vstd::math::min(ENTRY_OVERHEAD as int + s.len(), u32::MAX as int)
}

/// One line of text adds its own length to the total of the lines before
/// it.
proof fn lemma_text_len_step(ls: Seq<Seq<char>>, j: int)
    requires
        0 <= j < ls.len(),
    ensures
        text_len_of(ls.take(j + 1)) == text_len_of(ls.take(j)) + ls[j].len(),
{
    assert(ls.take(j + 1).drop_last() =~= ls.take(j));
    assert(ls.take(j + 1).last() == ls[j]);
}

/// The byte footprint charged for a cached line sequence: the vector's
/// allocated slots, every line's allocated buffer, and the fixed overhead,
/// saturated into the weigher's range.  Charging capacity rather than
/// length makes over-allocated buffers pay their true footprint; the
/// contract bounds the charge from below by what the text alone must
/// occupy.
pub fn weigh_lines(v: &Vec<String>) -> (r: u32)
    ensures
        r >= ENTRY_OVERHEAD as u32,
        r as int >= min_lines_weight(v.deep_view()),
{
    let ghost dv = v.deep_view();
    let slot: usize = core::mem::size_of::<String>();
    let cap: usize = vec_capacity(v);
    let mut total: u64 = (cap as u64).checked_mul(slot as u64).unwrap_or(u64::MAX);
    proof {
        assert(dv.len() == v@.len());
        vstd::arithmetic::mul::lemma_mul_inequality(v@.len() as int, cap as int, slot as int);
        assert(dv.take(0) =~= Seq::<Seq<char>>::empty());
        assert(total as int >= vstd::math::min(
            dv.len() * (slot as int) + text_len_of(dv.take(0)),
            u64::MAX as int,
        ));
    }
    let mut j: usize = 0;
    while j < v.len()
        invariant
            j <= v.len(),
            dv == v.deep_view(),
            dv.len() == v@.len(),
            slot as int == vstd::layout::size_of::<String>(),
            total as int >= vstd::math::min(
                dv.len() * (slot as int) + text_len_of(dv.take(j as int)),
                u64::MAX as int,
            ),
        decreases v.len() - j,
    {
        let sc: usize = string_capacity(&v[j]);
        proof {
            assert(dv[j as int] == v@[j as int]@);
            lemma_text_len_step(dv, j as int);
        }
        total = total.saturating_add(sc as u64);
        j = j + 1;
    }
    proof {
        assert(dv.take(dv.len() as int) =~= dv);
    }
    total = total.saturating_add(ENTRY_OVERHEAD);
    if total > u32::MAX as u64 {
        u32::MAX
    } else {
        total as u32
    }
}

/// The byte footprint charged for cached verbatim content: the string's
/// allocated buffer plus the fixed overhead, saturated into the weigher's
/// range; the contract bounds the charge from below by what the text alone
/// must occupy.
pub fn weigh_content(s: &String) -> (r: u32)
    ensures
        r >= ENTRY_OVERHEAD as u32,
        r as int >= min_content_weight(s@),
{
    let total: u64 = (string_capacity(s) as u64).saturating_add(ENTRY_OVERHEAD);
    if total > u32::MAX as u64 {
        u32::MAX
    } else {
        total as u32
    }
}

/// Relies on moka::sync::CacheBuilder: builds a cache with the given byte
/// budget and the line weigher; a fresh cache holds nothing.
#[verifier::external_body]
pub(crate) fn lines_store_new(budget: u64) -> (c: moka::sync::Cache<String, Arc<Vec<String>>>)
    ensures
        lines_model(&c) == no_lines(),
        lines_store_budget(&c) == budget,
{
    moka::sync::Cache::builder().max_capacity(budget).weigher(
        |_k: &String, v: &Arc<Vec<String>>| crate::bounded::weigh_lines(v),
    ).build()
}

/// Relies on moka::sync::Cache::get: returns a clone of the value stored
/// under the key, or nothing; never another key's value, never a value that
/// was overwritten or invalidated.
#[verifier::external_body]
pub(crate) fn lines_store_get(c: &moka::sync::Cache<String, Arc<Vec<String>>>, key: &str) -> (r:
    Option<Arc<Vec<String>>>)
    ensures
        r matches Some(v) ==> lines_model(c).contains_pair(key@, v.deep_view()),
        !lines_model(c).dom().contains(key@) ==> r is None,
{
    c.get(key)
}

/// Relies on moka::sync::Cache::insert: stores the value under the key,
/// replacing any previous value for it.
#[verifier::external_body]
pub(crate) fn lines_store_insert(
    c: &mut moka::sync::Cache<String, Arc<Vec<String>>>,
    key: &str,
    value: &Arc<Vec<String>>,
)
    ensures
        lines_model(final(c)) == lines_model(old(c)).insert(key@, value.deep_view()),
        lines_store_budget(final(c)) == lines_store_budget(old(c)),
{
    c.insert(key.to_string(), Arc::clone(value));
}

/// Relies on moka::sync::Cache::invalidate: discards the key's entry.
#[verifier::external_body]
pub(crate) fn lines_store_remove(c: &mut moka::sync::Cache<String, Arc<Vec<String>>>, key: &str)
    ensures
        lines_model(final(c)) == lines_model(old(c)).remove(key@),
        lines_store_budget(final(c)) == lines_store_budget(old(c)),
{
    c.invalidate(key);
}

/// Relies on moka::sync::Cache::invalidate_all: discards every entry;
/// lookups are guaranteed not to return entries inserted before the call.
#[verifier::external_body]
pub(crate) fn lines_store_clear(c: &mut moka::sync::Cache<String, Arc<Vec<String>>>)
    ensures
        lines_model(final(c)) == no_lines(),
        lines_store_budget(final(c)) == lines_store_budget(old(c)),
{
    c.invalidate_all();
}

/// Relies on moka::sync::Cache::run_pending_tasks and weighted_size: the
/// maintenance loop drains the pending operation logs and then evicts
/// until no weight remains above the capacity the cache was built with,
/// and the weighted size read afterwards reports that settled figure.
/// This holds of the sequential calls made here (a store whose pending
/// operations were written by a concurrent caller may need a further
/// round).
#[verifier::external_body]
pub(crate) fn lines_store_settled_weight(c: &moka::sync::Cache<String, Arc<Vec<String>>>) -> (r:
    u64)
    ensures
        r <= lines_store_budget(c),
{
    c.run_pending_tasks();
    c.weighted_size()
}

/// Relies on moka::sync::CacheBuilder: builds a cache with the given byte
/// budget and the content weigher; a fresh cache holds nothing.
#[verifier::external_body]
pub(crate) fn content_store_new(budget: u64) -> (c: moka::sync::Cache<String, String>)
    ensures
        content_model(&c) == no_content(),
        content_store_budget(&c) == budget,
{
    moka::sync::Cache::builder().max_capacity(budget).weigher(
        |_k: &String, v: &String| crate::bounded::weigh_content(v),
    ).build()
}

/// Relies on moka::sync::Cache::get: returns a clone of the value stored
/// under the key, or nothing; never another key's value, never a value that
/// was overwritten or invalidated.
#[verifier::external_body]
pub(crate) fn content_store_get(c: &moka::sync::Cache<String, String>, key: &str) -> (r: Option<
    String,
>)
    ensures
        r matches Some(v) ==> content_model(c).contains_pair(key@, v@),
        !content_model(c).dom().contains(key@) ==> r is None,
{
    c.get(key)
}

/// Relies on moka::sync::Cache::insert: stores the value under the key,
/// replacing any previous value for it.
#[verifier::external_body]
pub(crate) fn content_store_insert(
    c: &mut moka::sync::Cache<String, String>,
    key: &str,
    value: &String,
)
    ensures
        content_model(final(c)) == content_model(old(c)).insert(key@, value@),
        content_store_budget(final(c)) == content_store_budget(old(c)),
{
    c.insert(key.to_string(), value.clone());
}

/// Relies on moka::sync::Cache::invalidate: discards the key's entry.
#[verifier::external_body]
pub(crate) fn content_store_remove(c: &mut moka::sync::Cache<String, String>, key: &str)
    ensures
        content_model(final(c)) == content_model(old(c)).remove(key@),
        content_store_budget(final(c)) == content_store_budget(old(c)),
{
    c.invalidate(key);
}

/// Relies on moka::sync::Cache::invalidate_all: discards every entry;
/// lookups are guaranteed not to return entries inserted before the call.
#[verifier::external_body]
pub(crate) fn content_store_clear(c: &mut moka::sync::Cache<String, String>)
    ensures
        content_model(final(c)) == no_content(),
        content_store_budget(final(c)) == content_store_budget(old(c)),
{
    c.invalidate_all();
}

/// Relies on moka::sync::Cache::run_pending_tasks and weighted_size: the
/// maintenance loop drains the pending operation logs and then evicts
/// until no weight remains above the capacity the cache was built with,
/// and the weighted size read afterwards reports that settled figure.
/// This holds of the sequential calls made here (a store whose pending
/// operations were written by a concurrent caller may need a further
/// round).
#[verifier::external_body]
pub(crate) fn content_store_settled_weight(c: &moka::sync::Cache<String, String>) -> (r: u64)
    ensures
        r <= content_store_budget(c),
{
    c.run_pending_tasks();
    c.weighted_size()
}

/// Relies on moka::sync::Cache::new: builds a cache capped at the given
/// number of entries; a fresh cache holds nothing.
#[verifier::external_body]
pub(crate) fn meta_store_new(capacity: u64) -> (c: moka::sync::Cache<String, (u64, u32, u64)>)
    ensures
        meta_model(&c) == no_meta(),
{
    moka::sync::Cache::new(capacity)
}

/// Relies on moka::sync::Cache::get: returns a clone of the value stored
/// under the key, or nothing; never another key's value, never a value that
/// was overwritten or invalidated.
#[verifier::external_body]
pub(crate) fn meta_store_get(c: &moka::sync::Cache<String, (u64, u32, u64)>, key: &str) -> (r:
    Option<(u64, u32, u64)>)
    ensures
        r matches Some(v) ==> meta_model(c).contains_pair(key@, v),
        !meta_model(c).dom().contains(key@) ==> r is None,
{
    c.get(key)
}

/// Relies on moka::sync::Cache::insert: stores the value under the key,
/// replacing any previous value for it.
#[verifier::external_body]
pub(crate) fn meta_store_insert(
    c: &mut moka::sync::Cache<String, (u64, u32, u64)>,
    key: &str,
    value: (u64, u32, u64),
)
    ensures
        meta_model(final(c)) == meta_model(old(c)).insert(key@, value),
{
    c.insert(key.to_string(), value);
}

/// Relies on moka::sync::Cache::invalidate: discards the key's entry.
#[verifier::external_body]
pub(crate) fn meta_store_remove(c: &mut moka::sync::Cache<String, (u64, u32, u64)>, key: &str)
    ensures
        meta_model(final(c)) == meta_model(old(c)).remove(key@),
{
    c.invalidate(key);
}

/// Relies on moka::sync::Cache::invalidate_all: discards every entry;
/// lookups are guaranteed not to return entries inserted before the call.
#[verifier::external_body]
pub(crate) fn meta_store_clear(c: &mut moka::sync::Cache<String, (u64, u32, u64)>)
    ensures
        meta_model(final(c)) == no_meta(),
{
    c.invalidate_all();
}

} // verus!
