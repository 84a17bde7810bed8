use vstd::prelude::*;
use cached::Cached;
use cached::CachedPeek;
use crate::token::Tokens;

verus! {

#[verifier::external_type_specification]
#[verifier::external_body]
#[verifier::reject_recursive_types(K)]
#[verifier::reject_recursive_types(V)]
#[verifier::reject_recursive_types(S)]
pub struct ExUnboundCache<K, V, S>(cached::UnboundCache<K, V, S>);

/// The six counters of a token vector as plain integers, in the order
/// onyx, sapphire, emerald, ruby, diamond, gold.
pub type Counts = (i8, i8, i8, i8, i8, i8);

/// What a search state is filed under: the counters of the cost still
/// owed, of the tokens still at hand, and of the payment made so far.
///
/// The key is made of integers alone, so that looking one up rests on the
/// equality and hashing that the standard library gives to integer tuples.
pub type MemoKey = (Counts, Counts, Counts);

/// The entries that a memo table holds: for each key filed, the list filed
/// under it.
pub uninterp spec fn memo_entries(memo: &cached::UnboundCache<MemoKey, Vec<Tokens>>) -> Map<MemoKey, Seq<Tokens>>;

/// Calls `cached::UnboundCache::new`, which builds a store over an empty
/// hash map and cannot fail. Trusted: the new table holds no entry.
#[verifier::external_body]
pub(crate) fn memo_new() -> (memo: cached::UnboundCache<MemoKey, Vec<Tokens>>)
    ensures
        memo_entries(&memo).dom() == Set::<MemoKey>::empty(),
{
    cached::UnboundCache::new()
}

/// Calls `cached::CachedPeek::cache_peek` on the table, a plain `get` on
/// its hash map that changes nothing, and copies what it finds. Trusted:
/// the result is the list filed under `key`, or `None` where nothing is
/// filed under it.
#[verifier::external_body]
pub(crate) fn memo_peek(memo: &cached::UnboundCache<MemoKey, Vec<Tokens>>, key: &MemoKey) -> (found: Option<Vec<Tokens>>)
    ensures
        found is Some <==> memo_entries(memo).contains_key(*key),
        found is Some ==> found->Some_0@ == memo_entries(memo)[*key],
{
    memo.cache_peek(key).cloned()
}

/// Calls `cached::Cached::cache_set` on the table, an `insert` on its hash
/// map. Trusted: afterwards `value` is filed under `key`, in place of
/// whatever was filed there, and every other entry is as before.
#[verifier::external_body]
pub(crate) fn memo_set(memo: &mut cached::UnboundCache<MemoKey, Vec<Tokens>>, key: MemoKey, value: Vec<Tokens>)
    ensures
        memo_entries(final(memo)) == memo_entries(old(memo)).insert(key, value@),
{
    memo.cache_set(key, value);
}

} // verus!
