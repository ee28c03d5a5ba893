//! The cache of accepted tokens: a `DashMap` from token to flag.

use dashmap::DashMap;
use fxhash::FxBuildHasher;
use vstd::prelude::*;

verus! {

/// The tokens that have been accepted.
pub type TokenCache = DashMap<String, bool, FxBuildHasher>;

/// The entries of a token cache.
pub uninterp spec fn cached(cache: DashMap<String, bool, FxBuildHasher>) -> Map<Seq<char>, bool>;

/// `DashMap::with_capacity_and_hasher`: an empty map. A capacity whose rounding overflows, or that
/// cannot be allocated, makes it panic.
#[verifier::external_body]
pub(crate) fn with_capacity(capacity: usize) -> (cache: TokenCache)
    requires
        capacity <= 1_000_000,
    ensures
        cached(cache) == (Map::<Seq<char>, bool>::empty()),
{
    DashMap::with_capacity_and_hasher(capacity, FxBuildHasher::default())
}

/// `DashMap::clear`: no entry is left.
#[verifier::external_body]
pub(crate) fn clear(cache: &mut TokenCache)
    ensures
        cached(*final(cache)) == (Map::<Seq<char>, bool>::empty()),
{
    cache.clear();
}

/// `DashMap::insert`: the token has the flag, whatever it had before.
#[verifier::external_body]
pub(crate) fn insert(cache: &mut TokenCache, token: String, flag: bool)
    ensures
        cached(*final(cache)) == cached(*old(cache)).insert(token@, flag),
{
    cache.insert(token, flag);
}

/// `DashMap::contains_key`: whether the token has an entry.
#[verifier::external_body]
pub(crate) fn contains_key(cache: &TokenCache, token: &str) -> (found: bool)
    ensures
        found == cached(*cache).contains_key(token@),
{
    cache.contains_key(token)
}

/// `DashMap::entry`, then `Entry::or_insert`: the token gets the flag if it had no entry.
#[verifier::external_body]
pub(crate) fn or_insert(cache: &mut TokenCache, token: String, flag: bool)
    ensures
        cached(*final(cache)) == (if cached(*old(cache)).contains_key(token@) {
            cached(*old(cache))
        } else {
            cached(*old(cache)).insert(token@, flag)
        }),
{
    cache.entry(token).or_insert(flag);
}

} // verus!
