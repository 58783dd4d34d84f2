//! How updates of files are looked up.
use vstd::prelude::*;

verus! {

/// How what is cached is used.
#[derive(Clone, Copy, Debug, PartialEq, Eq, Structural)]
pub enum CacheBehaviour {
    StaleWhileRevalidateSkipOffline,
    StaleWhileRevalidate,
    MustRevalidate,
    Bypass,
    CacheOnly,
}

/// How the cache is used when updates are looked up: not at all for a refresh, or
/// else as the caller asks.
pub fn update_behaviour(cache_behaviour: Option<CacheBehaviour>, refresh: bool) -> (r: Option<
    CacheBehaviour,
>)
    ensures
        r == if refresh {
            Some(CacheBehaviour::Bypass)
        } else {
            cache_behaviour
        },
{
    if refresh {
        Some(CacheBehaviour::Bypass)
    } else {
        cache_behaviour
    }
}

/// What follows the lookup of updates.
#[derive(Debug)]
pub enum UpdateLookup<U, E> {
    /// It is over.
    Done(Result<U, E>),
    /// The refresh failed: what is cached is looked up instead.
    Fallback(CacheBehaviour),
}

/// What follows the lookup of updates: a refresh that failed falls back to what is
/// cached, any other outcome stands.
pub fn after_lookup<U, E>(outcome: Result<U, E>, refresh: bool) -> (r: UpdateLookup<U, E>)
    ensures
        r == if outcome is Err && refresh {
            UpdateLookup::Fallback(CacheBehaviour::CacheOnly)
        } else {
            UpdateLookup::Done(outcome)
        },
{
    match outcome {
        Ok(updates) => UpdateLookup::Done(Ok(updates)),
        Err(error) => if refresh {
            UpdateLookup::Fallback(CacheBehaviour::CacheOnly)
        } else {
            UpdateLookup::Done(Err(error))
        },
    }
}

} // verus!
