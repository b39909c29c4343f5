//! What the handlers of the service share, and the decisions of a cached
//! fetch.
//!
//! A fetch goes to the cache first and to the provider only on a miss. The
//! cache and the provider are both reached by whoever drives the fetch; the
//! library decides what is done with their answers.

use crate::budget::{max_permits, AdmissionBudget};
use crate::error::{settle, ClientFailure, Error, ProviderResponse};
use crate::types::{Hit, Song};
use vstd::prelude::*;

verus! {

/// How many seconds a fetched song stays in the cache.
pub const SONG_TTL_SECS: u64 = 600;

/// How many songs the cache holds at most.
pub const SONG_CACHE_CAPACITY: u64 = 10000;

/// How many seconds the hits of a search stay in the cache.
pub const SEARCH_TTL_SECS: u64 = 30;

/// How many searches the cache holds at most.
pub const SEARCH_CACHE_CAPACITY: u64 = 1000;

/// How long a cache keeps an entry, and how many entries it keeps.
#[derive(Clone, Copy, Debug, PartialEq, Eq, Structural)]
pub struct CachePolicy {
    pub ttl_secs: u64,
    pub max_capacity: u64,
}

/// What a fetch has learned.
#[derive(Debug)]
pub enum FetchEvent<T> {
    /// The cache answered: with the value it holds for the key, or with
    /// nothing.
    Cache(Option<T>),
    /// The request to the provider came back.
    Provider(Result<ProviderResponse<T>, ClientFailure>),
}

/// What a fetch does next.
#[derive(Debug)]
pub enum FetchAction<T> {
    /// Ask the provider, and come back with what it answers.
    AskProvider,
    /// Put the value in the cache for `ttl_secs` seconds, and return it.
    Store { value: T, ttl_secs: u64 },
    /// Return this, and touch neither the cache nor the provider.
    Return(Result<T, Error>),
}

/// What follows from an event under a cache policy. A value from the cache
/// is returned as it is. A miss goes to the provider. A successful answer of
/// the provider is stored for the time that the policy gives; a failure is
/// returned as the error it is classified as, and nothing is stored.
pub open spec fn fetch_spec<T>(policy: CachePolicy, event: FetchEvent<T>) -> FetchAction<T> {
    match event {
        FetchEvent::Cache(Some(value)) => FetchAction::Return(Ok(value)),
        FetchEvent::Cache(None) => FetchAction::AskProvider,
        FetchEvent::Provider(reply) => match settle(reply) {
            Ok(value) => FetchAction::Store { value, ttl_secs: policy.ttl_secs },
            Err(e) => FetchAction::Return(Err(e)),
        },
    }
}

/// Decides what a fetch does next.
pub fn fetch_step<T>(policy: CachePolicy, event: FetchEvent<T>) -> (action: FetchAction<T>)
    ensures
        action == fetch_spec(policy, event),
{
    match event {
        FetchEvent::Cache(Some(value)) => FetchAction::Return(Ok(value)),
        FetchEvent::Cache(None) => FetchAction::AskProvider,
        FetchEvent::Provider(reply) => match Error::from_reply(reply) {
            Ok(value) => FetchAction::Store { value, ttl_secs: policy.ttl_secs },
            Err(e) => FetchAction::Return(Err(e)),
        },
    }
}

/// What the handlers of the service share: the admission budget, the retry
/// ceiling of a traversal, and the policies of the two caches.
pub struct AppState {
    pub semaphore: AdmissionBudget,
    pub max_retries: u32,
    pub song_cache: CachePolicy,
    pub search_cache: CachePolicy,
}

impl AppState {
    /// A state with a budget of `semaphore_permits` permits, or of the
    /// largest number that a budget can hold where that is less, and with
    /// the cache policies of the service.
    pub fn new(semaphore_permits: usize, max_retries: u32) -> (state: AppState)
        ensures
            state.max_retries == max_retries,
            state.semaphore.capacity() == if semaphore_permits <= max_permits() {
                semaphore_permits as int
            } else {
                max_permits()
            },
            state.song_cache == (CachePolicy {
                ttl_secs: SONG_TTL_SECS,
                max_capacity: SONG_CACHE_CAPACITY,
            }),
            state.search_cache == (CachePolicy {
                ttl_secs: SEARCH_TTL_SECS,
                max_capacity: SEARCH_CACHE_CAPACITY,
            }),
    {
        AppState {
            semaphore: AdmissionBudget::new(semaphore_permits),
            max_retries,
            song_cache: CachePolicy { ttl_secs: SONG_TTL_SECS, max_capacity: SONG_CACHE_CAPACITY },
            search_cache: CachePolicy {
                ttl_secs: SEARCH_TTL_SECS,
                max_capacity: SEARCH_CACHE_CAPACITY,
            },
        }
    }

    /// Decides what the fetch of a song does next.
    pub fn song(&self, event: FetchEvent<Song>) -> (action: FetchAction<Song>)
        ensures
            action == fetch_spec(self.song_cache, event),
    {
        fetch_step(self.song_cache, event)
    }

    /// Decides what a search does next.
    pub fn search(&self, event: FetchEvent<Vec<Hit>>) -> (action: FetchAction<Vec<Hit>>)
        ensures
            action == fetch_spec(self.search_cache, event),
    {
        fetch_step(self.search_cache, event)
    }
}

} // verus!
