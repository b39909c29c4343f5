use moka::future::Cache;
use samplegraph::error::{ClientFailure, Error, ProviderResponse};
use samplegraph::kinds::RelationshipKind;
use samplegraph::state::{
    fetch_step, AppState, CachePolicy, FetchAction, FetchEvent, SEARCH_CACHE_CAPACITY,
    SEARCH_TTL_SECS, SONG_CACHE_CAPACITY, SONG_TTL_SECS,
};
use samplegraph::types::{Hit, Relationship, Song, SongCore};
use std::time::Duration;

fn card(id: u32) -> SongCore {
    SongCore {
        id,
        title: format!("title {}", id),
        artist: format!("artist {}", id),
        url: format!("https://songs.example/{}", id),
        thumbnail: format!("https://thumbs.example/{}", id),
    }
}

fn song(id: u32) -> Song {
    Song {
        core: card(id),
        relationships: vec![Relationship {
            kind: RelationshipKind::CoverOf,
            targets: vec![card(id + 1)],
        }],
    }
}

fn policy() -> CachePolicy {
    CachePolicy { ttl_secs: 7, max_capacity: 3 }
}

fn is_ask<T>(action: &FetchAction<T>) -> bool {
    matches!(action, FetchAction::AskProvider)
}

/// A provider that counts how often it is asked.
struct Provider {
    calls: u32,
}

impl Provider {
    fn song(&mut self, id: u32) -> Result<ProviderResponse<Song>, ClientFailure> {
        self.calls += 1;
        Ok(ProviderResponse::Success { response: song(id) })
    }
}

/// A fetch as it is driven: the cache, then the provider, as the library
/// decides.
async fn fetch(
    state: &AppState,
    cache: &Cache<u32, Song>,
    provider: &mut Provider,
    id: u32,
) -> Result<Song, Error> {
    match state.song(FetchEvent::Cache(cache.get(&id).await)) {
        FetchAction::Return(result) => result,
        FetchAction::Store { value, .. } => Ok(value),
        FetchAction::AskProvider => match state.song(FetchEvent::Provider(provider.song(id))) {
            FetchAction::Store { value, .. } => {
                cache.insert(id, value.clone()).await;
                Ok(value)
            }
            FetchAction::Return(result) => result,
            FetchAction::AskProvider => panic!("the provider was asked already"),
        },
    }
}

#[test]
fn policies_of_the_service() {
    assert_eq!(SONG_TTL_SECS, 600);
    assert_eq!(SONG_CACHE_CAPACITY, 10000);
    assert_eq!(SEARCH_TTL_SECS, 30);
    assert_eq!(SEARCH_CACHE_CAPACITY, 1000);
    let state = AppState::new(4096, 10);
    assert_eq!(state.song_cache, CachePolicy { ttl_secs: 600, max_capacity: 10000 });
    assert_eq!(state.search_cache, CachePolicy { ttl_secs: 30, max_capacity: 1000 });
    assert_eq!(state.max_retries, 10);
    assert_eq!(state.semaphore.capacity(), 4096);
}

#[test]
fn cached_value_is_returned() {
    match fetch_step(policy(), FetchEvent::Cache(Some(song(42)))) {
        FetchAction::Return(Ok(found)) => assert_eq!(found, song(42)),
        _ => panic!("a cached value is returned as it is"),
    }
}

#[test]
fn miss_asks_the_provider() {
    let action: FetchAction<Song> = fetch_step(policy(), FetchEvent::Cache(None));
    assert!(is_ask(&action));
}

#[test]
fn success_is_stored_for_the_time_of_the_policy() {
    let reply = Ok(ProviderResponse::Success { response: song(42) });
    match fetch_step(policy(), FetchEvent::Provider(reply)) {
        FetchAction::Store { value, ttl_secs } => {
            assert_eq!(value, song(42));
            assert_eq!(ttl_secs, 7);
        }
        _ => panic!("a successful answer is stored"),
    }
}

#[test]
fn structured_error_is_returned_and_not_stored() {
    let reply: Result<ProviderResponse<Song>, ClientFailure> = Ok(ProviderResponse::Error {
        status: 404,
        message: String::from("not found"),
        detail: None,
    });
    match fetch_step(policy(), FetchEvent::Provider(reply)) {
        FetchAction::Return(Err(e)) => assert_eq!(
            e,
            Error::RemoteRejected { status: 404, message: String::from("not found"), detail: None }
        ),
        _ => panic!("an error of the provider is returned"),
    }
}

#[test]
fn unstructured_error_is_returned_and_not_stored() {
    let reply: Result<ProviderResponse<Song>, ClientFailure> = Ok(ProviderResponse::Other {
        error: String::from("oops"),
        error_description: String::from("something broke"),
    });
    match fetch_step(policy(), FetchEvent::Provider(reply)) {
        FetchAction::Return(Err(e)) => assert_eq!(
            e,
            Error::RemoteMalformed {
                error: String::from("oops"),
                error_description: String::from("something broke"),
            }
        ),
        _ => panic!("an error of the provider is returned"),
    }
}

#[test]
fn rate_limit_is_returned_and_not_stored() {
    let reply: Result<ProviderResponse<Song>, ClientFailure> = Err(ClientFailure::RateLimited);
    match fetch_step(policy(), FetchEvent::Provider(reply)) {
        FetchAction::Return(Err(e)) => {
            assert_eq!(e, Error::RateLimited);
            assert_eq!(e.status_code(), 429);
        }
        _ => panic!("a rate limit is returned"),
    }
}

#[test]
fn transport_failure_is_returned_and_not_stored() {
    let reply: Result<ProviderResponse<Song>, ClientFailure> =
        Err(ClientFailure::General(String::from("connection refused")));
    match fetch_step(policy(), FetchEvent::Provider(reply)) {
        FetchAction::Return(Err(e)) => {
            assert_eq!(e, Error::Transport(String::from("connection refused")))
        }
        _ => panic!("a failure on the way is returned"),
    }
}

#[test]
fn songs_are_stored_for_ten_minutes() {
    let state = AppState::new(1, 1);
    let reply = Ok(ProviderResponse::Success { response: song(1) });
    match state.song(FetchEvent::Provider(reply)) {
        FetchAction::Store { ttl_secs, .. } => assert_eq!(ttl_secs, 600),
        _ => panic!("a successful answer is stored"),
    }
}

#[test]
fn searches_are_stored_for_thirty_seconds() {
    let state = AppState::new(1, 1);
    let reply = Ok(ProviderResponse::Success { response: vec![Hit::Song(card(1))] });
    match state.search(FetchEvent::Provider(reply)) {
        FetchAction::Store { value, ttl_secs } => {
            assert_eq!(ttl_secs, 30);
            assert_eq!(value, vec![Hit::Song(card(1))]);
        }
        _ => panic!("a successful answer is stored"),
    }
}

#[test]
fn search_miss_asks_the_provider() {
    let state = AppState::new(1, 1);
    assert!(is_ask(&state.search(FetchEvent::Cache(None))));
    match state.search(FetchEvent::Cache(Some(Vec::new()))) {
        FetchAction::Return(Ok(hits)) => assert!(hits.is_empty()),
        _ => panic!("a cached value is returned as it is"),
    }
}

#[test]
fn cache_round_trip() {
    let state = AppState::new(1, 1);
    let cache: Cache<u32, Song> =
        Cache::builder().time_to_live(Duration::from_millis(400)).max_capacity(16).build();
    let mut provider = Provider { calls: 0 };
    let runtime = tokio::runtime::Builder::new_current_thread().enable_time().build().unwrap();
    runtime.block_on(async {
        cache.insert(42, song(42)).await;
        let first = fetch(&state, &cache, &mut provider, 42).await;
        assert_eq!(provider.calls, 0);
        assert_eq!(first, Ok(song(42)));
        assert_eq!(format!("{:?}", first), format!("{:?}", Ok::<Song, Error>(song(42))));
        let second = fetch(&state, &cache, &mut provider, 42).await;
        assert_eq!(provider.calls, 0);
        assert_eq!(second, first);

        tokio::time::sleep(Duration::from_millis(700)).await;
        let third = fetch(&state, &cache, &mut provider, 42).await;
        assert_eq!(provider.calls, 1);
        assert_eq!(third, Ok(song(42)));
        let fourth = fetch(&state, &cache, &mut provider, 42).await;
        assert_eq!(provider.calls, 1);
        assert_eq!(fourth, third);
    });
}

#[test]
fn miss_fetches_once_and_then_hits() {
    let state = AppState::new(1, 1);
    let cache: Cache<u32, Song> = Cache::builder()
        .time_to_live(Duration::from_secs(state.song_cache.ttl_secs))
        .max_capacity(state.song_cache.max_capacity)
        .build();
    let mut provider = Provider { calls: 0 };
    let runtime = tokio::runtime::Builder::new_current_thread().enable_time().build().unwrap();
    runtime.block_on(async {
        assert_eq!(fetch(&state, &cache, &mut provider, 7).await, Ok(song(7)));
        assert_eq!(provider.calls, 1);
        assert_eq!(fetch(&state, &cache, &mut provider, 7).await, Ok(song(7)));
        assert_eq!(provider.calls, 1);
        assert_eq!(fetch(&state, &cache, &mut provider, 8).await, Ok(song(8)));
        assert_eq!(provider.calls, 2);
    });
}
