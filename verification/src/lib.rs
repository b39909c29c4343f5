//! Builds the graph of songs that are related to a song: covers, remixes,
//! samples, interpolations and live versions, out to a given number of hops.
//!
//! The library holds the decisions: which songs to fetch next, what a fetched
//! song adds to the graph, when to wait for the admission budget and when to
//! give up, and what a cached fetch does with the answers of the cache and of
//! the provider. Whoever drives it reaches the provider and the cache.
//!
//! `model` states the traversal as mathematics, `laws` proves what holds of
//! every traversal, and `graph` is the builder that is proved to follow the
//! model.

pub mod budget;
pub mod digraph;
pub mod error;
pub mod graph;
pub mod kinds;
pub mod laws;
pub mod model;
pub mod state;
pub mod types;

pub use crate::budget::AdmissionBudget;
pub use crate::digraph::Graph;
pub use crate::error::{ClientFailure, Error, ProviderResponse};
pub use crate::graph::{build_graph, Step, Traversal};
pub use crate::kinds::{KindSet, RelationshipKind};
pub use crate::state::{AppState, CachePolicy, FetchAction, FetchEvent};
pub use crate::types::{
    GraphResponse, Hit, Relationship, SearchHit, SearchResponse, Song, SongCore, SongInfo,
};
