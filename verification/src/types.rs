//! The records that the library works on: songs as the provider describes
//! them, and what the library hands out about them.

use crate::digraph::Graph;
use crate::kinds::RelationshipKind;
use std::collections::HashMap;
use vstd::prelude::*;
use vstd::std_specs::convert::FromSpecImpl;

verus! {

/// What identifies a song and how it is shown.
#[derive(Clone, Debug, PartialEq, Eq)]
pub struct SongCore {
    pub id: u32,
    pub title: String,
    pub artist: String,
    pub url: String,
    pub thumbnail: String,
}

/// The songs that stand in one kind of relationship to a song.
#[derive(Clone, Debug, PartialEq, Eq)]
pub struct Relationship {
    pub kind: RelationshipKind,
    pub targets: Vec<SongCore>,
}

/// A song with the relationships that the provider lists for it.
#[derive(Clone, Debug, PartialEq, Eq)]
pub struct Song {
    pub core: SongCore,
    pub relationships: Vec<Relationship>,
}

/// What the graph response tells about one node.
#[derive(Clone, Debug, PartialEq, Eq)]
pub struct SongInfo {
    pub title: String,
    pub artist: String,
    pub url: String,
    pub thumbnail: String,
    /// Number of hops from the root of the traversal.
    pub degree: u8,
}

/// The record of a song at a given distance from the root.
pub open spec fn info_of(core: SongCore, degree: u8) -> SongInfo {
    SongInfo {
        title: core.title,
        artist: core.artist,
        url: core.url,
        thumbnail: core.thumbnail,
        degree,
    }
}

impl<'a> From<(&'a SongCore, u8)> for SongInfo {
    fn from(value: (&'a SongCore, u8)) -> (info: SongInfo) {
        let (core, degree) = value;
        SongInfo {
            title: core.title.clone(),
            artist: core.artist.clone(),
            url: core.url.clone(),
            thumbnail: core.thumbnail.clone(),
            degree,
        }
    }
}

impl<'a> FromSpecImpl<(&'a SongCore, u8)> for SongInfo {
    open spec fn obeys_from_spec() -> bool {
        true
    }

    open spec fn from_spec(value: (&'a SongCore, u8)) -> SongInfo {
        info_of(*value.0, value.1)
    }
}

impl<'a> From<(&'a Song, u8)> for SongInfo {
    fn from(value: (&'a Song, u8)) -> (info: SongInfo) {
        let (song, degree) = value;
        SongInfo::from((&song.core, degree))
    }
}

impl<'a> FromSpecImpl<(&'a Song, u8)> for SongInfo {
    open spec fn obeys_from_spec() -> bool {
        true
    }

    open spec fn from_spec(value: (&'a Song, u8)) -> SongInfo {
        info_of(value.0.core, value.1)
    }
}

/// One result of a search, as the provider returns it.
#[derive(Clone, Debug, PartialEq, Eq)]
pub enum Hit {
    Song(SongCore),
}

/// One result of a search, as the library hands it out.
#[derive(Clone, Debug, PartialEq, Eq)]
pub struct SearchHit {
    pub title: String,
    pub artist: String,
    pub id: u32,
    pub thumbnail: String,
    pub url: String,
}

/// The search hit that stands for a provider hit.
pub open spec fn hit_of(hit: Hit) -> SearchHit {
    match hit {
        Hit::Song(core) => SearchHit {
            title: core.title,
            artist: core.artist,
            id: core.id,
            thumbnail: core.thumbnail,
            url: core.url,
        },
    }
}

impl From<Hit> for SearchHit {
    fn from(value: Hit) -> (hit: SearchHit) {
        match value {
            Hit::Song(core) => SearchHit {
                title: core.title,
                artist: core.artist,
                id: core.id,
                thumbnail: core.thumbnail,
                url: core.url,
            },
        }
    }
}

impl FromSpecImpl<Hit> for SearchHit {
    open spec fn obeys_from_spec() -> bool {
        true
    }

    open spec fn from_spec(value: Hit) -> SearchHit {
        hit_of(value)
    }
}

/// The results of a search, in the provider's order.
#[derive(Clone, Debug, PartialEq, Eq)]
pub struct SearchResponse {
    pub hits: Vec<SearchHit>,
}

/// The search response that stands for a list of provider hits: one search
/// hit per provider hit, in the same order.
pub open spec fn response_of(hits: Seq<Hit>) -> Seq<SearchHit> {
    Seq::new(hits.len(), |i: int| hit_of(hits[i]))
}

impl From<Vec<Hit>> for SearchResponse {
    fn from(value: Vec<Hit>) -> (response: SearchResponse)
        ensures
            response.hits@ == response_of(value@),
    {
        let ghost hits = value@;
        let mut out: Vec<SearchHit> = Vec::new();
        for hit in it: value.into_iter()
            invariant
                it.seq() == hits,
                out@ == response_of(hits.take(it.index() as int)),
        {
            out.push(SearchHit::from(hit));
            proof {
                let n = it.index() as int;
                assert(out@ =~= response_of(hits.take(n + 1)));
            }
        }
        proof {
            assert(hits.take(hits.len() as int) =~= hits);
        }
        SearchResponse { hits: out }
    }
}

/// Two vectors with the same elements need not be the same value to the
/// verifier, so this conversion is stated over the view of the result, in the
/// `ensures` of `from`, and not as an equation between values.
impl FromSpecImpl<Vec<Hit>> for SearchResponse {
    open spec fn obeys_from_spec() -> bool {
        false
    }

    open spec fn from_spec(value: Vec<Hit>) -> SearchResponse {
        arbitrary()
    }
}

/// The outcome of a traversal: the graph of related songs, and the record of
/// each of its nodes.
pub struct GraphResponse {
    pub graph: Graph,
    pub songs: HashMap<u32, SongInfo>,
}

} // verus!
