use samplegraph::types::{Hit, SearchHit, SearchResponse, Song, SongCore, SongInfo};

fn card(id: u32) -> SongCore {
    SongCore {
        id,
        title: format!("title {}", id),
        artist: format!("artist {}", id),
        url: format!("https://songs.example/{}", id),
        thumbnail: format!("https://thumbs.example/{}", id),
    }
}

#[test]
fn song_info_from_core() {
    let info = SongInfo::from((&card(5), 2));
    assert_eq!(
        info,
        SongInfo {
            title: String::from("title 5"),
            artist: String::from("artist 5"),
            url: String::from("https://songs.example/5"),
            thumbnail: String::from("https://thumbs.example/5"),
            degree: 2,
        }
    );
}

#[test]
fn song_info_from_song() {
    let song = Song { core: card(9), relationships: Vec::new() };
    let info = SongInfo::from((&song, 0));
    assert_eq!(info.title, "title 9");
    assert_eq!(info.artist, "artist 9");
    assert_eq!(info.url, "https://songs.example/9");
    assert_eq!(info.thumbnail, "https://thumbs.example/9");
    assert_eq!(info.degree, 0);
}

#[test]
fn song_info_keeps_the_largest_degree() {
    assert_eq!(SongInfo::from((&card(1), 255)).degree, 255);
}

#[test]
fn search_hit_from_hit() {
    let hit = SearchHit::from(Hit::Song(card(12)));
    assert_eq!(
        hit,
        SearchHit {
            title: String::from("title 12"),
            artist: String::from("artist 12"),
            id: 12,
            thumbnail: String::from("https://thumbs.example/12"),
            url: String::from("https://songs.example/12"),
        }
    );
}

#[test]
fn search_response_keeps_order() {
    let hits = vec![Hit::Song(card(3)), Hit::Song(card(1)), Hit::Song(card(2))];
    let response = SearchResponse::from(hits);
    let ids: Vec<u32> = response.hits.iter().map(|hit| hit.id).collect();
    assert_eq!(ids, vec![3, 1, 2]);
    assert_eq!(response.hits[1].title, "title 1");
}

#[test]
fn search_response_of_no_hits() {
    let response = SearchResponse::from(Vec::new());
    assert!(response.hits.is_empty());
}

#[test]
fn search_response_through_into() {
    let response: SearchResponse = vec![Hit::Song(card(8))].into();
    assert_eq!(response.hits.len(), 1);
    assert_eq!(response.hits[0].id, 8);
}
