use song_queue::handlers::{add_playlist_songs, add_song, delete_song, get_oldest_song, get_recommendation};
use song_queue::importer::PlaylistImport;
use song_queue::models::{
    AddSongRequest, Candidate, DeleteSongRequest, Error, PlaylistEntry, SongSource, YouTubeSearchResult,
};
use song_queue::store::Database;
use song_queue::youtube::YouTubeAPI;

fn direct(title: &str, url: &str) -> AddSongRequest {
    AddSongRequest { title: title.to_string(), user: "guest".to_string(), url: Some(url.to_string()) }
}

fn cand(id: &str, title: &str) -> Candidate {
    Candidate {
        video_id: id.to_string(),
        title: title.to_string(),
        description: String::new(),
        channel_title: "Artist".to_string(),
    }
}

fn entry(id: &str) -> PlaylistEntry {
    PlaylistEntry { title: format!("title {}", id), video_id: id.to_string() }
}

#[test]
fn fifo_order_of_direct_requests() {
    let mut db = Database::new();
    let n = 12;
    for i in 0..n {
        let url = format!("https://www.youtube.com/watch?v=vid{}", i);
        assert_eq!(add_song(&mut db, &direct(&format!("t{}", i), &url), None, i as u64), Ok(()));
    }
    for i in 0..n {
        let t = get_oldest_song(&mut db, &Vec::new(), 50).unwrap();
        assert_eq!(t.source, SongSource::Direct);
        assert_eq!(t.song.url, format!("https://www.youtube.com/watch?v=vid{}", i));
        assert_eq!(t.song.title, format!("t{}", i));
    }
    assert!(get_oldest_song(&mut db, &Vec::new(), 60).is_none());
}

#[test]
fn same_url_twice_is_a_duplicate() {
    let mut db = Database::new();
    let url = "https://youtu.be/abc";
    assert_eq!(add_song(&mut db, &direct("one", url), None, 1), Ok(()));
    assert_eq!(add_song(&mut db, &direct("two", url), None, 2), Err(Error::DuplicateUrl));
    let rows: Vec<_> = db.get_all_songs().into_iter().filter(|s| s.url == url).collect();
    assert_eq!(rows.len(), 1);
    assert_eq!(rows[0].title, "one");
}

#[test]
fn invalid_direct_link_is_rejected() {
    let mut db = Database::new();
    for bad in [
        "https://example.com/x",
        "https://example.com/watch?v=abc",
        "https://www.youtube.com/watch?v=",
        "https://www.youtube.com/watch?list=PL1",
        "https://youtu.be/",
        "https://youtu.be/?t=3",
        "youtube.com/watch?xv=abc",
    ] {
        assert_eq!(add_song(&mut db, &direct("x", bad), None, 1), Err(Error::InvalidUrl));
    }
    assert!(db.get_all_songs().is_empty());
}

#[test]
fn watch_and_short_links_are_accepted() {
    let mut db = Database::new();
    for (i, good) in [
        "https://www.youtube.com/watch?v=abc",
        "http://youtube.com/watch?feature=share&v=def&t=1",
        "https://m.youtube.com/watch?v=ghi",
        "youtu.be/jkl",
        "https://youtu.be/mno?si=1",
    ]
    .iter()
    .enumerate()
    {
        assert_eq!(add_song(&mut db, &direct("x", good), None, i as u64), Ok(()));
    }
    assert_eq!(db.get_all_songs().len(), 5);
}

#[test]
fn recommendation_is_recorded_even_when_queues_are_empty() {
    let mut db = Database::new();
    db.store_recommendation("seen", 10).unwrap();
    let batch = vec![cand("seen", "Song S"), cand("fresh", "Song F")];
    let t = get_oldest_song(&mut db, &batch, 20).unwrap();
    assert_eq!(t.source, SongSource::Recommended);
    assert_eq!(t.song.title, "Song F");
    assert_eq!(t.song.user, "Recommended");
    let ids: Vec<&str> = db.recommendations.iter().map(|r| r.video_id.as_str()).collect();
    assert_eq!(ids, vec!["seen", "fresh"]);
}

#[test]
fn failed_recording_still_recommends() {
    let mut db = Database::new();
    db.next_recommendation_id = i64::MAX;
    let batch = vec![cand("v", "Song V")];
    let t = get_oldest_song(&mut db, &batch, 20).unwrap();
    assert_eq!(t.source, SongSource::Recommended);
    assert!(db.recommendations.is_empty());
}

#[test]
fn search_result_is_queued_without_link() {
    let mut db = Database::new();
    let req = AddSongRequest { title: "query".to_string(), user: "bo".to_string(), url: None };
    assert_eq!(add_song(&mut db, &req, None, 1), Err(Error::YouTubeSearchFailed));
    let found = YouTubeSearchResult {
        title: "Found".to_string(),
        url: "https://www.youtube.com/watch?v=f1".to_string(),
        video_id: "f1".to_string(),
    };
    assert_eq!(add_song(&mut db, &req, Some(found), 2), Ok(()));
    let all = db.get_all_songs();
    assert_eq!(all[0].title, "Found");
    assert_eq!(all[0].user, "bo");
    assert_eq!(all[0].url, "https://www.youtube.com/watch?v=f1");
}

#[test]
fn delete_song_by_request() {
    let mut db = Database::new();
    add_song(&mut db, &direct("x", "https://youtu.be/x"), None, 1).unwrap();
    let req = DeleteSongRequest { url: "https://youtu.be/x".to_string() };
    assert_eq!(delete_song(&mut db, &req), Ok(()));
    assert_eq!(delete_song(&mut db, &req), Err(Error::NotFound));
}

#[test]
fn three_tier_fallback() {
    let mut db = Database::new();
    let batch = vec![cand("r1", "Artist - Song")];
    let t = get_oldest_song(&mut db, &batch, 100).unwrap();
    assert_eq!(t.source, SongSource::Recommended);
    assert_eq!(t.song.user, "Recommended");
    assert_eq!(t.song.url, "https://www.youtube.com/watch?v=r1");
    assert_eq!(db.recommendations.len(), 1);
    assert_eq!(db.recommendations[0].video_id, "r1");

    db.add_to_playlist_queue("p1", "https://www.youtube.com/watch?v=p1", "p1", 1).unwrap();
    db.add_to_playlist_queue("p2", "https://www.youtube.com/watch?v=p2", "p2", 2).unwrap();
    let t = get_oldest_song(&mut db, &batch, 101).unwrap();
    assert_eq!(t.source, SongSource::PlaylistImport);
    assert_eq!(t.song.title, "p1");
    assert_eq!(t.song.user, "Playlist");
    assert_eq!(db.recommendations.len(), 1);
    assert_eq!(db.get_all_playlist_songs().len(), 1);

    add_song(&mut db, &direct("d", "https://youtu.be/d"), None, 3).unwrap();
    let t = get_oldest_song(&mut db, &batch, 102).unwrap();
    assert_eq!(t.source, SongSource::Direct);
    assert_eq!(t.song.title, "d");
    assert_eq!(db.get_all_playlist_songs().len(), 1);
}

#[test]
fn everything_empty_gives_nothing() {
    let mut db = Database::new();
    assert!(get_oldest_song(&mut db, &Vec::new(), 1).is_none());
    assert!(get_recommendation(&mut db, &Vec::new(), 1).is_none());
    assert!(db.recommendations.is_empty());
}

#[test]
fn recommendation_avoids_recent_ids() {
    let mut db = Database::new();
    let batch = vec![cand("a", "Song A"), cand("b", "Song B")];
    db.store_recommendation("a", 1000).unwrap();
    for _ in 0..10 {
        let t = get_recommendation(&mut db, &batch, 2000).unwrap();
        assert_eq!(t.song.url, "https://www.youtube.com/watch?v=b");
        db.recommendations.retain(|r| r.video_id != "b");
    }
}

#[test]
fn playlist_import_pagination_and_dedup() {
    let all: Vec<String> = (0..120).map(|i| format!("v{:03}", i)).collect();
    let played: Vec<String> = [3, 17, 41, 49, 50, 66, 88, 99, 105, 119].iter().map(|i| format!("v{:03}", i)).collect();
    let api = YouTubeAPI::new("SECRET-REDACTED".to_string());
    let mut import = api.get_playlist_songs("https://www.youtube.com/playlist?list=PLxyz").unwrap();
    assert_eq!(import.playlist_id, "PLxyz");
    let pages: Vec<Vec<PlaylistEntry>> = vec![
        all[0..50].iter().map(|v| entry(v)).collect(),
        all[50..100].iter().map(|v| entry(v)).collect(),
        all[100..120].iter().map(|v| entry(v)).collect(),
    ];
    assert!(import.add_page(&pages[0], Some("c1".to_string()), &played));
    assert_eq!(import.next_page_token, Some("c1".to_string()));
    assert!(import.add_page(&pages[1], Some("c2".to_string()), &played));
    assert!(!import.add_page(&pages[2], None, &played));
    assert_eq!(import.total_fetched, 120);
    let songs = import.songs();
    assert_eq!(songs.len(), 110);
    let expected: Vec<&String> = all.iter().filter(|v| !played.contains(v)).collect();
    for (s, v) in songs.iter().zip(expected.iter()) {
        assert_eq!(&s.video_id, *v);
        assert_eq!(s.url, format!("https://www.youtube.com/watch?v={}", v));
        assert_eq!(s.title, format!("title {}", v));
    }
    let mut db = Database::new();
    assert_eq!(add_playlist_songs(&mut db, &songs, 5), 110);
    let queued = db.get_all_playlist_songs();
    assert_eq!(queued.len(), 110);
    assert_eq!(queued[0].video_id, "v000");
    assert_eq!(queued[109].video_id, "v118");
}

#[test]
fn import_stops_at_the_safety_cap() {
    let mut import = PlaylistImport::start("https://youtube.com/playlist?list=PL1&x=1").unwrap();
    assert_eq!(import.playlist_id, "PL1");
    let page: Vec<PlaylistEntry> = (0..50).map(|i| entry(&format!("e{}", i))).collect();
    let mut pages = 0;
    while import.add_page(&page, Some("more".to_string()), &Vec::new()) {
        pages += 1;
    }
    assert_eq!(pages + 1, 20);
    assert_eq!(import.total_fetched, 1000);
    assert_eq!(import.next_page_token, None);
}

#[test]
fn import_rejects_links_without_a_list() {
    assert!(matches!(
        PlaylistImport::start("https://www.youtube.com/watch?v=abc"),
        Err(Error::InvalidPlaylistUrl)
    ));
}

#[test]
fn bulk_enqueue_skips_what_cannot_be_stored() {
    let mut db = Database::new();
    db.next_queue_id = i64::MAX - 2;
    let songs: Vec<YouTubeSearchResult> = (0..5)
        .map(|i| YouTubeSearchResult { title: format!("t{}", i), url: format!("u{}", i), video_id: format!("v{}", i) })
        .collect();
    assert_eq!(add_playlist_songs(&mut db, &songs, 1), 2);
    let queued = db.get_all_playlist_songs();
    assert_eq!(queued.len(), 2);
    assert_eq!(queued[1].video_id, "v1");
}
