use song_queue::models::{Error, Playlist, PlaylistItem, YouTubeURL};
use song_queue::store::{Database, RECOMMENDATION_CAP};

fn song(title: &str, url: &str, user: &str) -> YouTubeURL {
    YouTubeURL {
        id: None,
        title: title.to_string(),
        url: url.to_string(),
        user: user.to_string(),
        created_at: None,
    }
}

fn playlist(name: &str) -> Playlist {
    Playlist {
        id: None,
        name: name.to_string(),
        description: Some("desc".to_string()),
        youtube_playlist_url: "https://www.youtube.com/playlist?list=PL1".to_string(),
        created_at: None,
    }
}

fn item(playlist_id: i64, title: &str) -> PlaylistItem {
    PlaylistItem {
        id: None,
        playlist_id,
        title: title.to_string(),
        url: format!("https://www.youtube.com/watch?v={}", title),
        user: "ann".to_string(),
        created_at: None,
    }
}

#[test]
fn add_song_assigns_ids_and_times() {
    let mut db = Database::new();
    assert_eq!(db.add_song(&song("a", "https://youtu.be/a", "u1"), 10), Ok(()));
    assert_eq!(db.add_song(&song("b", "https://youtu.be/b", "u2"), 20), Ok(()));
    let all = db.get_all_songs();
    assert_eq!(all.len(), 2);
    assert_eq!(all[0].id, Some(1));
    assert_eq!(all[0].created_at, Some(10));
    assert_eq!(all[1].id, Some(2));
    assert_eq!(all[1].title, "b");
    assert_eq!(all[1].user, "u2");
}

#[test]
fn duplicate_url_keeps_one_row() {
    let mut db = Database::new();
    assert_eq!(db.add_song(&song("a", "https://youtu.be/a", "u1"), 1), Ok(()));
    assert_eq!(db.add_song(&song("other", "https://youtu.be/a", "u2"), 2), Err(Error::DuplicateUrl));
    let all = db.get_all_songs();
    assert_eq!(all.len(), 1);
    assert_eq!(all[0].title, "a");
}

#[test]
fn oldest_song_is_a_peek() {
    let mut db = Database::new();
    assert!(db.get_oldest_song().is_none());
    db.add_song(&song("a", "u-a", "x"), 1).unwrap();
    db.add_song(&song("b", "u-b", "x"), 2).unwrap();
    assert_eq!(db.get_oldest_song().unwrap().title, "a");
    assert_eq!(db.get_all_songs().len(), 2);
}

#[test]
fn delete_song_by_url_and_id() {
    let mut db = Database::new();
    db.add_song(&song("a", "u-a", "x"), 1).unwrap();
    db.add_song(&song("b", "u-b", "x"), 2).unwrap();
    db.add_song(&song("c", "u-c", "x"), 3).unwrap();
    assert!(db.delete_song_by_url("u-b"));
    assert!(!db.delete_song_by_url("u-b"));
    assert!(db.delete_song_by_id(1));
    assert!(!db.delete_song_by_id(1));
    let all = db.get_all_songs();
    assert_eq!(all.len(), 1);
    assert_eq!(all[0].url, "u-c");
}

#[test]
fn playlists_newest_first_and_lookup() {
    let mut db = Database::new();
    assert_eq!(db.create_playlist(&playlist("first"), 5), Ok(1));
    assert_eq!(db.create_playlist(&playlist("second"), 6), Ok(2));
    let all = db.get_all_playlists();
    assert_eq!(all.len(), 2);
    assert_eq!(all[0].name, "second");
    assert_eq!(all[1].name, "first");
    let p = db.get_playlist(1).unwrap();
    assert_eq!(p.name, "first");
    assert_eq!(p.description, Some("desc".to_string()));
    assert_eq!(p.created_at, Some(5));
    assert!(db.get_playlist(3).is_none());
}

#[test]
fn playlist_items_need_a_playlist() {
    let mut db = Database::new();
    assert_eq!(db.add_to_playlist(&item(1, "x"), 1), Err(Error::NotFound));
    let id = db.create_playlist(&playlist("p"), 1).unwrap();
    let other = db.create_playlist(&playlist("q"), 1).unwrap();
    assert_eq!(db.add_to_playlist(&item(id, "x"), 2), Ok(()));
    assert_eq!(db.add_to_playlist(&item(other, "y"), 3), Ok(()));
    assert_eq!(db.add_to_playlist(&item(id, "z"), 4), Ok(()));
    let items = db.get_playlist_items(id);
    assert_eq!(items.len(), 2);
    assert_eq!(items[0].title, "x");
    assert_eq!(items[1].title, "z");
    assert_eq!(items[1].id, Some(3));
}

#[test]
fn random_playlist_item_comes_from_the_playlist() {
    let mut db = Database::new();
    let id = db.create_playlist(&playlist("p"), 1).unwrap();
    let other = db.create_playlist(&playlist("q"), 1).unwrap();
    assert!(db.get_random_playlist_item(id).is_none());
    db.add_to_playlist(&item(id, "x"), 2).unwrap();
    db.add_to_playlist(&item(id, "y"), 2).unwrap();
    db.add_to_playlist(&item(other, "z"), 2).unwrap();
    for _ in 0..20 {
        let picked = db.get_random_playlist_item(id).unwrap();
        assert_eq!(picked.playlist_id, id);
        assert!(picked.title == "x" || picked.title == "y");
    }
}

#[test]
fn progress_mark_list_and_reset() {
    let mut db = Database::new();
    assert_eq!(db.mark_song_played(1, "v1", "t", "u", 1), Err(Error::NotFound));
    let a = db.create_playlist(&playlist("a"), 1).unwrap();
    let b = db.create_playlist(&playlist("b"), 1).unwrap();
    db.mark_song_played(a, "v1", "t1", "u1", 2).unwrap();
    db.mark_song_played(b, "w1", "t2", "u2", 3).unwrap();
    db.mark_song_played(a, "v2", "t3", "u3", 4).unwrap();
    assert_eq!(db.get_played_songs(a), vec!["v1".to_string(), "v2".to_string()]);
    db.reset_playlist_progress(a);
    assert!(db.get_played_songs(a).is_empty());
    assert_eq!(db.get_played_songs(b), vec!["w1".to_string()]);
}

#[test]
fn cascade_delete_removes_items_and_progress() {
    let mut db = Database::new();
    let a = db.create_playlist(&playlist("a"), 1).unwrap();
    let b = db.create_playlist(&playlist("b"), 1).unwrap();
    for t in ["x", "y", "z"] {
        db.add_to_playlist(&item(a, t), 2).unwrap();
    }
    db.add_to_playlist(&item(b, "keep"), 2).unwrap();
    db.mark_song_played(a, "v1", "t", "u", 3).unwrap();
    db.mark_song_played(a, "v2", "t", "u", 3).unwrap();
    db.mark_song_played(b, "w1", "t", "u", 3).unwrap();
    assert_eq!(db.playlist_items.len() + db.progress.len(), 7);
    assert!(db.delete_playlist(a));
    assert_eq!(db.playlist_items.len() + db.progress.len(), 2);
    assert!(db.get_playlist_items(a).is_empty());
    assert!(db.get_played_songs(a).is_empty());
    assert_eq!(db.get_playlist_items(b).len(), 1);
    assert_eq!(db.get_played_songs(b), vec!["w1".to_string()]);
    assert!(db.get_playlist(a).is_none());
    assert!(!db.delete_playlist(a));
}

#[test]
fn recommendation_history_is_capped() {
    let mut db = Database::new();
    for i in 0..250u64 {
        db.store_recommendation(&format!("vid{}", i), 1000 + i).unwrap();
    }
    assert_eq!(db.recommendations.len(), RECOMMENDATION_CAP);
    assert_eq!(db.recommendations.len(), 200);
    assert_eq!(db.recommendations[0].video_id, "vid50");
    assert_eq!(db.recommendations[199].video_id, "vid249");
    assert!(db.recommendations.iter().all(|r| r.video_id != "vid49"));
}

#[test]
fn recommendation_insert_is_idempotent() {
    let mut db = Database::new();
    db.store_recommendation("abc", 10).unwrap();
    db.store_recommendation("abc", 20).unwrap();
    assert_eq!(db.recommendations.len(), 1);
    assert_eq!(db.recommendations[0].timestamp, 10);
}

#[test]
fn recent_recommendations_window_order_and_limit() {
    let mut db = Database::new();
    let day = 86_400u64;
    db.store_recommendation("old", 0).unwrap();
    db.store_recommendation("mid", 3 * day).unwrap();
    db.store_recommendation("new", 8 * day).unwrap();
    assert_eq!(db.get_recent_recommendations(8 * day), vec!["new".to_string(), "mid".to_string()]);
    assert_eq!(db.get_recent_recommendations(day), vec!["new".to_string(), "mid".to_string(), "old".to_string()]);
    let mut big = Database::new();
    for i in 0..150u64 {
        big.store_recommendation(&format!("v{}", i), i).unwrap();
    }
    let recent = big.get_recent_recommendations(200);
    assert_eq!(recent.len(), 100);
    assert_eq!(recent[0], "v149");
    assert_eq!(recent[99], "v50");
}

#[test]
fn playlist_queue_operations() {
    let mut db = Database::new();
    assert!(db.get_oldest_playlist_song().is_none());
    db.add_to_playlist_queue("t1", "u1", "v1", 1).unwrap();
    db.add_to_playlist_queue("t2", "u2", "v2", 2).unwrap();
    let oldest = db.get_oldest_playlist_song().unwrap();
    assert_eq!(oldest.video_id, "v1");
    assert_eq!(oldest.id, Some(1));
    assert!(db.delete_playlist_song_by_id(1));
    assert!(!db.delete_playlist_song_by_id(1));
    let all = db.get_all_playlist_songs();
    assert_eq!(all.len(), 1);
    assert_eq!(all[0].title, "t2");
    db.clear_playlist_queue();
    assert!(db.get_all_playlist_songs().is_empty());
}

#[test]
fn ids_used_up_give_store_unavailable() {
    let mut db = Database::new();
    db.next_song_id = i64::MAX;
    assert_eq!(db.add_song(&song("a", "u", "x"), 1), Err(Error::StoreUnavailable));
    assert!(db.get_all_songs().is_empty());
    db.next_recommendation_id = i64::MAX;
    assert_eq!(db.store_recommendation("v", 1), Err(Error::StoreUnavailable));
    db.next_queue_id = i64::MAX;
    assert_eq!(db.add_to_playlist_queue("t", "u", "v", 1), Err(Error::StoreUnavailable));
}
