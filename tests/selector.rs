use song_queue::models::Candidate;
use song_queue::selector::{candidate_pool, candidate_rejected, rejected_lowered, select_recommendation};
use song_queue::youtube::YouTubeAPI;

fn cand(id: &str, title: &str) -> Candidate {
    Candidate {
        video_id: id.to_string(),
        title: title.to_string(),
        description: "a song".to_string(),
        channel_title: "Some Artist".to_string(),
    }
}

fn batch_of(n: usize, title: &str) -> Vec<Candidate> {
    (0..n).map(|i| cand(&format!("id{}", i), title)).collect()
}

#[test]
fn content_filters_on_lowercase_text() {
    assert!(!rejected_lowered("artist - song (official video)", "", "artist", false));
    assert!(rejected_lowered("best of 2020", "", "", false));
    assert!(rejected_lowered("song", "the greatest hits", "", false));
    assert!(rejected_lowered("song", "", "bollywood music", false));
    assert!(rejected_lowered("ten minutes of rain", "", "", false));
    assert!(rejected_lowered("song", "", "", true));
    assert!(!rejected_lowered("song", "", "compilation", false));
}

#[test]
fn long_titles_with_many_words_are_rejected() {
    let long_many = "a b c d e f g h i j k lllllllllllllllllllllllllllllllllllllllllllllllllllllllllll";
    assert!(long_many.chars().count() > 70);
    assert!(rejected_lowered(long_many, "", "", false));
    let long_few = "aaaaaaaaaaaaaaaaaaaaaaaaaaaaaaaaaaaaaaaa bbbbbbbbbbbbbbbbbbbbbbbbbbbbbbbbbbbbbbbbbbb";
    assert!(long_few.chars().count() > 70);
    assert!(!rejected_lowered(long_few, "", "", false));
    let short_many = "a b c d e f g h i j k l";
    assert!(!rejected_lowered(short_many, "", "", false));
}

#[test]
fn candidate_filters_ignore_case() {
    assert!(candidate_rejected(&cand("x", "The COMPILATION")));
    assert!(candidate_rejected(&cand("x", "Relaxing HOUR")));
    let mut c = cand("x", "Song");
    c.channel_title = "HINDI Hits".to_string();
    assert!(candidate_rejected(&c));
    assert!(!candidate_rejected(&cand("x", "Artist - Song")));
}

#[test]
fn minutes_pattern_is_detected() {
    assert!(candidate_rejected(&cand("x", "Song 3 min")));
    assert!(candidate_rejected(&cand("x", "Song 10min version")));
    assert!(!candidate_rejected(&cand("x", "Song in D minor")));
    assert!(!candidate_rejected(&cand("x", "Song 3")));
}

#[test]
fn pool_prefers_candidates_that_pass() {
    let items = batch_of(4, "t");
    let recent = vec!["id1".to_string()];
    assert_eq!(candidate_pool(&items, &vec![false, false, true, false], &recent), vec![0, 3]);
    assert_eq!(candidate_pool(&items, &vec![true, false, true, true], &recent), vec![0, 2, 3]);
    let all = vec!["id0".to_string(), "id1".to_string(), "id2".to_string(), "id3".to_string()];
    assert_eq!(candidate_pool(&items, &vec![false, false, false, false], &all), vec![0]);
    assert!(candidate_pool(&Vec::new(), &Vec::new(), &recent).is_empty());
}

#[test]
fn single_survivor_is_picked_deterministically() {
    let mut items = batch_of(25, "Epic Megamix");
    items[7] = cand("keeper", "Artist - Song");
    items[3] = cand("recent", "Artist - Other Song");
    let recent = vec!["recent".to_string()];
    for _ in 0..20 {
        let r = select_recommendation(&items, &recent).unwrap();
        assert_eq!(r.video_id, "keeper");
        assert_eq!(r.title, "Artist - Song");
        assert_eq!(r.url, "https://www.youtube.com/watch?v=keeper");
    }
}

#[test]
fn total_exclusion_falls_back_to_first() {
    let items = batch_of(5, "Artist - Song");
    let recent: Vec<String> = (0..5).map(|i| format!("id{}", i)).collect();
    let r = select_recommendation(&items, &recent).unwrap();
    assert_eq!(r.video_id, "id0");
}

#[test]
fn all_filtered_falls_back_to_not_excluded() {
    let items = batch_of(3, "Mashup");
    let recent = vec!["id0".to_string(), "id2".to_string()];
    let r = select_recommendation(&items, &recent).unwrap();
    assert_eq!(r.video_id, "id1");
}

#[test]
fn random_pick_stays_among_survivors() {
    let mut items = batch_of(6, "Mix");
    items[1] = cand("a", "Song A");
    items[4] = cand("b", "Song B");
    for _ in 0..30 {
        let r = select_recommendation(&items, &Vec::new()).unwrap();
        assert!(r.video_id == "a" || r.video_id == "b");
    }
}

#[test]
fn empty_batch_gives_nothing() {
    assert!(select_recommendation(&Vec::new(), &Vec::new()).is_none());
    let api = YouTubeAPI::new("SECRET-REDACTED".to_string());
    assert!(api.get_recommendation(&Vec::new(), &Vec::new()).is_none());
}
