use song_queue::text::{chars_of, contains_chars, count_tokens, make_watch_url};
use song_queue::youtube::YouTubeAPI;

#[test]
fn playlist_id_extraction() {
    assert_eq!(
        YouTubeAPI::extract_playlist_id("https://www.youtube.com/playlist?list=PLabc123&si=xyz"),
        Some("PLabc123".to_string())
    );
    assert_eq!(
        YouTubeAPI::extract_playlist_id("https://www.youtube.com/watch?v=a1&list=PLq"),
        Some("PLq".to_string())
    );
    assert_eq!(YouTubeAPI::extract_playlist_id("https://www.youtube.com/watch?v=a1"), None);
}

#[test]
fn video_id_extraction() {
    assert_eq!(
        YouTubeAPI::extract_video_id("https://www.youtube.com/watch?v=dQw4w9WgXcQ&t=10"),
        Some("dQw4w9WgXcQ".to_string())
    );
    assert_eq!(
        YouTubeAPI::extract_video_id("https://youtu.be/dQw4w9WgXcQ?si=abc"),
        Some("dQw4w9WgXcQ".to_string())
    );
    assert_eq!(YouTubeAPI::extract_video_id("https://example.com/song"), None);
    assert_eq!(YouTubeAPI::extract_video_id("x?v=ab v=cd"), Some("ab ".to_string()));
}

#[test]
fn substring_and_tokens() {
    let h = chars_of("hello world");
    assert!(contains_chars(&h, &chars_of("lo w")));
    assert!(contains_chars(&h, &chars_of("")));
    assert!(!contains_chars(&h, &chars_of("worlds")));
    assert_eq!(count_tokens(&chars_of("  a  bb\tc\n")), 3);
    assert_eq!(count_tokens(&chars_of("")), 0);
    assert_eq!(count_tokens(&chars_of("a\u{3000}b")), 2);
}

#[test]
fn watch_url_format() {
    assert_eq!(make_watch_url("abc"), "https://www.youtube.com/watch?v=abc");
}
