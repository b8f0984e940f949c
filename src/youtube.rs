//! The video-service side of the queue: link parsing and the selection and
//! import steps that run on what the service returned.

use vstd::prelude::*;
use crate::importer::PlaylistImport;
use crate::models::{Candidate, Error, YouTubeSearchResult};
use crate::selector::{describes, pool_of, rejections, select_recommendation};
use crate::text::{chars_of, contains_chars, playlist_id_of, value_after_str, video_id_of};

verus! {

/// The client settings for the video service.
pub struct YouTubeAPI {
    pub api_key: String,
}

impl YouTubeAPI {
    /// Settings with this key.
    pub fn new(api_key: String) -> (r: Self)
        ensures
            r.api_key == api_key,
    {
        YouTubeAPI { api_key }
    }

    /// Picks a recommendation from a fetched batch, avoiding the ids in
    /// `recent_recommendations`; nothing on an empty batch.
    pub fn get_recommendation(&self, items: &Vec<Candidate>, recent_recommendations: &Vec<String>) -> (r: Option<YouTubeSearchResult>)
        ensures
            r is None <==> items@.len() == 0,
            r matches Some(res) ==> exists|k: int|
                0 <= k < pool_of(items@, rejections(items@), recent_recommendations@).len() && describes(
                    res,
                    items@[pool_of(items@, rejections(items@), recent_recommendations@)[k] as int],
                ),
    {
        select_recommendation(items, recent_recommendations)
    }

    /// Starts the import of the playlist a link names; `InvalidPlaylistUrl` if
    /// the link has no `list=` parameter.
    pub fn get_playlist_songs(&self, playlist_url: &str) -> (r: Result<PlaylistImport, Error>)
        ensures
            r is Err <==> playlist_id_of(playlist_url@) is None,
            r is Err ==> r == Err::<PlaylistImport, Error>(Error::InvalidPlaylistUrl),
            r matches Ok(s) ==> playlist_id_of(playlist_url@) == Some(s.playlist_id@)
                && s.kept@.len() == 0 && s.total_fetched == 0 && s.next_page_token is None,
    {
        PlaylistImport::start(playlist_url)
    }

    /// The value of the `list=` parameter of a link.
    pub fn extract_playlist_id(url: &str) -> (r: Option<String>)
        ensures
            r is None <==> playlist_id_of(url@) is None,
            r matches Some(v) ==> playlist_id_of(url@) == Some(v@),
    {
        value_after_str(url, "list=", "&")
    }

    /// The video id of a watch link (`v=`) or of a short link (`youtu.be/`).
    pub fn extract_video_id(url: &str) -> (r: Option<String>)
        ensures
            r is None <==> video_id_of(url@) is None,
            r matches Some(v) ==> video_id_of(url@) == Some(v@),
    {
        let hv = chars_of(url);
        let key = chars_of("v=");
        if contains_chars(&hv, &key) {
            value_after_str(url, "v=", "&")
        } else {
            value_after_str(url, "youtu.be/", "?")
        }
    }
}

} // verus!
