//! The rows of the store and the values handed to and from the queue engine.

use vstd::prelude::*;

verus! {

/// A song in the direct-request queue.
pub struct YouTubeURL {
    pub id: Option<i64>,
    pub title: String,
    pub url: String,
    pub user: String,
    /// Insertion time in seconds, assigned by the store.
    pub created_at: Option<u64>,
}

/// A named playlist.
pub struct Playlist {
    pub id: Option<i64>,
    pub name: String,
    pub description: Option<String>,
    pub youtube_playlist_url: String,
    pub created_at: Option<u64>,
}

/// A manually curated song of a playlist.
pub struct PlaylistItem {
    pub id: Option<i64>,
    pub playlist_id: i64,
    pub title: String,
    pub url: String,
    pub user: String,
    pub created_at: Option<u64>,
}

/// A row of the recommendation history.
pub struct RecommendedVideo {
    pub id: Option<i64>,
    pub video_id: String,
    /// Insertion time in seconds.
    pub timestamp: u64,
}

/// The result of a search: one video.
pub struct YouTubeSearchResult {
    pub title: String,
    pub url: String,
    pub video_id: String,
}

/// A request to queue a song, by direct link or by search term.
pub struct AddSongRequest {
    pub title: String,
    pub user: String,
    pub url: Option<String>,
}

/// A request to remove a queued song by its url.
pub struct DeleteSongRequest {
    pub url: String,
}

/// A request to create a playlist.
pub struct CreatePlaylistRequest {
    pub name: String,
    pub description: Option<String>,
    pub youtube_playlist_url: String,
}

/// A request to add a song to a playlist.
pub struct AddToPlaylistRequest {
    pub playlist_id: i64,
    pub title: String,
    pub url: String,
    pub user: String,
}

/// One video of a playlist that has been played.
pub struct PlaylistProgress {
    pub id: Option<i64>,
    pub playlist_id: i64,
    pub video_id: String,
    pub title: String,
    pub url: String,
    pub played_at: Option<u64>,
}

/// A song in the playlist-import queue.
pub struct PlaylistQueueItem {
    pub id: Option<i64>,
    pub title: String,
    pub url: String,
    pub video_id: String,
    pub created_at: Option<u64>,
}

/// A request to import a playlist into the playlist-import queue.
pub struct AddPlaylistSongsRequest {
    pub playlist_url: String,
}

/// A video considered by the recommendation selector.
pub struct Candidate {
    pub video_id: String,
    pub title: String,
    pub description: String,
    pub channel_title: String,
}

/// One entry of a page of a playlist listing.
pub struct PlaylistEntry {
    pub title: String,
    pub video_id: String,
}

/// The failures of the queue engine.
#[derive(Debug, Clone, Copy, PartialEq, Eq, Structural)]
pub enum Error {
    InvalidUrl,
    YouTubeSearchFailed,
    DuplicateUrl,
    NotFound,
    InvalidPlaylistUrl,
    StoreUnavailable,
}

/// Where a song handed out for playback came from.
#[derive(Debug, Clone, Copy, PartialEq, Eq, Structural)]
pub enum SongSource {
    Direct,
    PlaylistImport,
    Recommended,
}

/// A song taken for playback, with its source.
pub struct TakenSong {
    pub song: YouTubeURL,
    pub source: SongSource,
}

/// A copy of an optional string.
pub fn copy_opt_string(s: &Option<String>) -> (r: Option<String>)
    ensures
        r == *s,
{
    match s {
        Some(x) => Some(x.clone()),
        None => None,
    }
}

impl YouTubeURL {
    /// A field-by-field copy.
    pub fn duplicate(&self) -> (r: Self)
        ensures
            r == *self,
    {
        YouTubeURL {
            id: self.id,
            title: self.title.clone(),
            url: self.url.clone(),
            user: self.user.clone(),
            created_at: self.created_at,
        }
    }
}

impl Playlist {
    /// A field-by-field copy.
    pub fn duplicate(&self) -> (r: Self)
        ensures
            r == *self,
    {
        Playlist {
            id: self.id,
            name: self.name.clone(),
            description: copy_opt_string(&self.description),
            youtube_playlist_url: self.youtube_playlist_url.clone(),
            created_at: self.created_at,
        }
    }
}

impl PlaylistItem {
    /// A field-by-field copy.
    pub fn duplicate(&self) -> (r: Self)
        ensures
            r == *self,
    {
        PlaylistItem {
            id: self.id,
            playlist_id: self.playlist_id,
            title: self.title.clone(),
            url: self.url.clone(),
            user: self.user.clone(),
            created_at: self.created_at,
        }
    }
}

impl PlaylistQueueItem {
    /// A field-by-field copy.
    pub fn duplicate(&self) -> (r: Self)
        ensures
            r == *self,
    {
        PlaylistQueueItem {
            id: self.id,
            title: self.title.clone(),
            url: self.url.clone(),
            video_id: self.video_id.clone(),
            created_at: self.created_at,
        }
    }
}

} // verus!
