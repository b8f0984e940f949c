//! The store: the direct-request queue, playlists and their items, playlist
//! progress, the playlist-import queue and the recommendation history, each an
//! ordered table with store-assigned ids and timestamps.

use vstd::prelude::*;
use crate::selector::choose_index;
use crate::models::{
    copy_opt_string, Error, Playlist, PlaylistItem, PlaylistProgress, PlaylistQueueItem, RecommendedVideo, YouTubeURL,
};

verus! {

/// The most rows the recommendation history keeps.
pub const RECOMMENDATION_CAP: usize = 200;

/// How far back, in seconds, a recommendation counts as recent (seven days).
pub const RECENT_WINDOW: u64 = 604800;

/// The most recent recommendations handed out at once.
pub const RECENT_LIMIT: usize = 100;

/// The tables of the store. Rows of each table are kept in insertion order.
pub struct Database {
    pub songs: Vec<YouTubeURL>,
    pub playlists: Vec<Playlist>,
    pub playlist_items: Vec<PlaylistItem>,
    pub recommendations: Vec<RecommendedVideo>,
    pub progress: Vec<PlaylistProgress>,
    pub playlist_queue: Vec<PlaylistQueueItem>,
    pub next_song_id: i64,
    pub next_playlist_id: i64,
    pub next_item_id: i64,
    pub next_recommendation_id: i64,
    pub next_progress_id: i64,
    pub next_queue_id: i64,
}

/// The id of a stored row (rows in the store always have one).
pub open spec fn row_id(id: Option<i64>) -> int {
    match id {
        Some(v) => v as int,
        None => 0,
    }
}

/// Some row of the direct queue has this url.
pub open spec fn has_url(songs: Seq<YouTubeURL>, url: Seq<char>) -> bool {
    exists|i: int| 0 <= i < songs.len() && songs[i].url@ == url
}

/// Some playlist has this id.
pub open spec fn has_playlist(playlists: Seq<Playlist>, id: i64) -> bool {
    exists|i: int| 0 <= i < playlists.len() && playlists[i].id == Some(id)
}

/// The row the direct queue stores for a submitted song.
pub open spec fn song_row(song: YouTubeURL, id: i64, now: u64) -> YouTubeURL {
    YouTubeURL { id: Some(id), title: song.title, url: song.url, user: song.user, created_at: Some(now) }
}

/// The direct queue after submitting a song: unchanged if its url is queued,
/// else with the song's row appended.
pub open spec fn add_step(songs: Seq<YouTubeURL>, song: YouTubeURL, id: i64, now: u64) -> Seq<YouTubeURL> {
    if has_url(songs, song.url@) {
        songs
    } else {
        songs.push(song_row(song, id, now))
    }
}

/// What adding `song` at time `now` to store `old` does: `DuplicateUrl` for a
/// url already queued, `StoreUnavailable` when the ids are used up (both leave
/// the store as it was), else the row is appended with the next id.
pub open spec fn add_song_post(old: Database, song: YouTubeURL, now: u64, r: Result<(), Error>, new: Database) -> bool {
    &&& has_url(old.songs@, song.url@) ==> r == Err::<(), Error>(Error::DuplicateUrl)
    &&& !has_url(old.songs@, song.url@) && old.next_song_id == i64::MAX ==> r == Err::<(), Error>(Error::StoreUnavailable)
    &&& r is Err ==> new == old
    &&& r is Ok <==> !has_url(old.songs@, song.url@) && old.next_song_id < i64::MAX
    &&& r is Ok ==> new.songs@ == old.songs@.push(song_row(song, old.next_song_id, now))
        && new == (Database { songs: new.songs, next_song_id: (old.next_song_id + 1) as i64, ..old })
    &&& r != Err::<(), Error>(Error::StoreUnavailable) ==> new.songs@ == add_step(old.songs@, song, old.next_song_id, now)
}

/// Ids of the direct queue are present, increasing in insertion order and below `next`.
pub open spec fn songs_wf(songs: Seq<YouTubeURL>, next: i64) -> bool {
    &&& forall|i: int| 0 <= i < songs.len() ==> (#[trigger] songs[i]).id is Some && row_id(songs[i].id) < next
    &&& forall|i: int, j: int| 0 <= i < j < songs.len() ==> row_id(songs[i].id) < row_id(songs[j].id)
    &&& forall|i: int, j: int| 0 <= i < songs.len() && 0 <= j < songs.len() && i != j ==> songs[i].url@ != songs[j].url@
}

proof fn lemma_songs_remove(songs: Seq<YouTubeURL>, next: i64, k: int)
    requires
        songs_wf(songs, next),
        0 <= k < songs.len(),
    ensures
        songs_wf(songs.remove(k), next),
{
    let r = songs.remove(k);
    assert forall|i: int| 0 <= i < r.len() implies r[i] == songs[if i < k { i } else { i + 1 }] by {}
    assert forall|i: int, j: int| 0 <= i < j < r.len() implies row_id(r[i].id) < row_id(r[j].id) by {
        assert(r[i] == songs[if i < k { i } else { i + 1 }]);
        assert(r[j] == songs[if j < k { j } else { j + 1 }]);
    }
    assert forall|i: int, j: int| 0 <= i < r.len() && 0 <= j < r.len() && i != j implies r[i].url@ != r[j].url@ by {
        assert(r[i] == songs[if i < k { i } else { i + 1 }]);
        assert(r[j] == songs[if j < k { j } else { j + 1 }]);
    }
}

/// The items of one playlist, in insertion order.
pub open spec fn items_of(items: Seq<PlaylistItem>, playlist_id: i64) -> Seq<PlaylistItem> {
    items.filter(|x: PlaylistItem| x.playlist_id == playlist_id)
}

/// The items of every other playlist, in insertion order.
pub open spec fn items_without(items: Seq<PlaylistItem>, playlist_id: i64) -> Seq<PlaylistItem> {
    items.filter(|x: PlaylistItem| x.playlist_id != playlist_id)
}

/// The progress rows of one playlist, in insertion order.
pub open spec fn progress_of(progress: Seq<PlaylistProgress>, playlist_id: i64) -> Seq<PlaylistProgress> {
    progress.filter(|x: PlaylistProgress| x.playlist_id == playlist_id)
}

/// The progress rows of every other playlist, in insertion order.
pub open spec fn progress_without(progress: Seq<PlaylistProgress>, playlist_id: i64) -> Seq<PlaylistProgress> {
    progress.filter(|x: PlaylistProgress| x.playlist_id != playlist_id)
}

/// The video ids played from one playlist, in the order they were marked.
pub open spec fn played_ids(progress: Seq<PlaylistProgress>, playlist_id: i64) -> Seq<String> {
    progress_of(progress, playlist_id).map_values(|x: PlaylistProgress| x.video_id)
}

/// The row the store keeps for a new playlist.
pub open spec fn playlist_row(p: Playlist, id: i64, now: u64) -> Playlist {
    Playlist {
        id: Some(id),
        name: p.name,
        description: p.description,
        youtube_playlist_url: p.youtube_playlist_url,
        created_at: Some(now),
    }
}

/// The row the store keeps for a new playlist item.
pub open spec fn item_row(item: PlaylistItem, id: i64, now: u64) -> PlaylistItem {
    PlaylistItem {
        id: Some(id),
        playlist_id: item.playlist_id,
        title: item.title,
        url: item.url,
        user: item.user,
        created_at: Some(now),
    }
}

/// The row the store keeps when a video of a playlist is marked played.
pub open spec fn progress_row(
    playlist_id: i64,
    video_id: Seq<char>,
    title: Seq<char>,
    url: Seq<char>,
    row: PlaylistProgress,
    id: i64,
    now: u64,
) -> bool {
    &&& row.id == Some(id)
    &&& row.playlist_id == playlist_id
    &&& row.video_id@ == video_id
    &&& row.title@ == title
    &&& row.url@ == url
    &&& row.played_at == Some(now)
}

proof fn lemma_has_playlist_after_remove(pls: Seq<Playlist>, k: int, id: i64, other: i64)
    requires
        0 <= k < pls.len(),
        pls[k].id == Some(id),
        other != id,
        has_playlist(pls, other),
    ensures
        has_playlist(pls.remove(k), other),
{
    let i = choose|i: int| 0 <= i < pls.len() && pls[i].id == Some(other);
    let j = if i < k { i } else { i - 1 };
    assert(pls.remove(k)[j] == pls[i]);
}

proof fn lemma_has_playlist_after_push(pls: Seq<Playlist>, p: Playlist, other: i64)
    requires
        has_playlist(pls, other),
    ensures
        has_playlist(pls.push(p), other),
{
    let i = choose|i: int| 0 <= i < pls.len() && pls[i].id == Some(other);
    assert(pls.push(p)[i] == pls[i]);
}

impl Database {
    /// The store's invariants: ids present, unique and below the next id of their
    /// table; urls of the direct queue unique; items and progress rows belong to
    /// an existing playlist; recommended video ids unique and at most
    /// `RECOMMENDATION_CAP` of them.
    pub open spec fn wf(&self) -> bool {
        &&& 1 <= self.next_song_id && 1 <= self.next_playlist_id && 1 <= self.next_item_id
        &&& 1 <= self.next_recommendation_id && 1 <= self.next_progress_id && 1 <= self.next_queue_id
        &&& songs_wf(self.songs@, self.next_song_id)
        &&& forall|i: int| 0 <= i < self.playlists@.len() ==> (#[trigger] self.playlists@[i]).id is Some
            && row_id(self.playlists@[i].id) < self.next_playlist_id
        &&& forall|i: int, j: int| 0 <= i < j < self.playlists@.len() ==> row_id(self.playlists@[i].id) < row_id(self.playlists@[j].id)
        &&& forall|i: int| 0 <= i < self.playlist_items@.len() ==> (#[trigger] self.playlist_items@[i]).id is Some
            && row_id(self.playlist_items@[i].id) < self.next_item_id
            && has_playlist(self.playlists@, self.playlist_items@[i].playlist_id)
        &&& forall|i: int| 0 <= i < self.progress@.len() ==> (#[trigger] self.progress@[i]).id is Some
            && row_id(self.progress@[i].id) < self.next_progress_id
            && has_playlist(self.playlists@, self.progress@[i].playlist_id)
        &&& forall|i: int| 0 <= i < self.playlist_queue@.len() ==> (#[trigger] self.playlist_queue@[i]).id is Some
            && row_id(self.playlist_queue@[i].id) < self.next_queue_id
        &&& forall|i: int, j: int| 0 <= i < j < self.playlist_queue@.len() ==> row_id(self.playlist_queue@[i].id) < row_id(self.playlist_queue@[j].id)
        &&& self.recommendations@.len() <= RECOMMENDATION_CAP
        &&& forall|i: int| 0 <= i < self.recommendations@.len() ==> (#[trigger] self.recommendations@[i]).id is Some
            && row_id(self.recommendations@[i].id) < self.next_recommendation_id
        &&& forall|i: int, j: int| 0 <= i < self.recommendations@.len() && 0 <= j < self.recommendations@.len() && i != j
            ==> self.recommendations@[i].video_id@ != self.recommendations@[j].video_id@
    }

    /// An empty store.
    pub fn new() -> (r: Database)
        ensures
            r.wf(),
            r.songs@.len() == 0,
            r.playlists@.len() == 0,
            r.playlist_items@.len() == 0,
            r.recommendations@.len() == 0,
            r.progress@.len() == 0,
            r.playlist_queue@.len() == 0,
            r.next_song_id == 1 && r.next_playlist_id == 1 && r.next_item_id == 1,
            r.next_recommendation_id == 1 && r.next_progress_id == 1 && r.next_queue_id == 1,
    {
        Database {
            songs: Vec::new(),
            playlists: Vec::new(),
            playlist_items: Vec::new(),
            recommendations: Vec::new(),
            progress: Vec::new(),
            playlist_queue: Vec::new(),
            next_song_id: 1,
            next_playlist_id: 1,
            next_item_id: 1,
            next_recommendation_id: 1,
            next_progress_id: 1,
            next_queue_id: 1,
        }
    }

    /// Whether some queued song has this url.
    pub fn has_song_url(&self, url: &String) -> (r: bool)
        ensures
            r == has_url(self.songs@, url@),
    {
        let mut k: usize = 0;
        while k < self.songs.len()
            invariant
                k <= self.songs@.len(),
                forall|j: int| 0 <= j < k ==> self.songs@[j].url@ != url@,
            decreases self.songs@.len() - k,
        {
            if self.songs[k].url == *url {
                return true;
            }
            k += 1;
        }
        false
    }

    /// Appends a song to the direct queue, at time `now`. A url already queued is
    /// refused with `DuplicateUrl`; `StoreUnavailable` when the ids are used up.
    pub fn add_song(&mut self, song: &YouTubeURL, now: u64) -> (r: Result<(), Error>)
        requires
            old(self).wf(),
        ensures
            final(self).wf(),
            add_song_post(*old(self), *song, now, r, *final(self)),
    {
        if self.has_song_url(&song.url) {
            return Err(Error::DuplicateUrl);
        }
        if self.next_song_id == i64::MAX {
            return Err(Error::StoreUnavailable);
        }
        let row = YouTubeURL {
            id: Some(self.next_song_id),
            title: song.title.clone(),
            url: song.url.clone(),
            user: song.user.clone(),
            created_at: Some(now),
        };
        self.songs.push(row);
        self.next_song_id = self.next_song_id + 1;
        proof {
            let s = self.songs@;
            assert forall|i: int, j: int| 0 <= i < s.len() && 0 <= j < s.len() && i != j implies s[i].url@ != s[j].url@ by {
                if i == s.len() - 1 {
                    assert(s[j] == old(self).songs@[j]);
                } else if j == s.len() - 1 {
                    assert(s[i] == old(self).songs@[i]);
                }
            }
        }
        Ok(())
    }

    /// The direct queue, oldest first.
    pub fn get_all_songs(&self) -> (r: Vec<YouTubeURL>)
        ensures
            r@ == self.songs@,
    {
        let mut out: Vec<YouTubeURL> = Vec::new();
        let mut k: usize = 0;
        while k < self.songs.len()
            invariant
                k <= self.songs@.len(),
                out@ == self.songs@.subrange(0, k as int),
            decreases self.songs@.len() - k,
        {
            out.push(self.songs[k].duplicate());
            k += 1;
            assert(out@ =~= self.songs@.subrange(0, k as int));
        }
        assert(out@ =~= self.songs@);
        out
    }

    /// The oldest song of the direct queue, without removing it.
    pub fn get_oldest_song(&self) -> (r: Option<YouTubeURL>)
        ensures
            r == (if self.songs@.len() > 0 { Some(self.songs@[0]) } else { None }),
    {
        if self.songs.len() > 0 {
            Some(self.songs[0].duplicate())
        } else {
            None
        }
    }

    /// Removes the queued song with this url; true iff there was one.
    pub fn delete_song_by_url(&mut self, url: &str) -> (r: bool)
        requires
            old(self).wf(),
        ensures
            final(self).wf(),
            r == has_url(old(self).songs@, url@),
            r ==> exists|k: int| 0 <= k < old(self).songs@.len() && old(self).songs@[k].url@ == url@
                && final(self).songs@ == old(self).songs@.remove(k),
            !r ==> *final(self) == *old(self),
            *final(self) == (Database { songs: final(self).songs, ..*old(self) }),
    {
        let target = String::from_str(url);
        let mut k: usize = 0;
        while k < self.songs.len()
            invariant
                *self == *old(self),
                self.wf(),
                k <= self.songs@.len(),
                target@ == url@,
                forall|j: int| 0 <= j < k ==> self.songs@[j].url@ != url@,
            decreases self.songs@.len() - k,
        {
            if self.songs[k].url == target {
                proof {
                    lemma_songs_remove(self.songs@, self.next_song_id, k as int);
                }
                self.songs.remove(k);
                return true;
            }
            k += 1;
        }
        false
    }

    /// Removes the queued song with this id; true iff there was one.
    pub fn delete_song_by_id(&mut self, id: i64) -> (r: bool)
        requires
            old(self).wf(),
        ensures
            final(self).wf(),
            r == exists|k: int| 0 <= k < old(self).songs@.len() && old(self).songs@[k].id == Some(id),
            r ==> exists|k: int| 0 <= k < old(self).songs@.len() && old(self).songs@[k].id == Some(id)
                && final(self).songs@ == old(self).songs@.remove(k),
            !r ==> *final(self) == *old(self),
            *final(self) == (Database { songs: final(self).songs, ..*old(self) }),
    {
        let mut k: usize = 0;
        while k < self.songs.len()
            invariant
                *self == *old(self),
                self.wf(),
                k <= self.songs@.len(),
                forall|j: int| 0 <= j < k ==> self.songs@[j].id != Some(id),
            decreases self.songs@.len() - k,
        {
            if self.songs[k].id == Some(id) {
                proof {
                    lemma_songs_remove(self.songs@, self.next_song_id, k as int);
                }
                self.songs.remove(k);
                return true;
            }
            k += 1;
        }
        false
    }
}

impl Database {
    /// The position of the playlist with this id, if any.
    pub fn playlist_position(&self, id: i64) -> (r: Option<usize>)
        ensures
            r is None <==> !has_playlist(self.playlists@, id),
            r matches Some(k) ==> k < self.playlists@.len() && self.playlists@[k as int].id == Some(id),
    {
        let mut k: usize = 0;
        while k < self.playlists.len()
            invariant
                k <= self.playlists@.len(),
                forall|j: int| 0 <= j < k ==> self.playlists@[j].id != Some(id),
            decreases self.playlists@.len() - k,
        {
            if self.playlists[k].id == Some(id) {
                return Some(k);
            }
            k += 1;
        }
        None
    }

    /// Whether a playlist with this id exists.
    pub fn playlist_exists(&self, id: i64) -> (r: bool)
        ensures
            r == has_playlist(self.playlists@, id),
    {
        self.playlist_position(id).is_some()
    }

    /// Creates a playlist at time `now` and returns its id; `StoreUnavailable`
    /// when the ids are used up.
    pub fn create_playlist(&mut self, playlist: &Playlist, now: u64) -> (r: Result<i64, Error>)
        requires
            old(self).wf(),
        ensures
            final(self).wf(),
            r is Ok <==> old(self).next_playlist_id < i64::MAX,
            r is Err ==> r == Err::<i64, Error>(Error::StoreUnavailable) && *final(self) == *old(self),
            r is Ok ==> r == Ok::<i64, Error>(old(self).next_playlist_id)
                && final(self).playlists@ == old(self).playlists@.push(playlist_row(*playlist, old(self).next_playlist_id, now))
                && *final(self) == (Database { playlists: final(self).playlists, next_playlist_id: (old(self).next_playlist_id + 1) as i64, ..*old(self) }),
    {
        if self.next_playlist_id == i64::MAX {
            return Err(Error::StoreUnavailable);
        }
        let id = self.next_playlist_id;
        let row = Playlist {
            id: Some(id),
            name: playlist.name.clone(),
            description: copy_opt_string(&playlist.description),
            youtube_playlist_url: playlist.youtube_playlist_url.clone(),
            created_at: Some(now),
        };
        self.playlists.push(row);
        self.next_playlist_id = id + 1;
        proof {
            assert forall|i: int| 0 <= i < self.playlist_items@.len() implies has_playlist(self.playlists@, (#[trigger] self.playlist_items@[i]).playlist_id) by {
                lemma_has_playlist_after_push(old(self).playlists@, self.playlists@.last(), self.playlist_items@[i].playlist_id);
            }
            assert forall|i: int| 0 <= i < self.progress@.len() implies has_playlist(self.playlists@, (#[trigger] self.progress@[i]).playlist_id) by {
                lemma_has_playlist_after_push(old(self).playlists@, self.playlists@.last(), self.progress@[i].playlist_id);
            }
        }
        Ok(id)
    }

    /// All playlists, newest first.
    pub fn get_all_playlists(&self) -> (r: Vec<Playlist>)
        ensures
            r@.len() == self.playlists@.len(),
            forall|i: int| 0 <= i < r@.len() ==> r@[i] == self.playlists@[self.playlists@.len() - 1 - i],
    {
        let n = self.playlists.len();
        let mut out: Vec<Playlist> = Vec::new();
        let mut k: usize = 0;
        while k < n
            invariant
                n == self.playlists@.len(),
                k <= n,
                out@.len() == k,
                forall|i: int| 0 <= i < k ==> out@[i] == self.playlists@[n - 1 - i],
            decreases n - k,
        {
            out.push(self.playlists[n - 1 - k].duplicate());
            k += 1;
        }
        out
    }

    /// The playlist with this id, if any.
    pub fn get_playlist(&self, id: i64) -> (r: Option<Playlist>)
        ensures
            r is Some <==> has_playlist(self.playlists@, id),
            r matches Some(p) ==> p.id == Some(id) && self.playlists@.contains(p),
    {
        let mut k: usize = 0;
        while k < self.playlists.len()
            invariant
                k <= self.playlists@.len(),
                forall|j: int| 0 <= j < k ==> self.playlists@[j].id != Some(id),
            decreases self.playlists@.len() - k,
        {
            if self.playlists[k].id == Some(id) {
                let p = self.playlists[k].duplicate();
                assert(self.playlists@[k as int] == p);
                return Some(p);
            }
            k += 1;
        }
        None
    }

    /// Adds an item to an existing playlist at time `now`: `NotFound` if the
    /// playlist does not exist, `StoreUnavailable` when the ids are used up.
    pub fn add_to_playlist(&mut self, item: &PlaylistItem, now: u64) -> (r: Result<(), Error>)
        requires
            old(self).wf(),
        ensures
            final(self).wf(),
            !has_playlist(old(self).playlists@, item.playlist_id) ==> r == Err::<(), Error>(Error::NotFound),
            has_playlist(old(self).playlists@, item.playlist_id) && old(self).next_item_id == i64::MAX ==> r == Err::<(), Error>(Error::StoreUnavailable),
            r is Err ==> *final(self) == *old(self),
            r is Ok <==> has_playlist(old(self).playlists@, item.playlist_id) && old(self).next_item_id < i64::MAX,
            r is Ok ==> final(self).playlist_items@ == old(self).playlist_items@.push(item_row(*item, old(self).next_item_id, now))
                && *final(self) == (Database { playlist_items: final(self).playlist_items, next_item_id: (old(self).next_item_id + 1) as i64, ..*old(self) }),
    {
        if !self.playlist_exists(item.playlist_id) {
            return Err(Error::NotFound);
        }
        if self.next_item_id == i64::MAX {
            return Err(Error::StoreUnavailable);
        }
        let row = PlaylistItem {
            id: Some(self.next_item_id),
            playlist_id: item.playlist_id,
            title: item.title.clone(),
            url: item.url.clone(),
            user: item.user.clone(),
            created_at: Some(now),
        };
        self.playlist_items.push(row);
        self.next_item_id = self.next_item_id + 1;
        Ok(())
    }

    /// The items of a playlist, in insertion order.
    pub fn get_playlist_items(&self, playlist_id: i64) -> (r: Vec<PlaylistItem>)
        ensures
            r@ == items_of(self.playlist_items@, playlist_id),
    {
        let mut out: Vec<PlaylistItem> = Vec::new();
        let mut k: usize = 0;
        while k < self.playlist_items.len()
            invariant
                k <= self.playlist_items@.len(),
                out@ == items_of(self.playlist_items@.subrange(0, k as int), playlist_id),
            decreases self.playlist_items@.len() - k,
        {
            let ghost pre = self.playlist_items@.subrange(0, k + 1);
            assert(pre.drop_last() =~= self.playlist_items@.subrange(0, k as int));
            reveal(Seq::filter);
            if self.playlist_items[k].playlist_id == playlist_id {
                out.push(self.playlist_items[k].duplicate());
            }
            k += 1;
        }
        assert(self.playlist_items@.subrange(0, self.playlist_items@.len() as int) =~= self.playlist_items@);
        out
    }
}

impl Database {
    /// One item of a playlist picked at random; nothing if it has no items.
    pub fn get_random_playlist_item(&self, playlist_id: i64) -> (r: Option<PlaylistItem>)
        ensures
            r is None <==> items_of(self.playlist_items@, playlist_id).len() == 0,
            r matches Some(x) ==> items_of(self.playlist_items@, playlist_id).contains(x),
    {
        let items = self.get_playlist_items(playlist_id);
        let n = items.len();
        if n == 0 {
            return None;
        }
        let mut positions: Vec<usize> = Vec::new();
        let mut k: usize = 0;
        while k < n
            invariant
                k <= n,
                positions@.len() == k,
                forall|j: int| 0 <= j < k ==> positions@[j] == j,
            decreases n - k,
        {
            positions.push(k);
            k += 1;
        }
        assert(positions@[0] == 0);
        let chosen = choose_index(&positions);
        let item = items[chosen].duplicate();
        assert(items@[chosen as int] == item);
        Some(item)
    }

    /// Records that a video of a playlist was played, at time `now`: `NotFound`
    /// if the playlist does not exist, `StoreUnavailable` when the ids are used up.
    pub fn mark_song_played(
        &mut self,
        playlist_id: i64,
        video_id: &str,
        title: &str,
        url: &str,
        now: u64,
    ) -> (r: Result<(), Error>)
        requires
            old(self).wf(),
        ensures
            final(self).wf(),
            !has_playlist(old(self).playlists@, playlist_id) ==> r == Err::<(), Error>(Error::NotFound),
            has_playlist(old(self).playlists@, playlist_id) && old(self).next_progress_id == i64::MAX ==> r == Err::<(), Error>(Error::StoreUnavailable),
            r is Err ==> *final(self) == *old(self),
            r is Ok <==> has_playlist(old(self).playlists@, playlist_id) && old(self).next_progress_id < i64::MAX,
            r is Ok ==> final(self).progress@.len() == old(self).progress@.len() + 1
                && final(self).progress@.drop_last() == old(self).progress@
                && progress_row(playlist_id, video_id@, title@, url@, final(self).progress@.last(), old(self).next_progress_id, now)
                && *final(self) == (Database { progress: final(self).progress, next_progress_id: (old(self).next_progress_id + 1) as i64, ..*old(self) }),
    {
        if !self.playlist_exists(playlist_id) {
            return Err(Error::NotFound);
        }
        if self.next_progress_id == i64::MAX {
            return Err(Error::StoreUnavailable);
        }
        let row = PlaylistProgress {
            id: Some(self.next_progress_id),
            playlist_id,
            video_id: String::from_str(video_id),
            title: String::from_str(title),
            url: String::from_str(url),
            played_at: Some(now),
        };
        self.progress.push(row);
        self.next_progress_id = self.next_progress_id + 1;
        assert(self.progress@.drop_last() =~= old(self).progress@);
        Ok(())
    }

    /// The video ids played from a playlist, in the order they were marked.
    pub fn get_played_songs(&self, playlist_id: i64) -> (r: Vec<String>)
        ensures
            r@ == played_ids(self.progress@, playlist_id),
    {
        let mut out: Vec<String> = Vec::new();
        let mut k: usize = 0;
        while k < self.progress.len()
            invariant
                k <= self.progress@.len(),
                out@ == played_ids(self.progress@.subrange(0, k as int), playlist_id),
            decreases self.progress@.len() - k,
        {
            let ghost pre = self.progress@.subrange(0, k + 1);
            assert(pre.drop_last() =~= self.progress@.subrange(0, k as int));
            reveal(Seq::filter);
            if self.progress[k].playlist_id == playlist_id {
                out.push(self.progress[k].video_id.clone());
                assert(out@ =~= played_ids(pre, playlist_id));
            } else {
                assert(out@ =~= played_ids(pre, playlist_id));
            }
            k += 1;
        }
        assert(self.progress@.subrange(0, self.progress@.len() as int) =~= self.progress@);
        out
    }

    /// Forgets every video played from a playlist.
    pub fn reset_playlist_progress(&mut self, playlist_id: i64)
        requires
            old(self).wf(),
        ensures
            final(self).wf(),
            final(self).progress@ == progress_without(old(self).progress@, playlist_id),
            *final(self) == (Database { progress: final(self).progress, ..*old(self) }),
    {
        let mut kept: Vec<PlaylistProgress> = Vec::new();
        let mut k: usize = 0;
        while k < self.progress.len()
            invariant
                *self == *old(self),
                self.wf(),
                k <= self.progress@.len(),
                kept@ == progress_without(self.progress@.subrange(0, k as int), playlist_id),
                forall|i: int| 0 <= i < kept@.len() ==> (#[trigger] kept@[i]).id is Some
                    && row_id(kept@[i].id) < self.next_progress_id
                    && has_playlist(self.playlists@, kept@[i].playlist_id),
            decreases self.progress@.len() - k,
        {
            let ghost pre = self.progress@.subrange(0, k + 1);
            assert(pre.drop_last() =~= self.progress@.subrange(0, k as int));
            reveal(Seq::filter);
            if self.progress[k].playlist_id != playlist_id {
                let row = PlaylistProgress {
                    id: self.progress[k].id,
                    playlist_id: self.progress[k].playlist_id,
                    video_id: self.progress[k].video_id.clone(),
                    title: self.progress[k].title.clone(),
                    url: self.progress[k].url.clone(),
                    played_at: self.progress[k].played_at,
                };
                assert(row == self.progress@[k as int]);
                kept.push(row);
            }
            k += 1;
        }
        assert(self.progress@.subrange(0, self.progress@.len() as int) =~= self.progress@);
        self.progress = kept;
    }
}

proof fn lemma_items_split(items: Seq<PlaylistItem>, id: i64)
    ensures
        items_of(items_without(items, id), id).len() == 0,
        items_of(items, id).len() + items_without(items, id).len() == items.len(),
    decreases items.len(),
{
    reveal(Seq::filter);
    if items.len() > 0 {
        lemma_items_split(items.drop_last(), id);
        let w = items_without(items.drop_last(), id);
        if items.last().playlist_id != id {
            assert(w.push(items.last()).drop_last() =~= w);
        }
    }
}

proof fn lemma_progress_split(progress: Seq<PlaylistProgress>, id: i64)
    ensures
        progress_of(progress_without(progress, id), id).len() == 0,
        progress_of(progress, id).len() + progress_without(progress, id).len() == progress.len(),
    decreases progress.len(),
{
    reveal(Seq::filter);
    if progress.len() > 0 {
        lemma_progress_split(progress.drop_last(), id);
        let w = progress_without(progress.drop_last(), id);
        if progress.last().playlist_id != id {
            assert(w.push(progress.last()).drop_last() =~= w);
        }
    }
}

/// Deleting a playlist removes exactly its items and its progress rows: the
/// tables keep all other rows, lose as many rows as the playlist had, and
/// afterwards hold no item and no progress row of it.
pub proof fn lemma_cascade_delete(items: Seq<PlaylistItem>, progress: Seq<PlaylistProgress>, id: i64)
    ensures
        items_of(items_without(items, id), id).len() == 0,
        progress_of(progress_without(progress, id), id).len() == 0,
        items_without(items, id).len() == items.len() - items_of(items, id).len(),
        progress_without(progress, id).len() == progress.len() - progress_of(progress, id).len(),
        played_ids(progress_without(progress, id), id).len() == 0,
{
    lemma_items_split(items, id);
    lemma_progress_split(progress, id);
}

impl Database {
    /// Deletes a playlist with its items and progress rows; true iff it existed.
    pub fn delete_playlist(&mut self, id: i64) -> (r: bool)
        requires
            old(self).wf(),
        ensures
            final(self).wf(),
            r == has_playlist(old(self).playlists@, id),
            !r ==> *final(self) == *old(self),
            r ==> exists|k: int| 0 <= k < old(self).playlists@.len() && old(self).playlists@[k].id == Some(id)
                && final(self).playlists@ == old(self).playlists@.remove(k),
            r ==> final(self).playlist_items@ == items_without(old(self).playlist_items@, id),
            r ==> final(self).progress@ == progress_without(old(self).progress@, id),
            *final(self) == (Database {
                playlists: final(self).playlists,
                playlist_items: final(self).playlist_items,
                progress: final(self).progress,
                ..*old(self)
            }),
    {
        let k = match self.playlist_position(id) {
            Some(k) => k,
            None => {
                return false;
            },
        };
        let ghost pls = self.playlists@;
        let mut items: Vec<PlaylistItem> = Vec::new();
        let mut i: usize = 0;
        while i < self.playlist_items.len()
            invariant
                *self == *old(self),
                self.wf(),
                k < pls.len(),
                pls == self.playlists@,
                pls[k as int].id == Some(id),
                i <= self.playlist_items@.len(),
                items@ == items_without(self.playlist_items@.subrange(0, i as int), id),
                forall|j: int| 0 <= j < items@.len() ==> (#[trigger] items@[j]).id is Some
                    && row_id(items@[j].id) < self.next_item_id
                    && has_playlist(pls.remove(k as int), items@[j].playlist_id),
            decreases self.playlist_items@.len() - i,
        {
            let ghost pre = self.playlist_items@.subrange(0, i + 1);
            assert(pre.drop_last() =~= self.playlist_items@.subrange(0, i as int));
            reveal(Seq::filter);
            if self.playlist_items[i].playlist_id != id {
                let row = self.playlist_items[i].duplicate();
                proof {
                    lemma_has_playlist_after_remove(pls, k as int, id, row.playlist_id);
                }
                items.push(row);
            }
            i += 1;
        }
        let mut progress: Vec<PlaylistProgress> = Vec::new();
        let mut i: usize = 0;
        while i < self.progress.len()
            invariant
                *self == *old(self),
                self.wf(),
                k < pls.len(),
                pls == self.playlists@,
                pls[k as int].id == Some(id),
                i <= self.progress@.len(),
                progress@ == progress_without(self.progress@.subrange(0, i as int), id),
                forall|j: int| 0 <= j < progress@.len() ==> (#[trigger] progress@[j]).id is Some
                    && row_id(progress@[j].id) < self.next_progress_id
                    && has_playlist(pls.remove(k as int), progress@[j].playlist_id),
            decreases self.progress@.len() - i,
        {
            let ghost pre = self.progress@.subrange(0, i + 1);
            assert(pre.drop_last() =~= self.progress@.subrange(0, i as int));
            reveal(Seq::filter);
            if self.progress[i].playlist_id != id {
                let row = PlaylistProgress {
                    id: self.progress[i].id,
                    playlist_id: self.progress[i].playlist_id,
                    video_id: self.progress[i].video_id.clone(),
                    title: self.progress[i].title.clone(),
                    url: self.progress[i].url.clone(),
                    played_at: self.progress[i].played_at,
                };
                assert(row == self.progress@[i as int]);
                proof {
                    lemma_has_playlist_after_remove(pls, k as int, id, row.playlist_id);
                }
                progress.push(row);
            }
            i += 1;
        }
        assert(self.playlist_items@.subrange(0, self.playlist_items@.len() as int) =~= self.playlist_items@);
        assert(self.progress@.subrange(0, self.progress@.len() as int) =~= self.progress@);
        self.playlists.remove(k);
        self.playlist_items = items;
        self.progress = progress;
        proof {
            let r = self.playlists@;
            assert forall|a: int, b: int| 0 <= a < b < r.len() implies row_id(r[a].id) < row_id(r[b].id) by {
                assert(r[a] == pls[if a < k { a } else { a + 1 }]);
                assert(r[b] == pls[if b < k { b } else { b + 1 }]);
            }
            assert forall|a: int| 0 <= a < r.len() implies (#[trigger] r[a]).id is Some && row_id(r[a].id) < self.next_playlist_id by {
                assert(r[a] == pls[if a < k { a } else { a + 1 }]);
            }
        }
        true
    }
}

/// The video ids of the recommendation history, oldest first.
pub open spec fn history_ids(recs: Seq<RecommendedVideo>) -> Seq<Seq<char>> {
    recs.map_values(|r: RecommendedVideo| r.video_id@)
}

/// The history after recording one video id: unchanged if the id is there,
/// else the id is appended and, past the cap, the oldest row is dropped.
pub open spec fn record_step(ids: Seq<Seq<char>>, video_id: Seq<char>) -> Seq<Seq<char>> {
    if ids.contains(video_id) {
        ids
    } else if ids.len() + 1 > RECOMMENDATION_CAP {
        ids.push(video_id).subrange(1, ids.len() + 1 as int)
    } else {
        ids.push(video_id)
    }
}

/// The history after recording several video ids one at a time.
pub open spec fn record_all(ids: Seq<Seq<char>>, video_ids: Seq<Seq<char>>) -> Seq<Seq<char>>
    decreases video_ids.len(),
{
    if video_ids.len() == 0 {
        ids
    } else {
        record_step(record_all(ids, video_ids.drop_last()), video_ids.last())
    }
}

/// A row recorded at time `now` is inside the recency window.
pub open spec fn in_window(row: RecommendedVideo, now: u64) -> bool {
    row.timestamp + RECENT_WINDOW > now
}

/// The video ids of rows inside the recency window, newest first.
pub open spec fn newest_in_window(recs: Seq<RecommendedVideo>, now: u64) -> Seq<String>
    decreases recs.len(),
{
    if recs.len() == 0 {
        Seq::empty()
    } else {
        let rest = newest_in_window(recs.drop_first(), now);
        if in_window(recs[0], now) {
            rest.push(recs[0].video_id)
        } else {
            rest
        }
    }
}

/// What `get_recent_recommendations` hands out: the newest rows inside the
/// window, at most `RECENT_LIMIT` of them.
pub open spec fn recent_ids(recs: Seq<RecommendedVideo>, now: u64) -> Seq<String> {
    let w = newest_in_window(recs, now);
    if w.len() <= RECENT_LIMIT {
        w
    } else {
        w.subrange(0, RECENT_LIMIT as int)
    }
}

proof fn lemma_newest_prefix(recs: Seq<RecommendedVideo>, now: u64, j: int, k: int)
    requires
        0 <= j <= k <= recs.len(),
    ensures
        newest_in_window(recs.subrange(k, recs.len() as int), now).len() <= newest_in_window(
            recs.subrange(j, recs.len() as int),
            now,
        ).len(),
        newest_in_window(recs.subrange(k, recs.len() as int), now) == newest_in_window(
            recs.subrange(j, recs.len() as int),
            now,
        ).subrange(0, newest_in_window(recs.subrange(k, recs.len() as int), now).len() as int),
    decreases k - j,
{
    let n = recs.len() as int;
    if j < k {
        lemma_newest_prefix(recs, now, j + 1, k);
        assert(recs.subrange(j, n).drop_first() =~= recs.subrange(j + 1, n));
        let a = newest_in_window(recs.subrange(k, n), now);
        let b = newest_in_window(recs.subrange(j + 1, n), now);
        let c = newest_in_window(recs.subrange(j, n), now);
        assert(c.subrange(0, a.len() as int) =~= b.subrange(0, a.len() as int));
    } else {
        let a = newest_in_window(recs.subrange(k, n), now);
        assert(a.subrange(0, a.len() as int) =~= a);
    }
}

proof fn lemma_record_all_distinct(ids: Seq<Seq<char>>, video_ids: Seq<Seq<char>>)
    requires
        ids.len() <= RECOMMENDATION_CAP,
        (ids + video_ids).no_duplicates(),
    ensures
        record_all(ids, video_ids) == (if ids.len() + video_ids.len() <= RECOMMENDATION_CAP {
            ids + video_ids
        } else {
            (ids + video_ids).subrange(
                ids.len() + video_ids.len() - RECOMMENDATION_CAP,
                (ids.len() + video_ids.len()) as int,
            )
        }),
    decreases video_ids.len(),
{
    if video_ids.len() > 0 {
        let front = video_ids.drop_last();
        let v = video_ids.last();
        let all = ids + video_ids;
        assert((ids + front) =~= all.drop_last());
        assert((ids + front).no_duplicates()) by {
            assert forall|a: int, b: int| 0 <= a < b < (ids + front).len() implies (ids + front)[a] != (ids + front)[b] by {
                assert((ids + front)[a] == all[a]);
                assert((ids + front)[b] == all[b]);
            }
        }
        lemma_record_all_distinct(ids, front);
        let prev = record_all(ids, front);
        let n = all.len() as int;
        assert(all[n - 1] == v);
        assert(!prev.contains(v)) by {
            if prev.contains(v) {
                let t = choose|t: int| 0 <= t < prev.len() && prev[t] == v;
                let off = if ids.len() + front.len() <= RECOMMENDATION_CAP { 0 } else { ids.len() + front.len() - RECOMMENDATION_CAP };
                assert(prev[t] == all[t + off]);
            }
        }
        if ids.len() + video_ids.len() <= RECOMMENDATION_CAP {
            assert(prev.push(v) =~= all);
        } else {
            let lo = n - RECOMMENDATION_CAP;
            assert(record_step(prev, v) =~= all.subrange(lo, n));
        }
    }
}

/// Recording video ids that are new and distinct one at a time keeps the
/// newest `RECOMMENDATION_CAP` of them: every row survives until the history
/// is full, and then each insertion evicts the oldest row.
pub proof fn lemma_history_cap(video_ids: Seq<Seq<char>>)
    requires
        video_ids.no_duplicates(),
    ensures
        record_all(Seq::empty(), video_ids).len() == if video_ids.len() <= RECOMMENDATION_CAP {
            video_ids.len()
        } else {
            RECOMMENDATION_CAP as nat
        },
        record_all(Seq::empty(), video_ids) == if video_ids.len() <= RECOMMENDATION_CAP {
            video_ids
        } else {
            video_ids.subrange(video_ids.len() - RECOMMENDATION_CAP, video_ids.len() as int)
        },
{
    assert(Seq::<Seq<char>>::empty() + video_ids =~= video_ids);
    lemma_record_all_distinct(Seq::empty(), video_ids);
}

impl Database {
    /// Whether this video id is in the recommendation history.
    pub fn has_recommendation_id(&self, video_id: &String) -> (r: bool)
        ensures
            r == history_ids(self.recommendations@).contains(video_id@),
    {
        let mut k: usize = 0;
        while k < self.recommendations.len()
            invariant
                k <= self.recommendations@.len(),
                forall|j: int| 0 <= j < k ==> self.recommendations@[j].video_id@ != video_id@,
            decreases self.recommendations@.len() - k,
        {
            if self.recommendations[k].video_id == *video_id {
                assert(history_ids(self.recommendations@)[k as int] == video_id@);
                return true;
            }
            k += 1;
        }
        false
    }

    /// Records a recommended video at time `now`. A video already in the history
    /// is left as it is; past `RECOMMENDATION_CAP` rows the oldest is evicted.
    /// `StoreUnavailable` when the ids are used up.
    pub fn store_recommendation(&mut self, video_id: &str, now: u64) -> (r: Result<(), Error>)
        requires
            old(self).wf(),
        ensures
            final(self).wf(),
            r is Err <==> !history_ids(old(self).recommendations@).contains(video_id@)
                && old(self).next_recommendation_id == i64::MAX,
            r is Err ==> r == Err::<(), Error>(Error::StoreUnavailable) && *final(self) == *old(self),
            r is Ok ==> history_ids(final(self).recommendations@) == record_step(history_ids(old(self).recommendations@), video_id@),
            history_ids(old(self).recommendations@).contains(video_id@) ==> *final(self) == *old(self),
            r is Ok && !history_ids(old(self).recommendations@).contains(video_id@) ==> {
                &&& final(self).recommendations@.last().id == Some(old(self).next_recommendation_id)
                &&& final(self).recommendations@.last().timestamp == now
                &&& final(self).recommendations@.drop_last() == if old(self).recommendations@.len() < RECOMMENDATION_CAP {
                    old(self).recommendations@
                } else {
                    old(self).recommendations@.subrange(1, old(self).recommendations@.len() as int)
                }
                &&& *final(self) == (Database {
                    recommendations: final(self).recommendations,
                    next_recommendation_id: (old(self).next_recommendation_id + 1) as i64,
                    ..*old(self)
                })
            },
    {
        let vid = String::from_str(video_id);
        if self.has_recommendation_id(&vid) {
            return Ok(());
        }
        if self.next_recommendation_id == i64::MAX {
            return Err(Error::StoreUnavailable);
        }
        let ghost old_recs = self.recommendations@;
        let row = RecommendedVideo { id: Some(self.next_recommendation_id), video_id: vid, timestamp: now };
        self.recommendations.push(row);
        self.next_recommendation_id = self.next_recommendation_id + 1;
        if self.recommendations.len() > RECOMMENDATION_CAP {
            self.recommendations.remove(0);
        }
        proof {
            let g = old_recs.push(self.recommendations@.last());
            let ids = history_ids(old_recs);
            assert(history_ids(g) =~= ids.push(video_id@));
            if old_recs.len() + 1 > RECOMMENDATION_CAP {
                assert(self.recommendations@ =~= g.subrange(1, g.len() as int));
                assert(history_ids(self.recommendations@) =~= ids.push(video_id@).subrange(1, ids.len() + 1 as int));
                assert(self.recommendations@.drop_last() =~= old_recs.subrange(1, old_recs.len() as int));
            } else {
                assert(self.recommendations@ =~= g);
                assert(self.recommendations@.drop_last() =~= old_recs);
            }
            let r = self.recommendations@;
            assert forall|a: int, b: int| 0 <= a < r.len() && 0 <= b < r.len() && a != b implies r[a].video_id@ != r[b].video_id@ by {
                let off: int = if old_recs.len() + 1 > RECOMMENDATION_CAP { 1 } else { 0 };
                assert(r[a] == g[a + off]);
                assert(r[b] == g[b + off]);
                if a + off == old_recs.len() {
                    assert(history_ids(old_recs)[b + off] == old_recs[b + off].video_id@);
                }
                if b + off == old_recs.len() {
                    assert(history_ids(old_recs)[a + off] == old_recs[a + off].video_id@);
                }
            }
            assert forall|a: int| 0 <= a < r.len() implies (#[trigger] r[a]).id is Some && row_id(r[a].id) < self.next_recommendation_id by {
                let off: int = if old_recs.len() + 1 > RECOMMENDATION_CAP { 1 } else { 0 };
                assert(r[a] == g[a + off]);
            }
        }
        Ok(())
    }

    /// The ids recommended within `RECENT_WINDOW` seconds before `now`, newest
    /// first, at most `RECENT_LIMIT` of them.
    pub fn get_recent_recommendations(&self, now: u64) -> (r: Vec<String>)
        ensures
            r@ == recent_ids(self.recommendations@, now),
    {
        let recs = &self.recommendations;
        let n = recs.len();
        let mut out: Vec<String> = Vec::new();
        let mut k: usize = n;
        while k > 0 && out.len() < RECENT_LIMIT
            invariant
                n == recs@.len(),
                k <= n,
                out@ == newest_in_window(recs@.subrange(k as int, n as int), now),
                out@.len() <= RECENT_LIMIT,
            decreases k,
        {
            k -= 1;
            let row = &recs[k];
            assert(recs@.subrange(k as int, n as int).drop_first() =~= recs@.subrange(k + 1, n as int));
            let ghost sub = recs@.subrange(k as int, n as int);
            assert(sub[0] == recs@[k as int]);
            if now < RECENT_WINDOW || row.timestamp > now - RECENT_WINDOW {
                assert(in_window(sub[0], now));
                out.push(row.video_id.clone());
            } else {
                assert(!in_window(sub[0], now));
            }
            assert(out@ =~= newest_in_window(sub, now));
        }
        proof {
            lemma_newest_prefix(recs@, now, 0, k as int);
            assert(recs@.subrange(0, n as int) =~= recs@);
            let w = newest_in_window(recs@, now);
            if k > 0 {
                assert(out@ =~= w.subrange(0, RECENT_LIMIT as int));
            } else {
                assert(out@ =~= w);
            }
        }
        out
    }
}

/// `row` is what the playlist-import queue stores for a video enqueued at time `now`.
pub open spec fn queue_row(
    row: PlaylistQueueItem,
    title: Seq<char>,
    url: Seq<char>,
    video_id: Seq<char>,
    id: i64,
    now: u64,
) -> bool {
    &&& row.id == Some(id)
    &&& row.title@ == title
    &&& row.url@ == url
    &&& row.video_id@ == video_id
    &&& row.created_at == Some(now)
}

impl Database {
    /// Appends a video to the playlist-import queue at time `now`;
    /// `StoreUnavailable` when the ids are used up.
    pub fn add_to_playlist_queue(&mut self, title: &str, url: &str, video_id: &str, now: u64) -> (r: Result<(), Error>)
        requires
            old(self).wf(),
        ensures
            final(self).wf(),
            r is Ok <==> old(self).next_queue_id < i64::MAX,
            r is Err ==> r == Err::<(), Error>(Error::StoreUnavailable) && *final(self) == *old(self),
            r is Ok ==> final(self).playlist_queue@.len() == old(self).playlist_queue@.len() + 1
                && final(self).playlist_queue@.drop_last() == old(self).playlist_queue@
                && queue_row(final(self).playlist_queue@.last(), title@, url@, video_id@, old(self).next_queue_id, now)
                && *final(self) == (Database { playlist_queue: final(self).playlist_queue, next_queue_id: (old(self).next_queue_id + 1) as i64, ..*old(self) }),
    {
        if self.next_queue_id == i64::MAX {
            return Err(Error::StoreUnavailable);
        }
        let row = PlaylistQueueItem {
            id: Some(self.next_queue_id),
            title: String::from_str(title),
            url: String::from_str(url),
            video_id: String::from_str(video_id),
            created_at: Some(now),
        };
        self.playlist_queue.push(row);
        self.next_queue_id = self.next_queue_id + 1;
        assert(self.playlist_queue@.drop_last() =~= old(self).playlist_queue@);
        Ok(())
    }

    /// The oldest entry of the playlist-import queue, without removing it.
    pub fn get_oldest_playlist_song(&self) -> (r: Option<PlaylistQueueItem>)
        ensures
            r == (if self.playlist_queue@.len() > 0 { Some(self.playlist_queue@[0]) } else { None }),
    {
        if self.playlist_queue.len() > 0 {
            Some(self.playlist_queue[0].duplicate())
        } else {
            None
        }
    }

    /// Removes the playlist-import queue entry with this id; true iff there was one.
    pub fn delete_playlist_song_by_id(&mut self, id: i64) -> (r: bool)
        requires
            old(self).wf(),
        ensures
            final(self).wf(),
            r == exists|k: int| 0 <= k < old(self).playlist_queue@.len() && old(self).playlist_queue@[k].id == Some(id),
            r ==> exists|k: int| 0 <= k < old(self).playlist_queue@.len() && old(self).playlist_queue@[k].id == Some(id)
                && final(self).playlist_queue@ == old(self).playlist_queue@.remove(k),
            !r ==> *final(self) == *old(self),
            *final(self) == (Database { playlist_queue: final(self).playlist_queue, ..*old(self) }),
    {
        let mut k: usize = 0;
        while k < self.playlist_queue.len()
            invariant
                *self == *old(self),
                self.wf(),
                k <= self.playlist_queue@.len(),
                forall|j: int| 0 <= j < k ==> self.playlist_queue@[j].id != Some(id),
            decreases self.playlist_queue@.len() - k,
        {
            if self.playlist_queue[k].id == Some(id) {
                let ghost q = self.playlist_queue@;
                self.playlist_queue.remove(k);
                proof {
                    let r = self.playlist_queue@;
                    assert forall|a: int, b: int| 0 <= a < b < r.len() implies row_id(r[a].id) < row_id(r[b].id) by {
                        assert(r[a] == q[if a < k { a } else { a + 1 }]);
                        assert(r[b] == q[if b < k { b } else { b + 1 }]);
                    }
                    assert forall|a: int| 0 <= a < r.len() implies (#[trigger] r[a]).id is Some && row_id(r[a].id) < self.next_queue_id by {
                        assert(r[a] == q[if a < k { a } else { a + 1 }]);
                    }
                }
                return true;
            }
            k += 1;
        }
        false
    }

    /// The playlist-import queue, oldest first.
    pub fn get_all_playlist_songs(&self) -> (r: Vec<PlaylistQueueItem>)
        ensures
            r@ == self.playlist_queue@,
    {
        let mut out: Vec<PlaylistQueueItem> = Vec::new();
        let mut k: usize = 0;
        while k < self.playlist_queue.len()
            invariant
                k <= self.playlist_queue@.len(),
                out@ == self.playlist_queue@.subrange(0, k as int),
            decreases self.playlist_queue@.len() - k,
        {
            out.push(self.playlist_queue[k].duplicate());
            k += 1;
            assert(out@ =~= self.playlist_queue@.subrange(0, k as int));
        }
        assert(out@ =~= self.playlist_queue@);
        out
    }

    /// Empties the playlist-import queue.
    pub fn clear_playlist_queue(&mut self)
        requires
            old(self).wf(),
        ensures
            final(self).wf(),
            final(self).playlist_queue@.len() == 0,
            *final(self) == (Database { playlist_queue: final(self).playlist_queue, ..*old(self) }),
    {
        self.playlist_queue = Vec::new();
    }
}

} // verus!
