//! The queue engine: submitting and removing requests, taking the next song
//! from the direct queue, then the playlist-import queue, then a
//! recommendation, and filling the playlist-import queue from an import.

use vstd::prelude::*;
use crate::models::{
    AddSongRequest, Candidate, DeleteSongRequest, Error, PlaylistQueueItem, SongSource, TakenSong,
    YouTubeSearchResult, YouTubeURL,
};
use crate::selector::{describes, pool_of, rejections, select_recommendation};
use crate::store::{
    add_song_post, has_url, history_ids, queue_row, recent_ids, record_step, row_id,
    song_row, songs_wf, Database,
};
use crate::text::{is_video_link, is_video_link_str, watch_url};

verus! {

/// The song a request asks for: the given link if it is a watch link or a
/// short link (`InvalidUrl` otherwise), else the search result (`YouTubeSearchFailed` if
/// the search found nothing).
pub open spec fn requested_song(request: AddSongRequest, found: Option<YouTubeSearchResult>) -> Result<YouTubeURL, Error> {
    match request.url {
        Some(u) => if is_video_link(u@) {
            Ok(YouTubeURL { id: None, title: request.title, url: u, user: request.user, created_at: None })
        } else {
            Err(Error::InvalidUrl)
        },
        None => match found {
            Some(f) => Ok(YouTubeURL { id: None, title: f.title, url: f.url, user: request.user, created_at: None }),
            None => Err(Error::YouTubeSearchFailed),
        },
    }
}

/// `t` hands out the oldest direct request of `old`, which `new` no longer holds.
pub open spec fn took_direct(old: Database, t: TakenSong, new: Database) -> bool {
    &&& old.songs@.len() > 0
    &&& t.song == old.songs@[0]
    &&& t.source == SongSource::Direct
    &&& new.songs@ == old.songs@.drop_first()
    &&& new == (Database { songs: new.songs, ..old })
}

/// `t` is the song handed out for an entry of the playlist-import queue.
pub open spec fn from_queue(t: TakenSong, q: PlaylistQueueItem) -> bool {
    &&& t.song.id is None
    &&& t.song.title == q.title
    &&& t.song.url == q.url
    &&& t.song.user@ == "Playlist"@
    &&& t.song.created_at is None
    &&& t.source == SongSource::PlaylistImport
}

/// `t` hands out the oldest playlist-import entry of `old`, whose direct queue
/// is empty; `new` no longer holds the entry.
pub open spec fn took_import(old: Database, t: TakenSong, new: Database) -> bool {
    &&& old.songs@.len() == 0
    &&& old.playlist_queue@.len() > 0
    &&& from_queue(t, old.playlist_queue@[0])
    &&& new.playlist_queue@ == old.playlist_queue@.drop_first()
    &&& new == (Database { playlist_queue: new.playlist_queue, ..old })
}

/// `t` is the song handed out for a recommended candidate.
pub open spec fn from_candidate(t: TakenSong, c: Candidate) -> bool {
    &&& t.song.id is None
    &&& t.song.title@ == c.title@
    &&& t.song.url@ == watch_url(c.video_id@)
    &&& t.song.user@ == "Recommended"@
    &&& t.song.created_at is None
    &&& t.source == SongSource::Recommended
}

/// What recording the recommended video `video_id` does to the history of
/// `old`: nothing when the id is new and the ids are used up (the failure is
/// swallowed), else one `record_step`.
pub open spec fn recorded(old: Database, video_id: Seq<char>, new: Database) -> bool {
    if !history_ids(old.recommendations@).contains(video_id) && old.next_recommendation_id == i64::MAX {
        new == old
    } else {
        history_ids(new.recommendations@) == record_step(history_ids(old.recommendations@), video_id)
    }
}

/// `t` recommends one of the candidates the selector picks from, given the
/// history of `old` at time `now`; `new` has recorded it in its history.
pub open spec fn took_recommendation(old: Database, items: Seq<Candidate>, now: u64, t: TakenSong, new: Database) -> bool {
    let pool = pool_of(items, rejections(items), recent_ids(old.recommendations@, now));
    &&& exists|k: int| 0 <= k < pool.len() && from_candidate(t, items[pool[k] as int])
        && recorded(old, items[pool[k] as int].video_id@, new)
    &&& new == (Database { recommendations: new.recommendations, next_recommendation_id: new.next_recommendation_id, ..old })
}

/// What taking the next song from store `old` at time `now`, with the fetched
/// batch `items`, does: the oldest direct request; else the oldest
/// playlist-import entry; else a recommendation from `items`, recorded in the
/// history; nothing (and no change) only when the batch is empty too.
pub open spec fn take_post(old: Database, items: Seq<Candidate>, now: u64, r: Option<TakenSong>, new: Database) -> bool {
    &&& old.songs@.len() > 0 ==> (r matches Some(t) && took_direct(old, t, new))
    &&& old.songs@.len() == 0 && old.playlist_queue@.len() > 0 ==> (r matches Some(t) && took_import(old, t, new))
    &&& old.songs@.len() == 0 && old.playlist_queue@.len() == 0 ==> {
        &&& r is None <==> items.len() == 0
        &&& r is None ==> new == old
        &&& r matches Some(t) ==> took_recommendation(old, items, now, t, new)
    }
}

/// Submits a song request at time `now`: a direct link must name a video
/// (`InvalidUrl`); without a link the search result `found` is queued
/// (`YouTubeSearchFailed` if there is none); a url already queued gives
/// `DuplicateUrl`. Nothing changes on failure.
pub fn add_song(db: &mut Database, request: &AddSongRequest, found: Option<YouTubeSearchResult>, now: u64) -> (r: Result<(), Error>)
    requires
        old(db).wf(),
    ensures
        final(db).wf(),
        requested_song(*request, found) matches Err(e) ==> r == Err::<(), Error>(e) && *final(db) == *old(db),
        requested_song(*request, found) matches Ok(song) ==> add_song_post(*old(db), song, now, r, *final(db)),
{
    let song = match &request.url {
        Some(u) => {
            if !is_video_link_str(u.as_str()) {
                return Err(Error::InvalidUrl);
            }
            YouTubeURL { id: None, title: request.title.clone(), url: u.clone(), user: request.user.clone(), created_at: None }
        },
        None => match found {
            Some(f) => YouTubeURL { id: None, title: f.title, url: f.url, user: request.user.clone(), created_at: None },
            None => {
                return Err(Error::YouTubeSearchFailed);
            },
        },
    };
    db.add_song(&song, now)
}

/// Removes a queued song by url: `NotFound` if no queued song has it.
pub fn delete_song(db: &mut Database, request: &DeleteSongRequest) -> (r: Result<(), Error>)
    requires
        old(db).wf(),
    ensures
        final(db).wf(),
        r is Ok <==> has_url(old(db).songs@, request.url@),
        r is Err ==> r == Err::<(), Error>(Error::NotFound) && *final(db) == *old(db),
        r is Ok ==> exists|k: int| 0 <= k < old(db).songs@.len() && old(db).songs@[k].url@ == request.url@
            && final(db).songs@ == old(db).songs@.remove(k),
        *final(db) == (Database { songs: final(db).songs, ..*old(db) }),
{
    if db.delete_song_by_url(request.url.as_str()) {
        Ok(())
    } else {
        Err(Error::NotFound)
    }
}

/// Takes the next song from the queues: the oldest direct request, else the
/// oldest playlist-import entry (handed out as "Playlist"). Nothing when both
/// queues are empty.
fn take_from_queues(db: &mut Database) -> (r: Option<TakenSong>)
    requires
        old(db).wf(),
    ensures
        final(db).wf(),
        old(db).songs@.len() > 0 ==> (r matches Some(t) && took_direct(*old(db), t, *final(db))),
        old(db).songs@.len() == 0 && old(db).playlist_queue@.len() > 0 ==> (r matches Some(t) && took_import(*old(db), t, *final(db))),
        old(db).songs@.len() == 0 && old(db).playlist_queue@.len() == 0 ==> r is None && *final(db) == *old(db),
{
    match db.get_oldest_song() {
        Some(song) => {
            let id = match song.id {
                Some(v) => v,
                None => 0,
            };
            db.delete_song_by_id(id);
            proof {
                let k = choose|k: int| 0 <= k < old(db).songs@.len() && old(db).songs@[k].id == Some(id)
                    && db.songs@ == old(db).songs@.remove(k);
                if k > 0 {
                    assert(row_id(old(db).songs@[0].id) < row_id(old(db).songs@[k].id));
                }
                assert(old(db).songs@.remove(0) =~= old(db).songs@.drop_first());
            }
            Some(TakenSong { song, source: SongSource::Direct })
        },
        None => match db.get_oldest_playlist_song() {
            Some(item) => {
                let id = match item.id {
                    Some(v) => v,
                    None => 0,
                };
                db.delete_playlist_song_by_id(id);
                proof {
                    let k = choose|k: int| 0 <= k < old(db).playlist_queue@.len() && old(db).playlist_queue@[k].id == Some(id)
                        && db.playlist_queue@ == old(db).playlist_queue@.remove(k);
                    if k > 0 {
                        assert(row_id(old(db).playlist_queue@[0].id) < row_id(old(db).playlist_queue@[k].id));
                    }
                    assert(old(db).playlist_queue@.remove(0) =~= old(db).playlist_queue@.drop_first());
                }
                let song = YouTubeURL {
                    id: None,
                    title: item.title,
                    url: item.url,
                    user: String::from_str("Playlist"),
                    created_at: None,
                };
                Some(TakenSong { song, source: SongSource::PlaylistImport })
            },
            None => None,
        },
    }
}

/// Recommends a song from a fetched batch at time `now`, avoiding recent
/// recommendations, and records it in the history (best-effort: a failure to
/// record does not fail the call). Nothing on an empty batch.
pub fn get_recommendation(db: &mut Database, items: &Vec<Candidate>, now: u64) -> (r: Option<TakenSong>)
    requires
        old(db).wf(),
    ensures
        final(db).wf(),
        r is None <==> items@.len() == 0,
        r is None ==> *final(db) == *old(db),
        r matches Some(t) ==> took_recommendation(*old(db), items@, now, t, *final(db)),
{
    let recent = db.get_recent_recommendations(now);
    match select_recommendation(items, &recent) {
        Some(res) => {
            let ghost pool = pool_of(items@, rejections(items@), recent@);
            let ghost k = choose|k: int| 0 <= k < pool.len() && describes(res, items@[pool[k] as int]);
            let _ = db.store_recommendation(res.video_id.as_str(), now);
            assert(recorded(*old(db), items@[pool[k] as int].video_id@, *db));
            let song = YouTubeURL {
                id: None,
                title: res.title,
                url: res.url,
                user: String::from_str("Recommended"),
                created_at: None,
            };
            let t = TakenSong { song, source: SongSource::Recommended };
            assert(from_candidate(t, items@[pool[k] as int]));
            Some(t)
        },
        None => None,
    }
}

/// Takes the next song at time `now`: the oldest direct request, else the
/// oldest playlist-import entry (handed out as "Playlist"), else a
/// recommendation from the fetched batch `items`, recorded in the history
/// best-effort. Nothing only when both queues and the batch are empty.
pub fn get_oldest_song(db: &mut Database, items: &Vec<Candidate>, now: u64) -> (r: Option<TakenSong>)
    requires
        old(db).wf(),
    ensures
        final(db).wf(),
        take_post(*old(db), items@, now, r, *final(db)),
{
    match take_from_queues(db) {
        Some(t) => Some(t),
        None => get_recommendation(db, items, now),
    }
}

/// Appends imported songs to the playlist-import queue at time `now`, one by
/// one and best-effort: a song that cannot be stored is skipped. Returns how
/// many were stored; they are the first ones, in order.
pub fn add_playlist_songs(db: &mut Database, songs: &Vec<YouTubeSearchResult>, now: u64) -> (r: usize)
    requires
        old(db).wf(),
    ensures
        final(db).wf(),
        r as int == if songs@.len() <= i64::MAX - old(db).next_queue_id { songs@.len() as int } else { i64::MAX - old(db).next_queue_id },
        final(db).playlist_queue@.len() == old(db).playlist_queue@.len() + r,
        final(db).playlist_queue@.subrange(0, old(db).playlist_queue@.len() as int) == old(db).playlist_queue@,
        forall|i: int| 0 <= i < r ==> queue_row(
            #[trigger] final(db).playlist_queue@[old(db).playlist_queue@.len() + i],
            songs@[i].title@,
            songs@[i].url@,
            songs@[i].video_id@,
            (old(db).next_queue_id + i) as i64,
            now,
        ),
        *final(db) == (Database { playlist_queue: final(db).playlist_queue, next_queue_id: final(db).next_queue_id, ..*old(db) }),
{
    let ghost n0 = old(db).playlist_queue@.len();
    let mut added: usize = 0;
    let mut i: usize = 0;
    while i < songs.len()
        invariant
            db.wf(),
            i <= songs@.len(),
            added <= i,
            db.next_queue_id == old(db).next_queue_id + added,
            added < i ==> db.next_queue_id == i64::MAX,
            added as int == if i <= i64::MAX - old(db).next_queue_id { i as int } else { i64::MAX - old(db).next_queue_id },
            db.playlist_queue@.len() == n0 + added,
            db.playlist_queue@.subrange(0, n0 as int) == old(db).playlist_queue@,
            forall|j: int| 0 <= j < added ==> queue_row(
                #[trigger] db.playlist_queue@[n0 + j],
                songs@[j].title@,
                songs@[j].url@,
                songs@[j].video_id@,
                (old(db).next_queue_id + j) as i64,
                now,
            ),
            *db == (Database { playlist_queue: db.playlist_queue, next_queue_id: db.next_queue_id, ..*old(db) }),
        decreases songs@.len() - i,
    {
        let s = &songs[i];
        let ghost before = db.playlist_queue@;
        match db.add_to_playlist_queue(s.title.as_str(), s.url.as_str(), s.video_id.as_str(), now) {
            Ok(()) => {
                proof {
                    assert(db.playlist_queue@.subrange(0, n0 as int) =~= before.subrange(0, n0 as int));
                    assert forall|j: int| 0 <= j < added + 1 implies queue_row(
                        #[trigger] db.playlist_queue@[n0 + j],
                        songs@[j].title@,
                        songs@[j].url@,
                        songs@[j].video_id@,
                        (old(db).next_queue_id + j) as i64,
                        now,
                    ) by {
                        if j < added {
                            assert(db.playlist_queue@[n0 + j] == before[n0 + j]);
                        }
                    }
                }
                added += 1;
            },
            Err(_) => {},
        }
        i += 1;
    }
    added
}

/// Submitting a url that is already queued fails with `DuplicateUrl` and
/// leaves the store as it was, so the url still has exactly one row.
pub proof fn lemma_duplicate_url(
    db: Database,
    first: YouTubeURL,
    now1: u64,
    r1: Result<(), Error>,
    db1: Database,
    second: YouTubeURL,
    now2: u64,
    r2: Result<(), Error>,
    db2: Database,
)
    requires
        db.wf(),
        db1.wf(),
        add_song_post(db, first, now1, r1, db1),
        r1 is Ok,
        add_song_post(db1, second, now2, r2, db2),
        second.url@ == first.url@,
    ensures
        r2 == Err::<(), Error>(Error::DuplicateUrl),
        db2 == db1,
        exists|k: int| 0 <= k < db2.songs@.len() && db2.songs@[k].url@ == first.url@,
        forall|a: int, b: int| 0 <= a < db2.songs@.len() && 0 <= b < db2.songs@.len()
            && db2.songs@[a].url@ == first.url@ && db2.songs@[b].url@ == first.url@ ==> a == b,
{
    let k = db.songs@.len() as int;
    assert(db1.songs@[k] == song_row(first, db.next_song_id, now1));
    assert(has_url(db1.songs@, second.url@));
    assert(songs_wf(db1.songs@, db1.next_song_id));
}

/// The rows that submitting `reqs[0..n]` at times `nows` appends to an empty
/// direct queue whose next id is `first_id`.
pub open spec fn submitted_rows(reqs: Seq<YouTubeURL>, nows: Seq<u64>, first_id: int, n: int) -> Seq<YouTubeURL> {
    Seq::new(n as nat, |k: int| song_row(reqs[k], (first_id + k) as i64, nows[k]))
}

proof fn lemma_fifo_submits(
    reqs: Seq<YouTubeURL>,
    nows: Seq<u64>,
    rs: Seq<Result<(), Error>>,
    states: Seq<Database>,
    i: int,
)
    requires
        nows.len() == reqs.len(),
        rs.len() == reqs.len(),
        states.len() > reqs.len(),
        0 <= i <= reqs.len(),
        states[0].songs@.len() == 0,
        states[0].next_song_id + reqs.len() < i64::MAX,
        forall|a: int, b: int| 0 <= a < reqs.len() && 0 <= b < reqs.len() && a != b ==> reqs[a].url@ != reqs[b].url@,
        forall|k: int| 0 <= k < reqs.len() ==> #[trigger] add_song_post(states[k], reqs[k], nows[k], rs[k], states[k + 1]),
    ensures
        states[i].songs@ == submitted_rows(reqs, nows, states[0].next_song_id as int, i),
        states[i].next_song_id == states[0].next_song_id + i,
        forall|k: int| 0 <= k < i ==> rs[k] is Ok,
    decreases i,
{
    let id0 = states[0].next_song_id as int;
    if i == 0 {
        assert(states[0].songs@ =~= submitted_rows(reqs, nows, id0, 0));
    } else {
        lemma_fifo_submits(reqs, nows, rs, states, i - 1);
        let prev = states[i - 1];
        let k = i - 1;
        assert(add_song_post(states[k], reqs[k], nows[k], rs[k], states[k + 1]));
        assert(!has_url(prev.songs@, reqs[i - 1].url@)) by {
            if has_url(prev.songs@, reqs[i - 1].url@) {
                let t = choose|t: int| 0 <= t < prev.songs@.len() && prev.songs@[t].url@ == reqs[i - 1].url@;
                assert(prev.songs@[t] == song_row(reqs[t], (id0 + t) as i64, nows[t]));
            }
        }
        assert(states[i].songs@ =~= submitted_rows(reqs, nows, id0, i));
    }
}

proof fn lemma_fifo_takes(
    rows: Seq<YouTubeURL>,
    batches: Seq<Seq<Candidate>>,
    take_nows: Seq<u64>,
    taken: Seq<Option<TakenSong>>,
    states: Seq<Database>,
    n: int,
    j: int,
)
    requires
        n == rows.len(),
        batches.len() == n,
        take_nows.len() == n,
        taken.len() == n,
        states.len() == 2 * n + 1,
        0 <= j <= n,
        states[n].songs@ == rows,
        forall|k: int| 0 <= k < n ==> #[trigger] take_post(states[n + k], batches[k], take_nows[k], taken[k], states[n + k + 1]),
    ensures
        states[n + j].songs@ == rows.subrange(j, n),
        forall|k: int| 0 <= k < j ==> (#[trigger] taken[k] matches Some(t) && t.song == rows[k] && t.source == SongSource::Direct),
    decreases j,
{
    if j == 0 {
        assert(rows.subrange(0, n) =~= rows);
    } else {
        lemma_fifo_takes(rows, batches, take_nows, taken, states, n, j - 1);
        let k = j - 1;
        assert(take_post(states[n + k], batches[k], take_nows[k], taken[k], states[n + k + 1]));
        assert(rows.subrange(j - 1, n).drop_first() =~= rows.subrange(j, n));
    }
}

/// Direct requests are played in submission order: submitting `reqs`, whose
/// urls are distinct, one call after another to a store with an empty direct
/// queue succeeds every time, and the next `reqs.len()` calls that take a song
/// hand out their rows in the order submitted, tagged direct, leaving the
/// direct queue empty.
pub proof fn lemma_fifo_calls(
    reqs: Seq<YouTubeURL>,
    nows: Seq<u64>,
    rs: Seq<Result<(), Error>>,
    batches: Seq<Seq<Candidate>>,
    take_nows: Seq<u64>,
    taken: Seq<Option<TakenSong>>,
    states: Seq<Database>,
)
    requires
        nows.len() == reqs.len(),
        rs.len() == reqs.len(),
        batches.len() == reqs.len(),
        take_nows.len() == reqs.len(),
        taken.len() == reqs.len(),
        states.len() == 2 * reqs.len() + 1,
        states[0].songs@.len() == 0,
        states[0].next_song_id + reqs.len() < i64::MAX,
        forall|a: int, b: int| 0 <= a < reqs.len() && 0 <= b < reqs.len() && a != b ==> reqs[a].url@ != reqs[b].url@,
        forall|k: int| 0 <= k < reqs.len() ==> #[trigger] add_song_post(states[k], reqs[k], nows[k], rs[k], states[k + 1]),
        forall|k: int| 0 <= k < reqs.len() ==> #[trigger] take_post(
            states[reqs.len() + k],
            batches[k],
            take_nows[k],
            taken[k],
            states[reqs.len() + k + 1],
        ),
    ensures
        forall|k: int| 0 <= k < reqs.len() ==> rs[k] is Ok,
        forall|k: int| 0 <= k < reqs.len() ==> (#[trigger] taken[k] matches Some(t)
            && t.song == song_row(reqs[k], (states[0].next_song_id + k) as i64, nows[k])
            && t.source == SongSource::Direct),
        states[2 * reqs.len() as int].songs@.len() == 0,
{
    let n = reqs.len() as int;
    let rows = submitted_rows(reqs, nows, states[0].next_song_id as int, n);
    lemma_fifo_submits(reqs, nows, rs, states, n);
    lemma_fifo_takes(rows, batches, take_nows, taken, states, n, n);
}

} // verus!
