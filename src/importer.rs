//! The playlist importer: walks the pages of a playlist listing, drops the
//! videos already played and keeps the rest in listing order, up to a safety
//! cap on the number of entries fetched.

use vstd::prelude::*;
use crate::models::{Error, PlaylistEntry, YouTubeSearchResult};
use crate::selector::{contains_id, in_ids};
use crate::text::{make_watch_url, playlist_id_of, value_after_str, watch_url};

verus! {

/// The number of fetched entries after which the importer stops asking for pages.
pub const IMPORT_LIMIT: usize = 1000;

/// The entries of a page whose video has not been played, in page order.
pub open spec fn unplayed(entries: Seq<PlaylistEntry>, played: Seq<String>) -> Seq<PlaylistEntry> {
    entries.filter(|e: PlaylistEntry| !in_ids(played, e.video_id@))
}

/// The entries of several pages, page after page.
pub open spec fn concat_pages(pages: Seq<Seq<PlaylistEntry>>) -> Seq<PlaylistEntry>
    decreases pages.len(),
{
    if pages.len() == 0 {
        Seq::empty()
    } else {
        concat_pages(pages.drop_last()) + pages.last()
    }
}

/// What an import keeps from several pages, page after page.
pub open spec fn import_pages(pages: Seq<Seq<PlaylistEntry>>, played: Seq<String>) -> Seq<PlaylistEntry>
    decreases pages.len(),
{
    if pages.len() == 0 {
        Seq::empty()
    } else {
        import_pages(pages.drop_last(), played) + unplayed(pages.last(), played)
    }
}

/// `res` is the search result for a playlist entry.
pub open spec fn entry_result(res: YouTubeSearchResult, e: PlaylistEntry) -> bool {
    &&& res.title@ == e.title@
    &&& res.url@ == watch_url(e.video_id@)
    &&& res.video_id@ == e.video_id@
}

/// An import in progress: the playlist walked, the entries kept so far, how
/// many entries were fetched, and the cursor of the next page to fetch.
pub struct PlaylistImport {
    pub playlist_id: String,
    pub kept: Vec<PlaylistEntry>,
    pub total_fetched: usize,
    pub next_page_token: Option<String>,
}

impl PlaylistImport {
    /// Starts importing the playlist a link names; `InvalidPlaylistUrl` if the
    /// link has no `list=` parameter.
    pub fn start(playlist_url: &str) -> (r: Result<PlaylistImport, Error>)
        ensures
            r is Err <==> playlist_id_of(playlist_url@) is None,
            r is Err ==> r == Err::<PlaylistImport, Error>(Error::InvalidPlaylistUrl),
            r matches Ok(s) ==> playlist_id_of(playlist_url@) == Some(s.playlist_id@)
                && s.kept@.len() == 0 && s.total_fetched == 0 && s.next_page_token is None,
    {
        match value_after_str(playlist_url, "list=", "&") {
            Some(id) => Ok(PlaylistImport { playlist_id: id, kept: Vec::new(), total_fetched: 0, next_page_token: None }),
            None => Err(Error::InvalidPlaylistUrl),
        }
    }

    /// Takes in one fetched page and the cursor it gave: keeps the entries not
    /// in `played`, and returns whether another page is to be fetched (the
    /// cursor is then in `next_page_token`). The walk ends when no cursor comes
    /// or once `IMPORT_LIMIT` entries have been fetched.
    pub fn add_page(&mut self, entries: &Vec<PlaylistEntry>, next_page_token: Option<String>, played: &Vec<String>) -> (more: bool)
        ensures
            final(self).kept@ == old(self).kept@ + unplayed(entries@, played@),
            final(self).playlist_id == old(self).playlist_id,
            final(self).total_fetched == if old(self).total_fetched + entries@.len() > usize::MAX {
                usize::MAX as int
            } else {
                old(self).total_fetched + entries@.len()
            },
            more == (next_page_token is Some && final(self).total_fetched < IMPORT_LIMIT),
            final(self).next_page_token == if more { next_page_token } else { None },
    {
        let ghost start = self.kept@;
        let mut i: usize = 0;
        while i < entries.len()
            invariant
                i <= entries@.len(),
                self.kept@ == start + unplayed(entries@.subrange(0, i as int), played@),
                self.playlist_id == old(self).playlist_id,
                self.total_fetched == old(self).total_fetched,
            decreases entries@.len() - i,
        {
            let ghost pre = entries@.subrange(0, i + 1);
            assert(pre.drop_last() =~= entries@.subrange(0, i as int));
            reveal(Seq::filter);
            if !contains_id(played, &entries[i].video_id) {
                let e = PlaylistEntry { title: entries[i].title.clone(), video_id: entries[i].video_id.clone() };
                assert(e == entries@[i as int]);
                self.kept.push(e);
                assert(self.kept@ =~= start + unplayed(pre, played@));
            }
            i += 1;
        }
        assert(entries@.subrange(0, entries@.len() as int) =~= entries@);
        if entries.len() > usize::MAX - self.total_fetched {
            self.total_fetched = usize::MAX;
        } else {
            self.total_fetched = self.total_fetched + entries.len();
        }
        let more = next_page_token.is_some() && self.total_fetched < IMPORT_LIMIT;
        if more {
            self.next_page_token = next_page_token;
        } else {
            self.next_page_token = None;
        }
        more
    }

    /// The search results of the entries kept, in order.
    pub fn songs(&self) -> (r: Vec<YouTubeSearchResult>)
        ensures
            r@.len() == self.kept@.len(),
            forall|i: int| 0 <= i < r@.len() ==> entry_result(r@[i], self.kept@[i]),
    {
        let mut out: Vec<YouTubeSearchResult> = Vec::new();
        let mut i: usize = 0;
        while i < self.kept.len()
            invariant
                i <= self.kept@.len(),
                out@.len() == i,
                forall|j: int| 0 <= j < i ==> entry_result(out@[j], self.kept@[j]),
            decreases self.kept@.len() - i,
        {
            let e = &self.kept[i];
            out.push(YouTubeSearchResult { title: e.title.clone(), url: make_watch_url(e.video_id.as_str()), video_id: e.video_id.clone() });
            i += 1;
        }
        out
    }
}

/// Importing a listing page by page keeps exactly what filtering the whole
/// listing at once keeps, in the listing's order: the entries whose video has
/// not been played, and none whose video has.
pub proof fn lemma_import_pages(pages: Seq<Seq<PlaylistEntry>>, played: Seq<String>)
    ensures
        import_pages(pages, played) == unplayed(concat_pages(pages), played),
        forall|i: int| 0 <= i < import_pages(pages, played).len()
            ==> !in_ids(played, (#[trigger] import_pages(pages, played)[i]).video_id@),
    decreases pages.len(),
{
    broadcast use vstd::seq_lib::group_filter_ensures;
    if pages.len() > 0 {
        lemma_import_pages(pages.drop_last(), played);
        Seq::filter_distributes_over_add(
            concat_pages(pages.drop_last()),
            pages.last(),
            |e: PlaylistEntry| !in_ids(played, e.video_id@),
        );
    } else {
        reveal(Seq::filter);
    }
    let all = concat_pages(pages);
    assert forall|i: int| 0 <= i < import_pages(pages, played).len()
        implies !in_ids(played, (#[trigger] import_pages(pages, played)[i]).video_id@) by {
        all.lemma_filter_pred(|e: PlaylistEntry| !in_ids(played, e.video_id@), i);
    }
}

/// The entries whose video has been played.
pub open spec fn played_entries(entries: Seq<PlaylistEntry>, played: Seq<String>) -> Seq<PlaylistEntry> {
    entries.filter(|e: PlaylistEntry| in_ids(played, e.video_id@))
}

/// The video ids of a sequence of entries.
pub open spec fn entry_ids(entries: Seq<PlaylistEntry>) -> Seq<Seq<char>> {
    entries.map_values(|e: PlaylistEntry| e.video_id@)
}

/// The characters of each of a sequence of strings.
pub open spec fn string_views(ids: Seq<String>) -> Seq<Seq<char>> {
    ids.map_values(|s: String| s@)
}

proof fn lemma_played_split(all: Seq<PlaylistEntry>, played: Seq<String>)
    ensures
        unplayed(all, played).len() + played_entries(all, played).len() == all.len(),
        forall|x: Seq<char>| #[trigger] entry_ids(played_entries(all, played)).contains(x)
            ==> entry_ids(all).contains(x) && in_ids(played, x),
        entry_ids(all).no_duplicates() ==> entry_ids(played_entries(all, played)).no_duplicates(),
    decreases all.len(),
{
    reveal(Seq::filter);
    if all.len() > 0 {
        let a = all.drop_last();
        let e = all.last();
        lemma_played_split(a, played);
        let wa = played_entries(a, played);
        assert(entry_ids(a) =~= entry_ids(all).drop_last());
        assert forall|x: Seq<char>| #[trigger] entry_ids(played_entries(all, played)).contains(x)
            implies entry_ids(all).contains(x) && in_ids(played, x) by {
            let w = played_entries(all, played);
            let j = choose|j: int| 0 <= j < entry_ids(w).len() && entry_ids(w)[j] == x;
            if in_ids(played, e.video_id@) && j == w.len() - 1 {
                assert(entry_ids(all)[all.len() - 1] == x);
            } else {
                assert(entry_ids(wa)[j] == x);
                assert(entry_ids(wa).contains(x));
                let i = choose|i: int| 0 <= i < entry_ids(a).len() && entry_ids(a)[i] == x;
                assert(entry_ids(all)[i] == x);
            }
        }
        if entry_ids(all).no_duplicates() && in_ids(played, e.video_id@) {
            assert(entry_ids(a).no_duplicates());
            let w = played_entries(all, played);
            assert(entry_ids(w) =~= entry_ids(wa).push(e.video_id@));
            assert(!entry_ids(wa).contains(e.video_id@)) by {
                if entry_ids(wa).contains(e.video_id@) {
                    let i = choose|i: int| 0 <= i < entry_ids(a).len() && entry_ids(a)[i] == e.video_id@;
                    assert(entry_ids(all)[i] == entry_ids(all)[all.len() - 1]);
                }
            }
            assert forall|p: int, q: int| 0 <= p < q < entry_ids(w).len() implies entry_ids(w)[p] != entry_ids(w)[q] by {
                if q == entry_ids(w).len() - 1 {
                    assert(entry_ids(wa)[p] == entry_ids(w)[p]);
                }
            }
        }
    }
}

/// When the listing's video ids are distinct and every played id occurs in it
/// once, the import keeps all but as many entries as ids were played.
pub proof fn lemma_import_count(all: Seq<PlaylistEntry>, played: Seq<String>)
    requires
        entry_ids(all).no_duplicates(),
        string_views(played).no_duplicates(),
        forall|k: int| 0 <= k < played.len() ==> #[trigger] entry_ids(all).contains(played[k]@),
    ensures
        unplayed(all, played).len() == all.len() - played.len(),
{
    broadcast use vstd::seq_lib::group_filter_ensures;
    lemma_played_split(all, played);
    let w = played_entries(all, played);
    let s1 = entry_ids(w).to_set();
    let s2 = string_views(played).to_set();
    assert forall|x: Seq<char>| s1.contains(x) <==> s2.contains(x) by {
        if s1.contains(x) {
            assert(entry_ids(w).contains(x));
            assert(in_ids(played, x));
            let k = choose|k: int| 0 <= k < played.len() && played[k]@ == x;
            assert(string_views(played)[k] == x);
        }
        if s2.contains(x) {
            let k = choose|k: int| 0 <= k < string_views(played).len() && string_views(played)[k] == x;
            assert(entry_ids(all).contains(played[k]@));
            let i = choose|i: int| 0 <= i < entry_ids(all).len() && entry_ids(all)[i] == x;
            assert(in_ids(played, all[i].video_id@));
            all.lemma_filter_contains(|e: PlaylistEntry| in_ids(played, e.video_id@), i);
            let j = choose|j: int| 0 <= j < w.len() && w[j] == all[i];
            assert(entry_ids(w)[j] == x);
        }
    }
    assert(s1 =~= s2);
    entry_ids(w).unique_seq_to_set();
    string_views(played).unique_seq_to_set();
}

} // verus!
