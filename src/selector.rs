//! The recommendation selector: content filters over a batch of candidate
//! videos, the recency exclusion set, and the choice among what survives.

use vstd::prelude::*;
use crate::models::{Candidate, YouTubeSearchResult};
use crate::text::{
    chars_of, contains_chars, contains_seq, count_tokens, make_watch_url, token_count, watch_url,
};
use rand::seq::SliceRandom;

verus! {

/// What `str::to_lowercase` returns for a string.
pub uninterp spec fn lower_of(s: Seq<char>) -> Seq<char>;

/// What the regex crate decides for a pattern and a haystack: `None` if the
/// pattern does not compile, else whether it matches somewhere in the haystack.
pub uninterp spec fn regex_match(pattern: Seq<char>, haystack: Seq<char>) -> Option<bool>;

/// Relies on `str::to_lowercase`: the lowercase form depends on the characters alone.
#[verifier::external_body]
fn to_lower(s: &str) -> (r: String)
    ensures
        r@ == lower_of(s@),
{
    s.to_lowercase()
}

/// Relies on `regex::Regex::new`, which fails on a pattern that does not
/// compile, and `regex::Regex::is_match`: whether the pattern matches somewhere
/// in the haystack.
#[verifier::external_body]
fn regex_is_match(pattern: &str, haystack: &str) -> (r: Option<bool>)
    ensures
        r == regex_match(pattern@, haystack@),
{
    match regex::Regex::new(pattern) {
        Ok(re) => Some(re.is_match(haystack)),
        Err(_) => None,
    }
}

/// The pattern of a duration in a title: digits, optional whitespace, "min".
pub open spec fn minutes_pattern() -> Seq<char> {
    "\\d+\\s*min"@
}

/// Whether a title matches the duration pattern.
pub open spec fn minutes_marker(title: Seq<char>) -> bool {
    regex_match(minutes_pattern(), title) == Some(true)
}

/// Whether a title matches the duration pattern.
pub fn mentions_minutes(title: &str) -> (r: bool)
    ensures
        r == minutes_marker(title@),
{
    match regex_is_match("\\d+\\s*min", title) {
        Some(found) => found,
        None => false,
    }
}

/// Relies on rand's `SliceRandom::choose` with the thread-local generator: on a
/// non-empty slice it returns one of its elements.
#[verifier::external_body]
pub(crate) fn choose_index(pool: &Vec<usize>) -> (r: usize)
    requires
        pool@.len() > 0,
    ensures
        pool@.contains(r),
{
    *pool.as_slice().choose(&mut rand::thread_rng()).unwrap()
}

/// Keywords that mark compilations and other aggregations.
pub open spec fn compilation_keywords() -> Seq<Seq<char>> {
    seq![
        "compilation"@, "playlist"@, "mix"@, "mashup"@, "megamix"@, "collection"@,
        "best of"@, "top 10"@, "top 20"@, "medley"@, "hits of"@, "greatest hits"@,
        "hour"@, "complete album"@, "songs"@, "tracks"@, "non stop"@, "nonstop"@,
        "back to back"@, "b2b"@, "music collection"@, "jukeboxes"@, "jukebox"@,
        "all songs"@, "audio songs"@, "video songs"@, "chart"@,
    ]
}

/// Keywords of regional content that the selector leaves out.
pub open spec fn regional_keywords() -> Seq<Seq<char>> {
    seq![
        "indian"@, "hindi"@, "bollywood"@, "tamil"@, "telugu"@, "punjabi"@, "bhangra"@,
        "desi"@, "carnatic"@, "bharatanatyam"@,
    ]
}

/// `h` contains one of `keys`.
pub open spec fn mentions_any(h: Seq<char>, keys: Seq<Seq<char>>) -> bool {
    exists|k: int| 0 <= k < keys.len() && contains_seq(h, keys[k])
}

/// The content filters, on the lowercase title, description and channel name and
/// on whether the title matches the minutes pattern.
pub open spec fn content_rejected(
    title: Seq<char>,
    description: Seq<char>,
    channel: Seq<char>,
    minutes: bool,
) -> bool {
    ||| mentions_any(title, compilation_keywords())
    ||| mentions_any(description, compilation_keywords())
    ||| mentions_any(title, regional_keywords())
    ||| mentions_any(description, regional_keywords())
    ||| mentions_any(channel, regional_keywords())
    ||| contains_seq(title, "minute"@)
    ||| contains_seq(title, "hour"@)
    ||| minutes
    ||| (title.len() > 70 && token_count(title) > 10)
}

/// The content filters applied to a candidate.
pub open spec fn is_rejected(c: Candidate) -> bool {
    let t = lower_of(c.title@);
    content_rejected(t, lower_of(c.description@), lower_of(c.channel_title@), minutes_marker(t))
}

/// The content-filter verdict of each candidate.
pub open spec fn rejections(items: Seq<Candidate>) -> Seq<bool> {
    Seq::new(items.len(), |i: int| is_rejected(items[i]))
}

/// `id` is one of `ids`.
pub open spec fn in_ids(ids: Seq<String>, id: Seq<char>) -> bool {
    exists|k: int| 0 <= k < ids.len() && ids[k]@ == id
}

/// Candidate `i` passes the content filters and is not excluded.
pub open spec fn eligible(items: Seq<Candidate>, rejected: Seq<bool>, recent: Seq<String>, i: int) -> bool {
    !rejected[i] && !in_ids(recent, items[i].video_id@)
}

/// The eligible positions among the first `n` candidates, in order.
pub open spec fn eligible_upto(items: Seq<Candidate>, rejected: Seq<bool>, recent: Seq<String>, n: int) -> Seq<usize>
    decreases n,
{
    if n <= 0 {
        Seq::empty()
    } else {
        let p = eligible_upto(items, rejected, recent, n - 1);
        if eligible(items, rejected, recent, n - 1) {
            p.push((n - 1) as usize)
        } else {
            p
        }
    }
}

/// The positions among the first `n` candidates that are not excluded, in order.
pub open spec fn available_upto(items: Seq<Candidate>, recent: Seq<String>, n: int) -> Seq<usize>
    decreases n,
{
    if n <= 0 {
        Seq::empty()
    } else {
        let p = available_upto(items, recent, n - 1);
        if !in_ids(recent, items[n - 1].video_id@) {
            p.push((n - 1) as usize)
        } else {
            p
        }
    }
}

/// The positions the selector picks from: those that pass every filter; failing
/// that, those not excluded; failing that, the first candidate.
pub open spec fn pool_of(items: Seq<Candidate>, rejected: Seq<bool>, recent: Seq<String>) -> Seq<usize> {
    let e = eligible_upto(items, rejected, recent, items.len() as int);
    let a = available_upto(items, recent, items.len() as int);
    if e.len() > 0 {
        e
    } else if a.len() > 0 {
        a
    } else if items.len() > 0 {
        seq![0usize]
    } else {
        Seq::empty()
    }
}

/// `res` is the search result that describes candidate `c`.
pub open spec fn describes(res: YouTubeSearchResult, c: Candidate) -> bool {
    &&& res.title@ == c.title@
    &&& res.url@ == watch_url(c.video_id@)
    &&& res.video_id@ == c.video_id@
}

fn compilation_keyword_list() -> (r: Vec<&'static str>)
    ensures
        r@.len() == compilation_keywords().len(),
        forall|i: int| 0 <= i < r@.len() ==> r@[i]@ == compilation_keywords()[i],
{
    let mut v: Vec<&'static str> = Vec::new();
    v.push("compilation");
    v.push("playlist");
    v.push("mix");
    v.push("mashup");
    v.push("megamix");
    v.push("collection");
    v.push("best of");
    v.push("top 10");
    v.push("top 20");
    v.push("medley");
    v.push("hits of");
    v.push("greatest hits");
    v.push("hour");
    v.push("complete album");
    v.push("songs");
    v.push("tracks");
    v.push("non stop");
    v.push("nonstop");
    v.push("back to back");
    v.push("b2b");
    v.push("music collection");
    v.push("jukeboxes");
    v.push("jukebox");
    v.push("all songs");
    v.push("audio songs");
    v.push("video songs");
    v.push("chart");
    v
}

fn regional_keyword_list() -> (r: Vec<&'static str>)
    ensures
        r@.len() == regional_keywords().len(),
        forall|i: int| 0 <= i < r@.len() ==> r@[i]@ == regional_keywords()[i],
{
    let mut v: Vec<&'static str> = Vec::new();
    v.push("indian");
    v.push("hindi");
    v.push("bollywood");
    v.push("tamil");
    v.push("telugu");
    v.push("punjabi");
    v.push("bhangra");
    v.push("desi");
    v.push("carnatic");
    v.push("bharatanatyam");
    v
}

/// Whether `h` contains one of `keys`.
pub fn mentions_any_of(h: &Vec<char>, keys: &Vec<&str>) -> (r: bool)
    ensures
        r == (exists|k: int| 0 <= k < keys@.len() && contains_seq(h@, keys@[k]@)),
{
    let mut k: usize = 0;
    while k < keys.len()
        invariant
            k <= keys@.len(),
            forall|j: int| 0 <= j < k ==> !contains_seq(h@, keys@[j]@),
        decreases keys@.len() - k,
    {
        let key = chars_of(keys[k]);
        if contains_chars(h, &key) {
            return true;
        }
        k += 1;
    }
    false
}

/// The content filters, on an already lowercase title, description and channel
/// name, and on whether the title matches the minutes pattern.
pub fn rejected_lowered(title: &str, description: &str, channel: &str, minutes: bool) -> (r: bool)
    ensures
        r == content_rejected(title@, description@, channel@, minutes),
{
    let t = chars_of(title);
    let d = chars_of(description);
    let c = chars_of(channel);
    let compilation = compilation_keyword_list();
    let regional = regional_keyword_list();
    let minute = chars_of("minute");
    let hour = chars_of("hour");
    mentions_any_of(&t, &compilation) || mentions_any_of(&d, &compilation) || mentions_any_of(
        &t,
        &regional,
    ) || mentions_any_of(&d, &regional) || mentions_any_of(&c, &regional) || contains_chars(
        &t,
        &minute,
    ) || contains_chars(&t, &hour) || minutes || (t.len() > 70 && count_tokens(&t) > 10)
}

/// Whether a candidate fails the content filters.
pub fn candidate_rejected(c: &Candidate) -> (r: bool)
    ensures
        r == is_rejected(*c),
{
    let title = to_lower(c.title.as_str());
    let description = to_lower(c.description.as_str());
    let channel = to_lower(c.channel_title.as_str());
    let minutes = mentions_minutes(title.as_str());
    rejected_lowered(title.as_str(), description.as_str(), channel.as_str(), minutes)
}

/// Whether `id` is one of `ids`.
pub fn contains_id(ids: &Vec<String>, id: &String) -> (r: bool)
    ensures
        r == in_ids(ids@, id@),
{
    let mut k: usize = 0;
    while k < ids.len()
        invariant
            k <= ids@.len(),
            forall|j: int| 0 <= j < k ==> ids@[j]@ != id@,
        decreases ids@.len() - k,
    {
        if ids[k] == *id {
            return true;
        }
        k += 1;
    }
    false
}

/// The positions the selector picks from, given each candidate's content-filter
/// verdict and the exclusion set.
pub fn candidate_pool(items: &Vec<Candidate>, rejected: &Vec<bool>, recent: &Vec<String>) -> (r: Vec<usize>)
    requires
        rejected@.len() == items@.len(),
    ensures
        r@ == pool_of(items@, rejected@, recent@),
        forall|k: int| 0 <= k < r@.len() ==> r@[k] < items@.len(),
{
    let n = items.len();
    let mut eligible_pos: Vec<usize> = Vec::new();
    let mut available_pos: Vec<usize> = Vec::new();
    let mut i: usize = 0;
    while i < n
        invariant
            n == items@.len(),
            rejected@.len() == n,
            i <= n,
            eligible_pos@ == eligible_upto(items@, rejected@, recent@, i as int),
            available_pos@ == available_upto(items@, recent@, i as int),
            forall|k: int| 0 <= k < eligible_pos@.len() ==> eligible_pos@[k] < i,
            forall|k: int| 0 <= k < available_pos@.len() ==> available_pos@[k] < i,
        decreases n - i,
    {
        let excluded = contains_id(recent, &items[i].video_id);
        if !excluded {
            available_pos.push(i);
            if !rejected[i] {
                eligible_pos.push(i);
            }
        }
        i += 1;
    }
    if eligible_pos.len() > 0 {
        eligible_pos
    } else if available_pos.len() > 0 {
        available_pos
    } else if n > 0 {
        let mut first: Vec<usize> = Vec::new();
        first.push(0);
        first
    } else {
        Vec::new()
    }
}

/// The search result that describes a candidate.
pub fn search_result_of(c: &Candidate) -> (r: YouTubeSearchResult)
    ensures
        describes(r, *c),
{
    YouTubeSearchResult {
        title: c.title.clone(),
        url: make_watch_url(c.video_id.as_str()),
        video_id: c.video_id.clone(),
    }
}

/// Picks a recommendation from a batch of candidates, given the ids recommended
/// recently: at random among the candidates that pass every filter; failing that,
/// among those not recently recommended; failing that, the first candidate.
/// Nothing on an empty batch.
pub fn select_recommendation(items: &Vec<Candidate>, recent: &Vec<String>) -> (r: Option<YouTubeSearchResult>)
    ensures
        r is None <==> items@.len() == 0,
        r matches Some(res) ==> exists|k: int|
            0 <= k < pool_of(items@, rejections(items@), recent@).len() && describes(
                res,
                items@[pool_of(items@, rejections(items@), recent@)[k] as int],
            ),
{
    let mut rejected: Vec<bool> = Vec::new();
    let mut i: usize = 0;
    while i < items.len()
        invariant
            i <= items@.len(),
            rejected@ == rejections(items@).subrange(0, i as int),
        decreases items@.len() - i,
    {
        rejected.push(candidate_rejected(&items[i]));
        i += 1;
        assert(rejected@ =~= rejections(items@).subrange(0, i as int));
    }
    assert(rejected@ =~= rejections(items@));
    let pool = candidate_pool(items, &rejected, recent);
    if pool.len() == 0 {
        return None;
    }
    let chosen = choose_index(&pool);
    let res = search_result_of(&items[chosen]);
    proof {
        let k = choose|k: int| 0 <= k < pool@.len() && pool@[k] == chosen;
        assert(describes(res, items@[pool@[k] as int]));
    }
    Some(res)
}

proof fn lemma_eligible_single(
    items: Seq<Candidate>,
    rejected: Seq<bool>,
    recent: Seq<String>,
    i: int,
    n: int,
)
    requires
        rejected.len() == items.len(),
        0 <= i < items.len(),
        n <= items.len(),
        eligible(items, rejected, recent, i),
        forall|j: int| 0 <= j < items.len() && j != i ==> !eligible(items, rejected, recent, j),
    ensures
        eligible_upto(items, rejected, recent, n) == (if n <= i {
            Seq::<usize>::empty()
        } else {
            seq![i as usize]
        }),
    decreases n,
{
    if n > 0 {
        lemma_eligible_single(items, rejected, recent, i, n - 1);
    }
}

/// When exactly one candidate passes every filter and is not recently
/// recommended, the selector's pool holds that candidate alone, so the pick is
/// deterministic.
pub proof fn lemma_single_survivor(
    items: Seq<Candidate>,
    rejected: Seq<bool>,
    recent: Seq<String>,
    i: int,
)
    requires
        rejected.len() == items.len(),
        0 <= i < items.len(),
        eligible(items, rejected, recent, i),
        forall|j: int| 0 <= j < items.len() && j != i ==> !eligible(items, rejected, recent, j),
    ensures
        pool_of(items, rejected, recent) == seq![i as usize],
{
    lemma_eligible_single(items, rejected, recent, i, items.len() as int);
}

proof fn lemma_all_excluded_upto(items: Seq<Candidate>, rejected: Seq<bool>, recent: Seq<String>, n: int)
    requires
        n <= items.len(),
        forall|j: int| 0 <= j < items.len() ==> in_ids(recent, #[trigger] items[j].video_id@),
    ensures
        eligible_upto(items, rejected, recent, n).len() == 0,
        available_upto(items, recent, n).len() == 0,
    decreases n,
{
    if n > 0 {
        lemma_all_excluded_upto(items, rejected, recent, n - 1);
        assert(in_ids(recent, items[n - 1].video_id@));
    }
}

/// When every candidate of a non-empty batch is in the exclusion set, the
/// selector's pool is the first candidate alone.
pub proof fn lemma_total_exclusion(items: Seq<Candidate>, rejected: Seq<bool>, recent: Seq<String>)
    requires
        items.len() > 0,
        forall|j: int| 0 <= j < items.len() ==> in_ids(recent, #[trigger] items[j].video_id@),
    ensures
        pool_of(items, rejected, recent) == seq![0usize],
{
    lemma_all_excluded_upto(items, rejected, recent, items.len() as int);
}

} // verus!
