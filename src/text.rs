//! Character-level text operations: substring search, whitespace tokens and
//! the parsing of video and playlist links.

use vstd::prelude::*;
use vstd::string::*;

verus! {

/// `p` occurs in `h` starting at position `i`.
pub open spec fn occurs_at(h: Seq<char>, p: Seq<char>, i: int) -> bool {
    0 <= i && i + p.len() <= h.len() && h.subrange(i, i + p.len()) == p
}

/// `p` is a substring of `h`.
pub open spec fn contains_seq(h: Seq<char>, p: Seq<char>) -> bool {
    exists|i: int| occurs_at(h, p, i)
}

/// `i` is the first position at which `p` occurs in `h`.
pub open spec fn first_occurrence(h: Seq<char>, p: Seq<char>, i: int) -> bool {
    occurs_at(h, p, i) && forall|k: int| 0 <= k < i ==> !occurs_at(h, p, k)
}

/// The first position of `p` in `h` (meaningful where `p` occurs).
pub open spec fn first_index(h: Seq<char>, p: Seq<char>) -> int {
    choose|i: int| first_occurrence(h, p, i)
}

/// What precedes the first occurrence of `p` in `h`; all of `h` where `p` does not occur.
pub open spec fn before(h: Seq<char>, p: Seq<char>) -> Seq<char> {
    if contains_seq(h, p) {
        h.subrange(0, first_index(h, p))
    } else {
        h
    }
}

/// What follows the first occurrence of `p` in `h` (meaningful where `p` occurs).
pub open spec fn after(h: Seq<char>, p: Seq<char>) -> Seq<char> {
    h.subrange(first_index(h, p) + p.len(), h.len() as int)
}

/// The value that follows `key` in a link: the text after the first `key`, up to
/// the next `key`, then up to the first `stop`.
pub open spec fn value_after(h: Seq<char>, key: Seq<char>, stop: Seq<char>) -> Option<Seq<char>> {
    if contains_seq(h, key) {
        Some(before(before(after(h, key), key), stop))
    } else {
        None
    }
}

/// Unicode's White_Space property.
pub open spec fn is_white_space(c: char) -> bool {
    let u = c as u32;
    (0x9 <= u && u <= 0xd) || u == 0x20 || u == 0x85 || u == 0xa0 || u == 0x1680 || (0x2000 <= u
        && u <= 0x200a) || u == 0x2028 || u == 0x2029 || u == 0x202f || u == 0x205f || u == 0x3000
}

/// A whitespace-delimited token begins at position `i`.
pub open spec fn starts_token(s: Seq<char>, i: int) -> bool {
    !is_white_space(s[i]) && (i == 0 || is_white_space(s[i - 1]))
}

/// The number of whitespace-delimited tokens of `s`.
pub open spec fn token_count(s: Seq<char>) -> nat
    decreases s.len(),
{
    if s.len() == 0 {
        0
    } else {
        token_count(s.drop_last()) + if starts_token(s, s.len() - 1) {
            1nat
        } else {
            0nat
        }
    }
}

/// The characters of a string, in order.
pub fn chars_of(s: &str) -> (r: Vec<char>)
    ensures
        r@ == s@,
{
    let n = s.unicode_len();
    let mut v: Vec<char> = Vec::new();
    let mut i: usize = 0;
    while i < n
        invariant
            n == s@.len(),
            i <= n,
            v@ == s@.subrange(0, i as int),
        decreases n - i,
    {
        v.push(s.get_char(i));
        i += 1;
        assert(v@ =~= s@.subrange(0, i as int));
    }
    assert(v@ =~= s@);
    v
}

/// The first position at or after which `p` occurs in `h`, if any.
pub fn find_chars(h: &Vec<char>, p: &Vec<char>) -> (r: Option<usize>)
    ensures
        match r {
            Some(i) => first_occurrence(h@, p@, i as int),
            None => !contains_seq(h@, p@),
        },
{
    if p.len() > h.len() {
        assert forall|k: int| !occurs_at(h@, p@, k) by {}
        return None;
    }
    let hl = h.len();
    let last = hl - p.len();
    let mut i: usize = 0;
    while i <= last
        invariant
            hl == h@.len(),
            last == h@.len() - p@.len(),
            p@.len() <= h@.len(),
            forall|k: int| 0 <= k < i ==> !occurs_at(h@, p@, k),
        decreases last + 1 - i,
    {
        let mut j: usize = 0;
        while j < p.len() && h[i + j] == p[j]
            invariant
                i <= last,
                last == h@.len() - p@.len(),
                p@.len() <= h@.len(),
                h@.len() <= usize::MAX,
                j <= p@.len(),
                forall|k: int| 0 <= k < j ==> h@[i + k] == p@[k],
            decreases p@.len() - j,
        {
            j += 1;
        }
        if j == p.len() {
            assert(h@.subrange(i as int, i + p@.len()) =~= p@);
            return Some(i);
        }
        assert(!occurs_at(h@, p@, i as int)) by {
            if occurs_at(h@, p@, i as int) {
                assert(h@.subrange(i as int, i + p@.len())[j as int] == p@[j as int]);
            }
        }
        if i == last {
            assert forall|k: int| !occurs_at(h@, p@, k) by {}
            return None;
        }
        i += 1;
    }
    assert forall|k: int| !occurs_at(h@, p@, k) by {}
    None
}

/// Whether `p` is a substring of `h`.
pub fn contains_chars(h: &Vec<char>, p: &Vec<char>) -> (r: bool)
    ensures
        r == contains_seq(h@, p@),
{
    match find_chars(h, p) {
        Some(_) => true,
        None => false,
    }
}

/// Whether `c` is a whitespace character.
pub fn is_white_space_char(c: char) -> (r: bool)
    ensures
        r == is_white_space(c),
{
    let u = c as u32;
    (0x9 <= u && u <= 0xd) || u == 0x20 || u == 0x85 || u == 0xa0 || u == 0x1680 || (0x2000 <= u
        && u <= 0x200a) || u == 0x2028 || u == 0x2029 || u == 0x202f || u == 0x205f || u == 0x3000
}

/// The number of whitespace-delimited tokens of `s`.
pub fn count_tokens(s: &Vec<char>) -> (r: usize)
    ensures
        r == token_count(s@),
{
    let mut count: usize = 0;
    let mut i: usize = 0;
    while i < s.len()
        invariant
            i <= s@.len(),
            count == token_count(s@.subrange(0, i as int)),
            count <= i,
        decreases s@.len() - i,
    {
        let starts = !is_white_space_char(s[i]) && (i == 0 || is_white_space_char(s[i - 1]));
        let ghost pre = s@.subrange(0, i + 1);
        assert(pre.drop_last() =~= s@.subrange(0, i as int));
        assert(starts == starts_token(pre, i as int));
        if starts {
            count += 1;
        }
        i += 1;
    }
    assert(s@.subrange(0, s@.len() as int) =~= s@);
    count
}

/// The first occurrence is the one that `first_index` names.
proof fn lemma_first_index(h: Seq<char>, p: Seq<char>, i: int)
    requires
        first_occurrence(h, p, i),
    ensures
        first_index(h, p) == i,
        contains_seq(h, p),
{
    let j = first_index(h, p);
    assert(first_occurrence(h, p, j));
    if j < i {
        assert(!occurs_at(h, p, j));
    }
    if i < j {
        assert(!occurs_at(h, p, i));
    }
}

/// What precedes the first occurrence of `p` in `s`, or all of `s`.
pub fn before_str<'a>(s: &'a str, p: &str) -> (r: &'a str)
    ensures
        r@ == before(s@, p@),
{
    let hv = chars_of(s);
    let pv = chars_of(p);
    match find_chars(&hv, &pv) {
        Some(i) => {
            proof {
                lemma_first_index(s@, p@, i as int);
            }
            s.substring_char(0, i)
        },
        None => s,
    }
}

/// What follows the first occurrence of `p` in `s`, where `p` occurs.
pub fn after_str<'a>(s: &'a str, p: &str) -> (r: Option<&'a str>)
    ensures
        r.is_some() == contains_seq(s@, p@),
        r matches Some(t) ==> t@ == after(s@, p@),
{
    let hv = chars_of(s);
    let pv = chars_of(p);
    match find_chars(&hv, &pv) {
        Some(i) => {
            proof {
                lemma_first_index(s@, p@, i as int);
            }
            let n = hv.len();
            assert(i + pv@.len() <= n);
            Some(s.substring_char(i + pv.len(), n))
        },
        None => None,
    }
}

/// The value that follows `key` in `s`, up to the next `key` and then up to `stop`.
pub fn value_after_str(s: &str, key: &str, stop: &str) -> (r: Option<String>)
    ensures
        r matches Some(v) ==> value_after(s@, key@, stop@) == Some(v@),
        r is None ==> value_after(s@, key@, stop@) is None,
{
    match after_str(s, key) {
        Some(rest) => {
            let segment = before_str(rest, key);
            let value = before_str(segment, stop);
            Some(String::from_str(value))
        },
        None => None,
    }
}

/// The playlist identifier of a playlist link: the value of its `list=` parameter.
pub open spec fn playlist_id_of(url: Seq<char>) -> Option<Seq<char>> {
    value_after(url, "list="@, "&"@)
}

/// The video identifier of a watch link (`v=`) or of a short link (`youtu.be/`).
pub open spec fn video_id_of(url: Seq<char>) -> Option<Seq<char>> {
    if contains_seq(url, "v="@) {
        value_after(url, "v="@, "&"@)
    } else {
        value_after(url, "youtu.be/"@, "?"@)
    }
}

/// `s` begins with `p`.
pub open spec fn has_prefix(s: Seq<char>, p: Seq<char>) -> bool {
    p.len() <= s.len() && s.subrange(0, p.len() as int) == p
}

/// `s` without the prefix `p` where it begins with it; `s` otherwise.
pub open spec fn strip_prefix(s: Seq<char>, p: Seq<char>) -> Seq<char> {
    if has_prefix(s, p) {
        s.subrange(p.len() as int, s.len() as int)
    } else {
        s
    }
}

/// A link without its `https://` or `http://` scheme.
pub open spec fn without_scheme(url: Seq<char>) -> Seq<char> {
    if has_prefix(url, "https://"@) {
        strip_prefix(url, "https://"@)
    } else {
        strip_prefix(url, "http://"@)
    }
}

/// A host name without its `www.` or `m.` label.
pub open spec fn without_subdomain(host: Seq<char>) -> Seq<char> {
    if has_prefix(host, "www."@) {
        strip_prefix(host, "www."@)
    } else {
        strip_prefix(host, "m."@)
    }
}

/// The video id of a watch page's query string: the value of its `v`
/// parameter, up to the next `&`; empty if it has none.
pub open spec fn watch_id(query: Seq<char>) -> Seq<char> {
    if has_prefix(query, "v="@) {
        before(strip_prefix(query, "v="@), "&"@)
    } else if contains_seq(query, "&v="@) {
        before(after(query, "&v="@), "&"@)
    } else {
        Seq::empty()
    }
}

/// A watch link: `[scheme][www.|m.]youtube.com/watch?` followed by a query
/// whose `v` parameter is not empty.
pub open spec fn is_watch_link(url: Seq<char>) -> bool {
    let rest = without_subdomain(without_scheme(url));
    has_prefix(rest, "youtube.com/watch?"@) && watch_id(strip_prefix(rest, "youtube.com/watch?"@)).len() > 0
}

/// A short link: `[scheme]youtu.be/` followed by a non-empty id (up to `?`).
pub open spec fn is_short_link(url: Seq<char>) -> bool {
    let rest = without_scheme(url);
    has_prefix(rest, "youtu.be/"@) && before(strip_prefix(rest, "youtu.be/"@), "?"@).len() > 0
}

/// A link that names a video: a watch link or a short link.
pub open spec fn is_video_link(url: Seq<char>) -> bool {
    is_watch_link(url) || is_short_link(url)
}

/// Whether `s` begins with `p`.
pub fn has_prefix_str(s: &str, p: &str) -> (r: bool)
    ensures
        r == has_prefix(s@, p@),
{
    let sv = chars_of(s);
    let pv = chars_of(p);
    if pv.len() > sv.len() {
        return false;
    }
    let mut i: usize = 0;
    while i < pv.len()
        invariant
            sv@ == s@,
            pv@ == p@,
            pv@.len() <= sv@.len(),
            i <= pv@.len(),
            forall|k: int| 0 <= k < i ==> sv@[k] == pv@[k],
        decreases pv@.len() - i,
    {
        if sv[i] != pv[i] {
            assert(sv@.subrange(0, pv@.len() as int)[i as int] != pv@[i as int]);
            return false;
        }
        i += 1;
    }
    assert(sv@.subrange(0, pv@.len() as int) =~= pv@);
    true
}

/// `s` without the prefix `p` where it begins with it; `s` otherwise.
pub fn strip_prefix_str<'a>(s: &'a str, p: &str) -> (r: &'a str)
    ensures
        r@ == strip_prefix(s@, p@),
{
    if has_prefix_str(s, p) {
        let n = s.unicode_len();
        let k = p.unicode_len();
        s.substring_char(k, n)
    } else {
        s
    }
}

/// Whether a link names a video: a watch link or a short link.
pub fn is_video_link_str(url: &str) -> (r: bool)
    ensures
        r == is_video_link(url@),
{
    let no_scheme = if has_prefix_str(url, "https://") {
        strip_prefix_str(url, "https://")
    } else {
        strip_prefix_str(url, "http://")
    };
    let host = if has_prefix_str(no_scheme, "www.") {
        strip_prefix_str(no_scheme, "www.")
    } else {
        strip_prefix_str(no_scheme, "m.")
    };
    let watch = if has_prefix_str(host, "youtube.com/watch?") {
        let query = strip_prefix_str(host, "youtube.com/watch?");
        if has_prefix_str(query, "v=") {
            before_str(strip_prefix_str(query, "v="), "&").unicode_len() > 0
        } else {
            match after_str(query, "&v=") {
                Some(rest) => before_str(rest, "&").unicode_len() > 0,
                None => false,
            }
        }
    } else {
        false
    };
    let short = if has_prefix_str(no_scheme, "youtu.be/") {
        before_str(strip_prefix_str(no_scheme, "youtu.be/"), "?").unicode_len() > 0
    } else {
        false
    };
    watch || short
}

/// The watch link of a video.
pub open spec fn watch_url(video_id: Seq<char>) -> Seq<char> {
    "https://www.youtube.com/watch?v="@ + video_id
}

/// The watch link of a video.
pub fn make_watch_url(video_id: &str) -> (r: String)
    ensures
        r@ == watch_url(video_id@),
{
    let base = String::from_str("https://www.youtube.com/watch?v=");
    base.concat(video_id)
}

} // verus!
