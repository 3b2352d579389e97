//! One fetch pass of a Reddit source: which subreddits it reads, the feed URL
//! of each, how a feed entry becomes a post, and what is sent on for scraping.
use vstd::prelude::*;
use crate::text::{
    chars_of, contains_seq, contains_vec, has_prefix, index_of, lemma_index_of,
    find_char, starts_with_vec, string_of, sub_vec, trim, trim_end_set, trim_end_vec, trim_vec,
    CharSet, is_ws, occurs_at,
};
use crate::urlenc::{form_urlencode, url_encoded, Unreserved};
use crate::reddit::names::string_views;
use crate::reddit::sources::{JsonField, JsonItem, RedditSource};
use crate::llm_json::last_index_of;

verus! {

pub open spec fn r_prefix() -> Seq<char> {
    seq!['r', '/']
}

/// `s` with every leading copy of `p` removed (`str::trim_start_matches`).
pub open spec fn strip_all_prefix(s: Seq<char>, p: Seq<char>) -> Seq<char>
    decreases s.len(),
{
    if p.len() > 0 && has_prefix(s, p) {
        strip_all_prefix(s.subrange(p.len() as int, s.len() as int), p)
    } else {
        s
    }
}

/// `s` split at every `c` (`str::split` with a character).
pub open spec fn split_char(s: Seq<char>, c: char) -> Seq<Seq<char>>
    decreases s.len(),
{
    let k = index_of(s, c, 0);
    proof {
        lemma_index_of(s, c, 0);
    }
    if k >= s.len() {
        seq![s]
    } else {
        seq![s.subrange(0, k)] + split_char(s.subrange(k + 1, s.len() as int), c)
    }
}

/// Subreddits of a JSON array: its strings without leading `r/`, blanks dropped.
pub open spec fn array_subreddits(items: Seq<JsonItem>) -> Seq<Seq<char>>
    decreases items.len(),
{
    if items.len() == 0 {
        Seq::empty()
    } else {
        let rest = array_subreddits(items.drop_last());
        match items.last() {
            JsonItem::Str(s) => {
                let n = strip_all_prefix(s@, r_prefix());
                if n.len() > 0 {
                    rest.push(n)
                } else {
                    rest
                }
            },
            JsonItem::Other => rest,
        }
    }
}

/// Subreddits of comma-separated parts: each trimmed, without leading `r/`, blanks dropped.
pub open spec fn text_subreddits(parts: Seq<Seq<char>>) -> Seq<Seq<char>>
    decreases parts.len(),
{
    if parts.len() == 0 {
        Seq::empty()
    } else {
        let rest = text_subreddits(parts.drop_last());
        let n = strip_all_prefix(trim(parts.last()), r_prefix());
        if n.len() > 0 {
            rest.push(n)
        } else {
            rest
        }
    }
}

/// The subreddits a fetch pass reads from the stored value.
pub open spec fn feed_subreddits_spec(f: JsonField) -> Seq<Seq<char>> {
    match f {
        JsonField::Array(v) => array_subreddits(v@),
        JsonField::Text(s) => text_subreddits(split_char(s@, ',')),
        JsonField::Other => Seq::empty(),
    }
}

fn strip_r(v: &Vec<char>) -> (r: Vec<char>)
    ensures
        r@ == strip_all_prefix(v@, r_prefix()),
{
    let p: Vec<char> = vec!['r', '/'];
    let mut cur = sub_vec(v, 0, v.len());
    assert(cur@ =~= v@);
    while starts_with_vec(&cur, &p)
        invariant
            p@ == r_prefix(),
            strip_all_prefix(cur@, r_prefix()) == strip_all_prefix(v@, r_prefix()),
        decreases cur.len(),
    {
        cur = sub_vec(&cur, 2, cur.len());
    }
    cur
}

/// The subreddits a fetch pass reads.
pub fn feed_subreddits(f: &JsonField) -> (r: Vec<String>)
    ensures
        string_views(r@) == feed_subreddits_spec(*f),
{
    let mut out: Vec<String> = Vec::new();
    match f {
        JsonField::Array(v) => {
            let mut i: usize = 0;
            while i < v.len()
                invariant
                    *f == JsonField::Array(*v),
                    i <= v@.len(),
                    string_views(out@) == array_subreddits(v@.take(i as int)),
                decreases v.len() - i,
            {
                assert(v@.take(i as int + 1).drop_last() =~= v@.take(i as int));
                match &v[i] {
                    JsonItem::Str(s) => {
                        let c = chars_of(s.as_str());
                        let n = strip_r(&c);
                        if n.len() > 0 {
                            let ghost before = out@;
                            out.push(string_of(&n));
                            assert(string_views(out@) =~= string_views(before).push(n@));
                        }
                    },
                    JsonItem::Other => {},
                }
                i = i + 1;
            }
            assert(v@.take(v@.len() as int) =~= v@);
            out
        },
        JsonField::Text(s) => {
            let c = chars_of(s.as_str());
            let mut pos: usize = 0;
            let ghost mut done: Seq<Seq<char>> = Seq::empty();
            let mut last = false;
            assert(c@.subrange(0, c.len() as int) =~= c@);
            assert(done + split_char(c@, ',') =~= split_char(c@, ','));
            while !last
                invariant
                    pos <= c.len(),
                    c@ == s@,
                    *f == JsonField::Text(*s),
                    !last ==> split_char(c@, ',') == done + split_char(
                        c@.subrange(pos as int, c.len() as int),
                        ',',
                    ),
                    last ==> split_char(c@, ',') == done,
                    string_views(out@) == text_subreddits(done),
                decreases (c.len() - pos) as int + if last { 0int } else { 1int },
            {
                let k = find_char(&c, ',', pos);
                proof {
                    crate::text::lemma_index_of_shift(c@, ',', pos as int, 0);
                    lemma_index_of(c@, ',', pos as int);
                }
                let part = sub_vec(&c, pos, k);
                let ghost rest = c@.subrange(pos as int, c.len() as int);
                assert(rest.subrange(0, k - pos) =~= part@);
                let t = trim_vec(&part, CharSet::Whitespace);
                let n = strip_r(&t);
                let ghost nd = done.push(part@);
                assert(nd.drop_last() =~= done);
                if n.len() > 0 {
                    let ghost before = out@;
                    out.push(string_of(&n));
                    assert(string_views(out@) =~= string_views(before).push(n@));
                }
                if k >= c.len() {
                    assert(split_char(rest, ',') =~= seq![part@]);
                    assert(done + seq![part@] =~= nd);
                    last = true;
                } else {
                    assert(rest.subrange(k - pos + 1, rest.len() as int) =~= c@.subrange(
                        k + 1,
                        c.len() as int,
                    ));
                    assert(done + (seq![part@] + split_char(c@.subrange(k + 1, c.len() as int), ','))
                        =~= nd + split_char(c@.subrange(k + 1, c.len() as int), ','));
                    pos = k + 1;
                }
                proof {
                    done = nd;
                }
            }
            out
        },
        JsonField::Other => {
            assert(string_views(out@) =~= Seq::<Seq<char>>::empty());
            out
        },
    }
}

/// The feed a subreddit is read from: its newest posts, or, with a search
/// query, the newest posts matching it (query form-encoded as given).
pub open spec fn feed_url_text(sub: Seq<char>, search_query: Seq<char>) -> Seq<char> {
    if trim(search_query).len() == 0 {
        "https://www.reddit.com/r/"@ + sub + "/.rss"@
    } else {
        "https://www.reddit.com/r/"@ + sub + "/search.rss?q="@ + url_encoded(
            Unreserved::Star,
            vstd::utf8::encode_utf8(search_query),
        ) + "&restrict_sr=1&sort=new"@
    }
}

pub fn feed_url(sub: &str, search_query: &str) -> (r: String)
    ensures
        r@ == feed_url_text(sub@, search_query@),
{
    let blank = crate::intel::preferences::is_blank(search_query);
    let mut u = String::from_str("https://www.reddit.com/r/");
    u.append(sub);
    if blank {
        u.append("/.rss");
    } else {
        let q = form_urlencode(search_query);
        u.append("/search.rss?q=");
        u.append(q.as_str());
        u.append("&restrict_sr=1&sort=new");
    }
    u
}

/// Fresh posts taken per subreddit and pass: the source's maximum, at least one.
pub fn fresh_cap(max_fresh_posts: i64) -> (r: u64)
    ensures
        r as int == fresh_cap_spec(max_fresh_posts),
{
    if max_fresh_posts >= 1 {
        max_fresh_posts as u64
    } else {
        1
    }
}

pub open spec fn fresh_cap_spec(max_fresh_posts: i64) -> int {
    if max_fresh_posts >= 1 {
        max_fresh_posts as int
    } else {
        1
    }
}

/// How far a fetch pass has got through one subreddit feed: how many new
/// posts it may still store, and how many it stored.
#[derive(Debug, Clone, Copy, PartialEq, Eq, Structural)]
pub struct FeedProgress {
    pub cap: u64,
    pub fresh: u64,
}

/// What became of one feed post.
#[derive(Debug, Clone, Copy, PartialEq, Eq, Structural)]
pub enum PostOutcome {
    /// A post with its id was stored before.
    AlreadyStored,
    /// The source's filter rejected it.
    Filtered,
    /// It was stored now.
    Stored,
}

/// The progress at the start of a feed.
pub fn start_feed(max_fresh_posts: i64) -> (p: FeedProgress)
    ensures
        p.cap == fresh_cap_spec(max_fresh_posts),
        p.fresh == 0,
{
    FeedProgress { cap: fresh_cap(max_fresh_posts), fresh: 0 }
}

/// Whether the pass looks at another post of this feed.
pub fn feed_wants_more(p: &FeedProgress) -> (b: bool)
    ensures
        b == (p.fresh < p.cap),
{
    p.fresh < p.cap
}

/// The progress after one post: only a stored post counts.
pub open spec fn feed_after(p: FeedProgress, outcome: PostOutcome) -> FeedProgress {
    if outcome == PostOutcome::Stored {
        FeedProgress { cap: p.cap, fresh: (p.fresh + 1) as u64 }
    } else {
        p
    }
}

pub fn record_post(p: FeedProgress, outcome: PostOutcome) -> (r: FeedProgress)
    requires
        p.fresh < p.cap,
    ensures
        r == feed_after(p, outcome),
{
    match outcome {
        PostOutcome::Stored => FeedProgress { cap: p.cap, fresh: p.fresh + 1 },
        _ => p,
    }
}

/// The progress after the posts of a feed, in order, stopping once the cap is
/// reached (later posts are not looked at).
pub open spec fn feed_run(p: FeedProgress, outcomes: Seq<PostOutcome>) -> FeedProgress
    decreases outcomes.len(),
{
    if outcomes.len() == 0 || p.fresh >= p.cap {
        p
    } else {
        feed_run(feed_after(p, outcomes[0]), outcomes.drop_first())
    }
}

/// A pass never stores more new posts from one feed than the source's
/// `max_fresh_posts`, and at least one is allowed, whatever the feed holds.
pub proof fn lemma_fresh_posts_within_cap(max_fresh_posts: i64, outcomes: Seq<PostOutcome>)
    ensures
        feed_run(FeedProgress { cap: fresh_cap_spec(max_fresh_posts) as u64, fresh: 0 }, outcomes).fresh
            <= fresh_cap_spec(max_fresh_posts),
        fresh_cap_spec(max_fresh_posts) >= 1,
{
    lemma_feed_run_bounded(FeedProgress { cap: fresh_cap_spec(max_fresh_posts) as u64, fresh: 0 }, outcomes);
}

proof fn lemma_feed_run_bounded(p: FeedProgress, outcomes: Seq<PostOutcome>)
    requires
        p.fresh <= p.cap,
    ensures
        feed_run(p, outcomes).fresh <= p.cap,
        feed_run(p, outcomes).cap == p.cap,
    decreases outcomes.len(),
{
    if outcomes.len() > 0 && p.fresh < p.cap {
        lemma_feed_run_bounded(feed_after(p, outcomes[0]), outcomes.drop_first());
    }
}

/// A feed entry, as far as a fetch pass reads it.
#[derive(Debug, Clone)]
pub struct FeedEntry {
    pub id: String,
    /// Title text.
    pub title: Option<String>,
    /// Summary text.
    pub summary: Option<String>,
    /// The content element and its body, when present.
    pub content: Option<Option<String>>,
    /// Target of the first link.
    pub first_link: Option<String>,
    /// Name of the first author.
    pub first_author: Option<String>,
    /// Publication time, Unix seconds.
    pub published: Option<i64>,
}

/// Blank bytes that may stand between an attribute's name and its `=`.
pub open spec fn attr_gap(b: u8) -> bool {
    b == 32 || b == 9 || b == 10 || b == 13
}

/// Bytes that may stand right before an attribute's name.
pub open spec fn attr_lead(b: u8) -> bool {
    attr_gap(b) || b == 34 || b == 39
}

pub open spec fn bytes_at(s: Seq<u8>, i: int, p: Seq<u8>) -> bool {
    0 <= i && i + p.len() <= s.len() && s.subrange(i, i + p.len()) == p
}

/// First index at or after `j` that is not blank (or the length).
pub open spec fn skip_gaps(s: Seq<u8>, j: int) -> int
    decreases s.len() - j,
{
    if 0 <= j < s.len() && attr_gap(s[j]) {
        skip_gaps(s, j + 1)
    } else {
        j
    }
}

pub open spec fn time_name() -> Seq<u8> {
    seq![116u8, 105, 109, 101]
}

pub open spec fn start_name() -> Seq<u8> {
    seq![115u8, 116, 97, 114, 116]
}

pub open spec fn end_name() -> Seq<u8> {
    seq![101u8, 110, 100]
}

/// Whether attribute name `p` followed by `=` may start at `i`.
pub open spec fn named_attr_at(s: Seq<u8>, i: int, p: Seq<u8>) -> bool {
    bytes_at(s, i, p) && skip_gaps(s, i + p.len()) < s.len() && s[skip_gaps(s, i + p.len())] == 61
}

/// Whether a `time`, `start` or `end` attribute may start at `i`.
pub open spec fn timing_attr_at(s: Seq<u8>, i: int) -> bool {
    &&& 0 < i < s.len()
    &&& attr_lead(s[i - 1])
    &&& named_attr_at(s, i, time_name()) || named_attr_at(s, i, start_name()) || named_attr_at(
        s,
        i,
        end_name(),
    )
}

/// Bytes on which the feed parser cannot reach a timing attribute: no NUL
/// byte (which every UTF-16 document holds), no ESC byte (which switches
/// ISO-2022-JP's character sets), and no `time`, `start` or `end` attribute.
pub open spec fn feed_bytes_safe(s: Seq<u8>) -> bool {
    forall|i: int| 0 <= i < s.len() ==> #[trigger] s[i] != 0 && s[i] != 27 && !timing_attr_at(s, i)
}

fn bytes_match(s: &[u8], i: usize, p: &Vec<u8>) -> (b: bool)
    ensures
        b == bytes_at(s@, i as int, p@),
{
    if i > s.len() || p.len() > s.len() - i {
        return false;
    }
    let mut k: usize = 0;
    let n = s.len();
    while k < p.len()
        invariant
            n == s@.len(),
            i + p.len() <= s@.len(),
            k <= p.len(),
            forall|m: int| 0 <= m < k ==> s@[i + m] == p@[m],
        decreases p.len() - k,
    {
        if s[i + k] != p[k] {
            assert(s@.subrange(i as int, i + p.len())[k as int] != p@[k as int]);
            return false;
        }
        k = k + 1;
    }
    assert(s@.subrange(i as int, i + p.len()) =~= p@);
    true
}

fn skip_gaps_from(s: &[u8], j: usize) -> (r: usize)
    requires
        j <= s@.len(),
    ensures
        r == skip_gaps(s@, j as int),
        r <= s@.len(),
    decreases s.len() - j,
{
    if j < s.len() && (s[j] == 32 || s[j] == 9 || s[j] == 10 || s[j] == 13) {
        skip_gaps_from(s, j + 1)
    } else {
        j
    }
}

fn named_attr(s: &[u8], i: usize, p: &Vec<u8>) -> (b: bool)
    ensures
        b == named_attr_at(s@, i as int, p@),
{
    if !bytes_match(s, i, p) {
        return false;
    }
    let n = s.len();
    assert(i + p.len() <= n);
    let j = skip_gaps_from(s, i + p.len());
    j < s.len() && s[j] == 61
}

/// Whether the feed parser can be run on `bytes` (see `feed_bytes_safe`).
pub fn feed_bytes_checked(bytes: &[u8]) -> (b: bool)
    ensures
        b == feed_bytes_safe(bytes@),
{
    let time: Vec<u8> = vec![116u8, 105, 109, 101];
    let start: Vec<u8> = vec![115u8, 116, 97, 114, 116];
    let end: Vec<u8> = vec![101u8, 110, 100];
    assert(time@ =~= time_name() && start@ =~= start_name() && end@ =~= end_name());
    let mut i: usize = 0;
    while i < bytes.len()
        invariant
            i <= bytes@.len(),
            time@ == time_name(),
            start@ == start_name(),
            end@ == end_name(),
            forall|k: int| 0 <= k < i ==> #[trigger] bytes@[k] != 0 && bytes@[k] != 27 && !timing_attr_at(bytes@, k),
        decreases bytes.len() - i,
    {
        let b = bytes[i];
        if b == 0 || b == 27 {
            return false;
        }
        if i > 0 {
            let lead = bytes[i - 1];
            if lead == 32 || lead == 9 || lead == 10 || lead == 13 || lead == 34 || lead == 39 {
                if named_attr(bytes, i, &time) || named_attr(bytes, i, &start) || named_attr(bytes, i, &end) {
                    assert(timing_attr_at(bytes@, i as int));
                    return false;
                }
            }
        }
        assert(!timing_attr_at(bytes@, i as int));
        i = i + 1;
    }
    true
}

/// For the bytes of a feed, the fields of each entry in order that the bytes
/// fix: title, summary, content body, first link, first author, publication
/// time, and the id of an entry that has a link (given in the feed, or made by
/// feed-rs from the first link and the title); `None` when
/// `feed_rs::parser::parse` does not read the bytes as a feed.
pub uninterp spec fn feed_entry_fields(bytes: Seq<u8>) -> Option<Seq<(Option<Seq<char>>, Option<Seq<char>>, Option<Option<Seq<char>>>, Option<Seq<char>>, Option<Seq<char>>, Option<i64>, Option<Seq<char>>)>>;

pub open spec fn opt_view(o: Option<String>) -> Option<Seq<char>> {
    match o {
        Some(s) => Some(s@),
        None => None,
    }
}

/// The fields of an entry that its feed's bytes fix (the id only when the
/// entry has a link).
pub open spec fn entry_fields(e: FeedEntry) -> (Option<Seq<char>>, Option<Seq<char>>, Option<Option<Seq<char>>>, Option<Seq<char>>, Option<Seq<char>>, Option<i64>, Option<Seq<char>>) {
    (
        opt_view(e.title),
        opt_view(e.summary),
        match e.content {
            Some(b) => Some(opt_view(b)),
            None => None,
        },
        opt_view(e.first_link),
        opt_view(e.first_author),
        e.published,
        if e.first_link is Some {
            Some(e.id@)
        } else {
            None
        },
    )
}

pub open spec fn fields_of(es: Seq<FeedEntry>) -> Seq<(Option<Seq<char>>, Option<Seq<char>>, Option<Option<Seq<char>>>, Option<Seq<char>>, Option<Seq<char>>, Option<i64>, Option<Seq<char>>)> {
    es.map_values(|e: FeedEntry| entry_fields(e))
}

pub open spec fn parsed_fields(r: Option<Vec<FeedEntry>>) -> Option<Seq<(Option<Seq<char>>, Option<Seq<char>>, Option<Option<Seq<char>>>, Option<Seq<char>>, Option<Seq<char>>, Option<i64>, Option<Seq<char>>)>> {
    match r {
        Some(v) => Some(fields_of(v@)),
        None => None,
    }
}

/// `feed_rs::parser::parse` on the fetched bytes, each entry reduced to the
/// fields above; `None` when the bytes are not a feed.  Whether the parse
/// succeeds, and every field of every entry but the id of a link-less entry,
/// follow from the bytes alone and are named (`feed_entry_fields`).  The id
/// of an entry without a link is not stated: when the feed gives none,
/// feed-rs makes a random UUID.  feed-rs unwraps the number parse of Media RSS
/// timing attributes (`time`, `start`, `end`), which panics on values such as
/// 20 digits; `requires` admits only bytes where no such attribute can occur.
#[verifier::external_body]
pub(crate) fn parse_feed(bytes: &[u8]) -> (r: Option<Vec<FeedEntry>>)
    requires
        feed_bytes_safe(bytes@),
    ensures
        feed_entry_fields(bytes@) == parsed_fields(r),
{
    feed_rs::parser::parse(bytes).ok().map(|feed| feed.entries.into_iter().map(|e| FeedEntry {
        id: e.id,
        title: e.title.map(|t| t.content),
        summary: e.summary.map(|s| s.content),
        content: e.content.map(|c| c.body),
        first_link: e.links.into_iter().next().map(|l| l.href),
        first_author: e.authors.into_iter().next().map(|a| a.name),
        published: e.published.map(|t| t.timestamp()),
    }).collect())
}

pub open spec fn t3_prefix() -> Seq<char> {
    seq!['t', '3', '_']
}

/// A post id from an entry id: leading `t3_` removed, then the part after the
/// last `/`.
pub open spec fn post_id_text(entry_id: Seq<char>) -> Seq<char> {
    let s = strip_all_prefix(entry_id, t3_prefix());
    s.subrange(last_index_of(s, '/', s.len() as int) + 1, s.len() as int)
}

pub fn post_id_from_entry_id(entry_id: &str) -> (r: String)
    ensures
        r@ == post_id_text(entry_id@),
{
    let p: Vec<char> = vec!['t', '3', '_'];
    let mut cur = chars_of(entry_id);
    while starts_with_vec(&cur, &p)
        invariant
            p@ == t3_prefix(),
            strip_all_prefix(cur@, t3_prefix()) == strip_all_prefix(entry_id@, t3_prefix()),
        decreases cur.len(),
    {
        cur = sub_vec(&cur, 3, cur.len());
    }
    let mut j = cur.len();
    while j > 0 && cur[j - 1] != '/'
        invariant
            j <= cur.len(),
            last_index_of(cur@, '/', j as int) == last_index_of(cur@, '/', cur.len() as int),
        decreases j,
    {
        j = j - 1;
    }
    let tail = sub_vec(&cur, j, cur.len());
    string_of(&tail)
}

/// Text of an optional element (empty when absent).
pub open spec fn opt_text(s: Option<String>) -> Seq<char> {
    match s {
        Some(t) => t@,
        None => Seq::empty(),
    }
}

/// The body of a post: the entry's summary, else its content body, else empty.
pub open spec fn entry_selftext(e: FeedEntry) -> Seq<char> {
    match e.summary {
        Some(s) => s@,
        None => match e.content {
            Some(b) => opt_text(b),
            None => Seq::empty(),
        },
    }
}

/// A post as stored; `created_utc` is Unix seconds (0 when unknown).
#[derive(Debug, Clone)]
pub struct RedditPost {
    pub id: i64,
    pub reddit_runner_id: Option<i64>,
    pub post_id: String,
    pub title: String,
    pub selftext: String,
    pub author: String,
    pub subreddit: String,
    pub permalink: String,
    pub url: String,
    pub created_utc: i64,
    pub score: i64,
    pub num_comments: i64,
    pub is_self: bool,
    pub created_at: Option<i64>,
    pub updated_at: Option<i64>,
}

fn text_of(s: &Option<String>) -> (r: String)
    ensures
        r@ == opt_text(*s),
{
    match s {
        Some(t) => t.clone(),
        None => String::new(),
    }
}

/// Whether `p` is the post stored for feed entry `e` of `sub`, fetched for
/// `source` at `now` (not yet inserted: id 0).
pub open spec fn is_entry_post(p: RedditPost, source: RedditSource, sub: Seq<char>, e: FeedEntry, now: i64) -> bool {
    &&& p.id == 0
    &&& p.reddit_runner_id == source.reddit_runner_id
    &&& p.post_id@ == post_id_text(e.id@)
    &&& p.title@ == opt_text(e.title)
    &&& p.selftext@ == entry_selftext(e)
    &&& p.author@ == opt_text(e.first_author)
    &&& p.subreddit@ == sub
    &&& p.permalink@ == opt_text(e.first_link)
    &&& p.url@ == opt_text(e.first_link)
    &&& p.created_utc == match e.published {
        Some(t) => t,
        None => 0,
    }
    &&& p.score == 0
    &&& p.num_comments == 0
    &&& p.is_self
    &&& p.created_at == Some(now)
    &&& p.updated_at == Some(now)
}

/// The post stored for a feed entry of `sub` fetched for `source` at `now`.
pub fn post_from_entry(source: &RedditSource, sub: &str, e: &FeedEntry, now: i64) -> (p: RedditPost)
    ensures
        is_entry_post(p, *source, sub@, *e, now),
{
    let selftext = match &e.summary {
        Some(s) => s.clone(),
        None => match &e.content {
            Some(b) => text_of(b),
            None => String::new(),
        },
    };
    RedditPost {
        id: 0,
        reddit_runner_id: source.reddit_runner_id,
        post_id: post_id_from_entry_id(e.id.as_str()),
        title: text_of(&e.title),
        selftext,
        author: text_of(&e.first_author),
        subreddit: String::from_str(sub),
        permalink: text_of(&e.first_link),
        url: text_of(&e.first_link),
        created_utc: match e.published {
            Some(t) => t,
            None => 0,
        },
        score: 0,
        num_comments: 0,
        is_self: true,
        created_at: Some(now),
        updated_at: Some(now),
    }
}

/// Whether `ps` are the posts of the entries `es`, one for one and in order.
pub open spec fn posts_of_entries(ps: Seq<RedditPost>, es: Seq<FeedEntry>, source: RedditSource, sub: Seq<char>, now: i64) -> bool {
    &&& ps.len() == es.len()
    &&& forall|i: int| 0 <= i < es.len() ==> is_entry_post(#[trigger] ps[i], source, sub, es[i], now)
}

/// The posts of the feed entries of `sub` for `source` at `now`, one per
/// entry, in order.
pub fn posts_from_entries(source: &RedditSource, sub: &str, entries: &Vec<FeedEntry>, now: i64) -> (r: Vec<RedditPost>)
    ensures
        posts_of_entries(r@, entries@, *source, sub@, now),
{
    let mut out: Vec<RedditPost> = Vec::new();
    let mut i: usize = 0;
    while i < entries.len()
        invariant
            i <= entries@.len(),
            out@.len() == i,
            forall|k: int| 0 <= k < i ==> is_entry_post(#[trigger] out@[k], *source, sub@, entries@[k], now),
        decreases entries.len() - i,
    {
        let p = post_from_entry(source, sub, &entries[i], now);
        out.push(p);
        i = i + 1;
    }
    out
}

/// The posts of a fetched feed of `sub` for `source` at `now`, one per entry
/// in feed order; `None` when the bytes are not a feed, or when they may hold
/// a Media RSS timing attribute (which the feed parser cannot read safely).
pub fn feed_posts(source: &RedditSource, sub: &str, bytes: &[u8], now: i64) -> (r: Option<Vec<RedditPost>>)
    ensures
        !feed_bytes_safe(bytes@) ==> r is None,
        feed_bytes_safe(bytes@) ==> (r is None <==> feed_entry_fields(bytes@) is None),
        r matches Some(ps) ==> exists|es: Seq<FeedEntry>|
            #[trigger] posts_of_entries(ps@, es, *source, sub@, now) && feed_entry_fields(bytes@)
                == Some(fields_of(es)),
{
    if !feed_bytes_checked(bytes) {
        return None;
    }
    let entries = match parse_feed(bytes) {
        Some(v) => v,
        None => return None,
    };
    let out = posts_from_entries(source, sub, &entries, now);
    let ghost es = entries@;
    let r = Some(out);
    assert(r matches Some(ps) && posts_of_entries(ps@, es, *source, sub@, now)
        && feed_entry_fields(bytes@) == Some(fields_of(es)));
    r
}

/// What the content filter sees of a post.
pub fn post_filter_content(title: &str, body: &str) -> (r: String)
    ensures
        r@ == "Title: "@ + title@ + "\n\nBody:\n"@ + body@,
{
    let mut c = String::from_str("Title: ");
    c.append(title);
    c.append("\n\nBody:\n");
    c.append(body);
    c
}

/// A character a URL match runs over: not white space, `<`, `>`, `"` or `'`.
pub open spec fn url_char(c: char) -> bool {
    !is_ws(c) && c != '<' && c != '>' && c != '"' && c != '\''
}

/// End of the run of URL characters starting at `j`.
pub open spec fn url_run_end(s: Seq<char>, j: int) -> int
    decreases s.len() - j,
{
    if 0 <= j < s.len() && url_char(s[j]) {
        url_run_end(s, j + 1)
    } else {
        j
    }
}

pub proof fn lemma_url_run_end(s: Seq<char>, j: int)
    requires
        0 <= j <= s.len(),
    ensures
        j <= url_run_end(s, j) <= s.len(),
    decreases s.len() - j,
{
    if j < s.len() && url_char(s[j]) {
        lemma_url_run_end(s, j + 1);
    }
}

pub open spec fn https_prefix() -> Seq<char> {
    seq!['h', 't', 't', 'p', 's', ':', '/', '/']
}

pub open spec fn http_prefix() -> Seq<char> {
    seq!['h', 't', 't', 'p', ':', '/', '/']
}

/// Where the part after the scheme starts for a match at `i` (the longer
/// `https://` is preferred).
pub open spec fn scheme_end(s: Seq<char>, i: int) -> int {
    if occurs_at(s, https_prefix(), i) {
        i + 8
    } else {
        i + 7
    }
}

/// Whether `https?://[^\s<>"']+` matches at `i`: a scheme followed by at
/// least one URL character.
pub open spec fn url_starts(s: Seq<char>, i: int) -> bool {
    &&& occurs_at(s, https_prefix(), i) || occurs_at(s, http_prefix(), i)
    &&& scheme_end(s, i) < s.len()
    &&& url_char(s[scheme_end(s, i)])
}

/// The matches of `https?://[^\s<>"']+` at or after `i`, leftmost first, each
/// as long as possible, the next search starting where a match ends.
pub open spec fn url_matches_from(s: Seq<char>, i: int) -> Seq<Seq<char>>
    decreases s.len() - i,
{
    if i < 0 || i >= s.len() {
        Seq::empty()
    } else if url_starts(s, i) {
        let e = url_run_end(s, scheme_end(s, i));
        proof {
            lemma_url_run_end(s, scheme_end(s, i));
        }
        seq![s.subrange(i, e)] + url_matches_from(s, e)
    } else {
        url_matches_from(s, i + 1)
    }
}

/// The spans of `text` matching `https?://[^\s<>"']+`, left to right.
pub open spec fn http_url_matches(text: Seq<char>) -> Seq<Seq<char>> {
    url_matches_from(text, 0)
}

/// `regex::Regex::find_iter` with the pattern `https?://[^\s<>"']+` (`\s` is
/// Unicode white space), the matched texts collected in order: leftmost-first
/// matching with a greedy repetition, as `http_url_matches` spells out.
#[verifier::external_body]
fn find_http_urls(text: &str) -> (r: Vec<String>)
    ensures
        string_views(r@) == http_url_matches(text@),
{
    let re = regex::Regex::new(r#"https?://[^\s<>"']+"#).unwrap();
    re.find_iter(text).map(|m| m.as_str().to_string()).collect()
}

/// The URLs in a text, each stripped of trailing `.`, `,` and `)`.
pub open spec fn http_urls_in(text: Seq<char>) -> Seq<Seq<char>> {
    http_url_matches(text).map_values(|m: Seq<char>| trim_end_set(m, CharSet::UrlTail))
}

pub fn extract_http_urls(text: &str) -> (r: Vec<String>)
    ensures
        string_views(r@) == http_urls_in(text@),
{
    let found = find_http_urls(text);
    let mut out: Vec<String> = Vec::new();
    let mut i: usize = 0;
    while i < found.len()
        invariant
            i <= found@.len(),
            string_views(found@) == http_url_matches(text@),
            string_views(out@) == http_url_matches(text@).take(i as int).map_values(
                |m: Seq<char>| trim_end_set(m, CharSet::UrlTail),
            ),
        decreases found.len() - i,
    {
        let v = chars_of(found[i].as_str());
        let t = trim_end_vec(&v, CharSet::UrlTail);
        let ghost before = out@;
        out.push(string_of(&t));
        assert(string_views(found@)[i as int] == found@[i as int]@);
        assert(string_views(out@) =~= string_views(before).push(t@));
        assert(http_url_matches(text@).take(i as int + 1).map_values(
            |m: Seq<char>| trim_end_set(m, CharSet::UrlTail),
        ) =~= http_url_matches(text@).take(i as int).map_values(
            |m: Seq<char>| trim_end_set(m, CharSet::UrlTail),
        ).push(trim_end_set(http_url_matches(text@)[i as int], CharSet::UrlTail)));
        i = i + 1;
    }
    assert(http_url_matches(text@).take(found@.len() as int) =~= http_url_matches(text@));
    out
}

pub open spec fn reddit_host() -> Seq<char> {
    "reddit.com"@
}

/// Whether a post's own link is sent for scraping: an `http` link off Reddit.
pub open spec fn link_scraped(url: Seq<char>) -> bool {
    has_prefix(url, seq!['h', 't', 't', 'p']) && !contains_seq(url, reddit_host())
}

/// What is sent for scraping after a post is stored: nothing unless the
/// source loads websites; then the URLs in the body, then the post's own
/// link when it leads off Reddit.
pub open spec fn scrape_targets_spec(load_websites: bool, selftext: Seq<char>, url: Seq<char>) -> Seq<
    Seq<char>,
> {
    if !load_websites {
        Seq::empty()
    } else if link_scraped(url) {
        http_urls_in(selftext).push(url)
    } else {
        http_urls_in(selftext)
    }
}

pub fn scrape_targets(load_websites: bool, selftext: &str, url: &str) -> (r: Vec<String>)
    ensures
        string_views(r@) == scrape_targets_spec(load_websites, selftext@, url@),
{
    if !load_websites {
        let r: Vec<String> = Vec::new();
        assert(string_views(r@) =~= Seq::<Seq<char>>::empty());
        return r;
    }
    let mut out = extract_http_urls(selftext);
    let u = chars_of(url);
    let http: Vec<char> = vec!['h', 't', 't', 'p'];
    let host = chars_of("reddit.com");
    if starts_with_vec(&u, &http) && !contains_vec(&u, &host) {
        let ghost before = out@;
        out.push(String::from_str(url));
        assert(string_views(out@) =~= string_views(before).push(url@));
    }
    out
}

/// A stored post keeps what its entry says: the author is the entry's first
/// author (empty without one), the title and links are the entry's, the body
/// is its summary or else its content, and the post belongs to the fetched
/// subreddit and the source's runner.
pub proof fn lemma_post_keeps_entry(p: RedditPost, source: RedditSource, sub: Seq<char>, e: FeedEntry, now: i64)
    requires
        is_entry_post(p, source, sub, e, now),
    ensures
        e.first_author matches Some(a) ==> p.author@ == a@,
        e.first_author is None ==> p.author@.len() == 0,
        e.title matches Some(t) ==> p.title@ == t@,
        e.first_link matches Some(l) ==> p.permalink@ == l@ && p.url@ == l@,
        e.summary matches Some(b) ==> p.selftext@ == b@,
        e.summary is None ==> (e.content matches Some(Some(b)) ==> p.selftext@ == b@),
        e.published matches Some(t) ==> p.created_utc == t,
        p.subreddit@ == sub,
        p.reddit_runner_id == source.reddit_runner_id,
{
}

} // verus!
