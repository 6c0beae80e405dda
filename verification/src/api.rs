use vstd::prelude::*;

use crate::markup::seq_eq;
use crate::text::{
    trim_end, trim_start, ascii_lower, ascii_lower_chars, chars_of, decimal, push_decimal, push_str, string_of, trim,
    trim_str,
};

verus! {

// ---------------------------------------------------------------------------
// Stories and comments
// ---------------------------------------------------------------------------

#[derive(Debug, Clone)]
pub struct Story {
    pub short_id: String,
    pub title: String,
    pub url: String,
    pub score: i32,
    pub comment_count: i32,
    pub tags: Vec<String>,
    pub submitter_user: String,
    pub comments_url: String,
}

#[derive(Debug, Clone)]
pub struct Comment {
    pub short_id: String,
    pub comment_plain: String,
    pub score: i32,
    pub depth: usize,
    pub commenting_user: String,
    pub is_deleted: bool,
}

#[derive(Debug, Clone)]
pub struct StoryDetail {
    pub title: String,
    pub url: String,
    pub comments: Vec<Comment>,
}

/// A story with its text fields seen as character sequences.
pub ghost struct StoryView {
    pub short_id: Seq<char>,
    pub title: Seq<char>,
    pub url: Seq<char>,
    pub score: i32,
    pub comment_count: i32,
    pub tags: Seq<Seq<char>>,
    pub submitter_user: Seq<char>,
    pub comments_url: Seq<char>,
}

/// A comment with its text fields seen as character sequences.
pub ghost struct CommentView {
    pub short_id: Seq<char>,
    pub comment_plain: Seq<char>,
    pub score: i32,
    pub depth: usize,
    pub commenting_user: Seq<char>,
    pub is_deleted: bool,
}

/// A story detail with its text fields seen as character sequences.
pub ghost struct StoryDetailView {
    pub title: Seq<char>,
    pub url: Seq<char>,
    pub comments: Seq<CommentView>,
}

pub open spec fn string_views(v: Seq<String>) -> Seq<Seq<char>> {
    v.map_values(|s: String| s@)
}

pub open spec fn story_views(v: Seq<Story>) -> Seq<StoryView> {
    v.map_values(|s: Story| s@)
}

pub open spec fn comment_views(v: Seq<Comment>) -> Seq<CommentView> {
    v.map_values(|c: Comment| c@)
}

impl View for Story {
    type V = StoryView;

    open spec fn view(&self) -> StoryView {
        StoryView {
            short_id: self.short_id@,
            title: self.title@,
            url: self.url@,
            score: self.score,
            comment_count: self.comment_count,
            tags: string_views(self.tags@),
            submitter_user: self.submitter_user@,
            comments_url: self.comments_url@,
        }
    }
}

impl View for Comment {
    type V = CommentView;

    open spec fn view(&self) -> CommentView {
        CommentView {
            short_id: self.short_id@,
            comment_plain: self.comment_plain@,
            score: self.score,
            depth: self.depth,
            commenting_user: self.commenting_user@,
            is_deleted: self.is_deleted,
        }
    }
}

impl View for StoryDetail {
    type V = StoryDetailView;

    open spec fn view(&self) -> StoryDetailView {
        StoryDetailView {
            title: self.title@,
            url: self.url@,
            comments: comment_views(self.comments@),
        }
    }
}

/// A copy of a list of strings.
pub fn copy_strings(v: &Vec<String>) -> (r: Vec<String>)
    ensures
        r@ == v@,
{
    let mut out: Vec<String> = Vec::new();
    for i in 0..v.len()
        invariant
            out@ == v@.take(i as int),
    {
        out.push(v[i].clone());
        assert(v@.take(i + 1) =~= v@.take(i as int).push(v@[i as int]));
    }
    assert(v@.take(v.len() as int) =~= v@);
    out
}

impl Story {
    /// A copy of this story.
    pub fn duplicate(&self) -> (r: Story)
        ensures
            r@ == self@,
    {
        Story {
            short_id: self.short_id.clone(),
            title: self.title.clone(),
            url: self.url.clone(),
            score: self.score,
            comment_count: self.comment_count,
            tags: copy_strings(&self.tags),
            submitter_user: self.submitter_user.clone(),
            comments_url: self.comments_url.clone(),
        }
    }
}

impl Comment {
    /// A copy of this comment.
    pub fn duplicate(&self) -> (r: Comment)
        ensures
            r@ == self@,
    {
        Comment {
            short_id: self.short_id.clone(),
            comment_plain: self.comment_plain.clone(),
            score: self.score,
            depth: self.depth,
            commenting_user: self.commenting_user.clone(),
            is_deleted: self.is_deleted,
        }
    }
}

/// A copy of a list of stories.
pub fn copy_stories(v: &[Story]) -> (r: Vec<Story>)
    ensures
        story_views(r@) == story_views(v@),
{
    let mut out: Vec<Story> = Vec::new();
    for i in 0..v.len()
        invariant
            story_views(out@) == story_views(v@.take(i as int)),
    {
        let s = v[i].duplicate();
        let ghost prev = out@;
        out.push(s);
        assert(v@.take(i + 1) =~= v@.take(i as int).push(v@[i as int]));
        assert(story_views(out@) =~= story_views(prev).push(s@));
        assert(story_views(v@.take(i + 1)) =~= story_views(v@.take(i as int)).push(v@[i as int]@));
    }
    assert(v@.take(v@.len() as int) =~= v@);
    out
}

/// A copy of a list of comments.
pub fn copy_comments(v: &Vec<Comment>) -> (r: Vec<Comment>)
    ensures
        comment_views(r@) == comment_views(v@),
{
    let mut out: Vec<Comment> = Vec::new();
    for i in 0..v.len()
        invariant
            comment_views(out@) == comment_views(v@.take(i as int)),
    {
        let c = v[i].duplicate();
        let ghost prev = out@;
        out.push(c);
        assert(v@.take(i + 1) =~= v@.take(i as int).push(v@[i as int]));
        assert(comment_views(out@) =~= comment_views(prev).push(c@));
        assert(comment_views(v@.take(i + 1)) =~= comment_views(v@.take(i as int)).push(v@[i as int]@));
    }
    assert(v@.take(v.len() as int) =~= v@);
    out
}

impl StoryDetail {
    /// A copy of this story detail.
    pub fn duplicate(&self) -> (r: StoryDetail)
        ensures
            r@ == self@,
    {
        StoryDetail {
            title: self.title.clone(),
            url: self.url.clone(),
            comments: copy_comments(&self.comments),
        }
    }
}

// ---------------------------------------------------------------------------
// Feeds
// ---------------------------------------------------------------------------

#[derive(Clone, Copy, Debug, PartialEq, Eq, Hash, Structural)]
pub enum Feed {
    Hottest,
    Newest,
    HnTop,
    HnNew,
}

#[derive(Clone, Copy, Debug, PartialEq, Eq, Structural)]
pub enum Source {
    Lobsters,
    HackerNews,
}

pub open spec fn feed_source(feed: Feed) -> Source {
    match feed {
        Feed::Hottest | Feed::Newest => Source::Lobsters,
        Feed::HnTop | Feed::HnNew => Source::HackerNews,
    }
}

pub open spec fn feed_endpoint(feed: Feed) -> Seq<char> {
    match feed {
        Feed::Hottest => "hottest"@,
        Feed::Newest => "newest"@,
        Feed::HnTop => "topstories"@,
        Feed::HnNew => "newstories"@,
    }
}

pub open spec fn feed_label(feed: Feed) -> Seq<char> {
    match feed {
        Feed::Hottest => "Lobsters: Hottest"@,
        Feed::Newest => "Lobsters: Newest"@,
        Feed::HnTop => "HN: Top"@,
        Feed::HnNew => "HN: New"@,
    }
}

/// The feed after `feed` in the order Hottest, Newest, HN Top, HN New, and back.
pub open spec fn feed_cycle(feed: Feed) -> Feed {
    match feed {
        Feed::Hottest => Feed::Newest,
        Feed::Newest => Feed::HnTop,
        Feed::HnTop => Feed::HnNew,
        Feed::HnNew => Feed::Hottest,
    }
}

/// The short name of a feed in configuration and cache file names.
pub open spec fn feed_name(feed: Feed) -> Seq<char> {
    match feed {
        Feed::Hottest => "hottest"@,
        Feed::Newest => "newest"@,
        Feed::HnTop => "hn-top"@,
        Feed::HnNew => "hn-new"@,
    }
}

impl Feed {
    pub fn source(&self) -> (r: Source)
        ensures
            r == feed_source(*self),
    {
        match self {
            Feed::Hottest | Feed::Newest => Source::Lobsters,
            Feed::HnTop | Feed::HnNew => Source::HackerNews,
        }
    }

    pub fn endpoint(&self) -> (r: &'static str)
        ensures
            r@ == feed_endpoint(*self),
    {
        match self {
            Feed::Hottest => "hottest",
            Feed::Newest => "newest",
            Feed::HnTop => "topstories",
            Feed::HnNew => "newstories",
        }
    }

    pub fn label(&self) -> (r: &'static str)
        ensures
            r@ == feed_label(*self),
    {
        match self {
            Feed::Hottest => "Lobsters: Hottest",
            Feed::Newest => "Lobsters: Newest",
            Feed::HnTop => "HN: Top",
            Feed::HnNew => "HN: New",
        }
    }

    pub fn cycle(&self) -> (r: Feed)
        ensures
            r == feed_cycle(*self),
    {
        match self {
            Feed::Hottest => Feed::Newest,
            Feed::Newest => Feed::HnTop,
            Feed::HnTop => Feed::HnNew,
            Feed::HnNew => Feed::Hottest,
        }
    }

    /// The short name of the feed, as configuration and cache file names write it.
    pub fn as_str(&self) -> (r: &'static str)
        ensures
            r@ == feed_name(*self),
    {
        match self {
            Feed::Hottest => "hottest",
            Feed::Newest => "newest",
            Feed::HnTop => "hn-top",
            Feed::HnNew => "hn-new",
        }
    }
}

/// Cycling through the feeds visits all four and comes back after four steps.
pub proof fn lemma_feed_cycle_period(feed: Feed)
    ensures
        feed_cycle(feed_cycle(feed_cycle(feed_cycle(feed)))) == feed,
        feed_cycle(feed) != feed,
        feed_cycle(feed_cycle(feed)) != feed,
        feed_cycle(feed_cycle(feed_cycle(feed))) != feed,
{
}

// ---------------------------------------------------------------------------
// URLs
// ---------------------------------------------------------------------------

pub open spec fn permalink(feed: Feed, story_short_id: Seq<char>, comment_short_id: Seq<char>) -> Seq<
    char,
> {
    match feed_source(feed) {
        Source::Lobsters => "https://lobste.rs/s/"@ + story_short_id + "#c_"@ + comment_short_id,
        Source::HackerNews => "https://news.ycombinator.com/item?id="@ + comment_short_id,
    }
}

pub fn comment_permalink_url(feed: Feed, story_short_id: &str, comment_short_id: &str) -> (r:
    String)
    ensures
        r@ == permalink(feed, story_short_id@, comment_short_id@),
{
    let mut out: Vec<char> = Vec::new();
    match feed.source() {
        Source::Lobsters => {
            push_str(&mut out, "https://lobste.rs/s/");
            push_str(&mut out, story_short_id);
            push_str(&mut out, "#c_");
            push_str(&mut out, comment_short_id);
        },
        Source::HackerNews => {
            push_str(&mut out, "https://news.ycombinator.com/item?id=");
            push_str(&mut out, comment_short_id);
        },
    }
    string_of(&out)
}

/// The URL of one page of a Lobsters feed.
pub open spec fn feed_url(feed: Feed, page: u32) -> Seq<char> {
    if page <= 1 {
        "https://lobste.rs/"@ + feed_endpoint(feed) + ".json"@
    } else {
        match feed {
            Feed::Hottest => "https://lobste.rs/page/"@ + decimal(page as nat) + ".json"@,
            Feed::Newest => "https://lobste.rs/newest/page/"@ + decimal(page as nat) + ".json"@,
            Feed::HnTop | Feed::HnNew => hn_ids_url(feed),
        }
    }
}

/// The URL of the list of story ids of a Hacker News feed.
pub open spec fn hn_ids_url(feed: Feed) -> Seq<char> {
    "https://hacker-news.firebaseio.com/v0/"@ + feed_endpoint(feed) + ".json"@
}

pub fn stories_feed_url(feed: Feed, page: u32) -> (r: String)
    ensures
        r@ == feed_url(feed, page),
{
    let mut out: Vec<char> = Vec::new();
    if page <= 1 {
        push_str(&mut out, "https://lobste.rs/");
        push_str(&mut out, feed.endpoint());
        push_str(&mut out, ".json");
    } else {
        match feed {
            Feed::Hottest => {
                push_str(&mut out, "https://lobste.rs/page/");
                push_decimal(&mut out, page as u128);
                push_str(&mut out, ".json");
            },
            Feed::Newest => {
                push_str(&mut out, "https://lobste.rs/newest/page/");
                push_decimal(&mut out, page as u128);
                push_str(&mut out, ".json");
            },
            Feed::HnTop | Feed::HnNew => {
                push_str(&mut out, "https://hacker-news.firebaseio.com/v0/");
                push_str(&mut out, feed.endpoint());
                push_str(&mut out, ".json");
            },
        }
    }
    string_of(&out)
}

/// The URL of the list of story ids of a Hacker News feed.
pub fn hn_feed_ids_url(feed: Feed) -> (r: String)
    ensures
        r@ == hn_ids_url(feed),
{
    let mut out: Vec<char> = Vec::new();
    push_str(&mut out, "https://hacker-news.firebaseio.com/v0/");
    push_str(&mut out, feed.endpoint());
    push_str(&mut out, ".json");
    string_of(&out)
}

pub open spec fn hn_item_url_of(id: u64) -> Seq<char> {
    "https://hacker-news.firebaseio.com/v0/item/"@ + decimal(id as nat) + ".json"@
}

/// The URL of one Hacker News item.
pub fn hn_item_url(id: u64) -> (r: String)
    ensures
        r@ == hn_item_url_of(id),
{
    let mut out: Vec<char> = Vec::new();
    push_str(&mut out, "https://hacker-news.firebaseio.com/v0/item/");
    push_decimal(&mut out, id as u128);
    push_str(&mut out, ".json");
    string_of(&out)
}

pub open spec fn lobsters_story_url_of(short_id: Seq<char>) -> Seq<char> {
    "https://lobste.rs/s/"@ + short_id + ".json"@
}

/// The URL of a Lobsters story with its comments.
pub fn lobsters_story_url(short_id: &str) -> (r: String)
    ensures
        r@ == lobsters_story_url_of(short_id@),
{
    let mut out: Vec<char> = Vec::new();
    push_str(&mut out, "https://lobste.rs/s/");
    push_str(&mut out, short_id);
    push_str(&mut out, ".json");
    string_of(&out)
}

pub open spec fn hn_discussion_url_of(short_id: Seq<char>) -> Seq<char> {
    "https://news.ycombinator.com/item?id="@ + short_id
}

/// The discussion page of a Hacker News item.
pub fn hn_discussion_url(short_id: &str) -> (r: String)
    ensures
        r@ == hn_discussion_url_of(short_id@),
{
    let mut out: Vec<char> = Vec::new();
    push_str(&mut out, "https://news.ycombinator.com/item?id=");
    push_str(&mut out, short_id);
    string_of(&out)
}


/// What a feed name reads as: its trimmed, ASCII-lowered form decides.
pub open spec fn parse_feed(s: Seq<char>) -> Option<Feed> {
    let n = ascii_lower(trim(s));
    if n == "hottest"@ {
        Some(Feed::Hottest)
    } else if n == "newest"@ {
        Some(Feed::Newest)
    } else if n == "hn-top"@ {
        Some(Feed::HnTop)
    } else if n == "hn-new"@ {
        Some(Feed::HnNew)
    } else {
        None
    }
}

pub open spec fn unknown_feed_message(s: Seq<char>) -> Seq<char> {
    "unknown feed '"@ + s + "' (expected 'hottest', 'newest', 'hn-top' or 'hn-new')"@
}

impl Feed {
    /// Reads a feed name; anything else is an error that says what was expected.
    pub fn parse(s: &str) -> (r: Result<Feed, String>)
        ensures
            match parse_feed(s@) {
                Some(f) => r == Ok::<Feed, String>(f),
                None => r is Err && r->Err_0@ == unknown_feed_message(s@),
            },
    {
        let n = ascii_lower_chars(&trim_str(s));
        if seq_eq(&n, &chars_of("hottest")) {
            Ok(Feed::Hottest)
        } else if seq_eq(&n, &chars_of("newest")) {
            Ok(Feed::Newest)
        } else if seq_eq(&n, &chars_of("hn-top")) {
            Ok(Feed::HnTop)
        } else if seq_eq(&n, &chars_of("hn-new")) {
            Ok(Feed::HnNew)
        } else {
            let mut out: Vec<char> = Vec::new();
            push_str(&mut out, "unknown feed '");
            push_str(&mut out, s);
            push_str(&mut out, "' (expected 'hottest', 'newest', 'hn-top' or 'hn-new')");
            Err(string_of(&out))
        }
    }
}

impl std::str::FromStr for Feed {
    type Err = String;

    fn from_str(s: &str) -> (r: Result<Self, Self::Err>)
        ensures
            match parse_feed(s@) {
                Some(f) => r == Ok::<Feed, String>(f),
                None => r is Err && r->Err_0@ == unknown_feed_message(s@),
            },
    {
        Feed::parse(s)
    }
}

/// Every feed reads back from its own short name.
pub proof fn lemma_feed_name_round_trip(feed: Feed)
    ensures
        parse_feed(feed_name(feed)) == Some(feed),
{
    reveal_strlit("hottest");
    reveal_strlit("newest");
    reveal_strlit("hn-top");
    reveal_strlit("hn-new");
    let n = feed_name(feed);
    assert(trim_start(n) == n);
    assert(trim_end(n) == n);
    assert(ascii_lower(n) =~= n);
}

} // verus!
