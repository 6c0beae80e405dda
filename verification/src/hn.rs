use vstd::prelude::*;

use crate::api::{
    comment_views, hn_discussion_url, hn_discussion_url_of, Comment, CommentView, Story,
    StoryDetail, StoryDetailView, StoryView,
};
use crate::markup::{html_to_plain_text, plain_text};
use crate::text::{chars_of, decimal, owned, push_decimal, str_eq, string_of};

verus! {

/// Number of stories on one page of a Hacker News feed.
pub const HN_PAGE_SIZE: usize = 25;

/// One Hacker News item as the item endpoint describes it.
#[derive(Debug, Clone)]
pub struct HnItem {
    pub id: u64,
    pub item_type: Option<String>,
    pub by: Option<String>,
    pub text: Option<String>,
    pub kids: Option<Vec<u64>>,
    pub url: Option<String>,
    pub score: Option<i32>,
    pub title: Option<String>,
    pub descendants: Option<i32>,
    pub deleted: Option<bool>,
    pub dead: Option<bool>,
}

/// A node of a fetched comment tree: an item that could not be had, or an item with the
/// nodes fetched for its `kids`.
pub enum HnNode {
    Missing,
    Fetched { item: HnItem, children: Vec<HnNode> },
}

pub open spec fn opt_text_is(t: Option<String>, word: Seq<char>) -> bool {
    match t {
        Some(s) => s@ == word,
        None => false,
    }
}

pub open spec fn text_or(t: Option<String>, fallback: Seq<char>) -> Seq<char> {
    match t {
        Some(s) => s@,
        None => fallback,
    }
}

fn text_or_else(t: &Option<String>, fallback: &str) -> (r: String)
    ensures
        r@ == text_or(*t, fallback@),
{
    match t {
        Some(s) => s.clone(),
        None => owned(fallback),
    }
}

fn is_text(t: &Option<String>, word: &str) -> (r: bool)
    ensures
        r == opt_text_is(*t, word@),
{
    match t {
        Some(s) => str_eq(s.as_str(), word),
        None => false,
    }
}

// ---------------------------------------------------------------------------
// Feed pages
// ---------------------------------------------------------------------------

/// The ids that page `page` (counted from 1; 0 counts as 1) of a feed of `total` ids
/// covers: `None` when the page starts past the end.
pub open spec fn hn_page_range(page: u32, total: nat) -> Option<(nat, nat)> {
    let index = if page == 0 { 0 } else { page - 1 };
    let start = index * 25;
    if start >= total {
        None
    } else {
        Some((start as nat, if start + 25 <= total { (start + 25) as nat } else { total }))
    }
}

pub fn hn_page_bounds(page: u32, total: usize) -> (r: Option<(usize, usize)>)
    ensures
        match r {
            Some((s, e)) => hn_page_range(page, total as nat) == Some((s as nat, e as nat)),
            None => hn_page_range(page, total as nat) is None,
        },
{
    let index = page.saturating_sub(1) as usize;
    let start = if index > usize::MAX / HN_PAGE_SIZE {
        usize::MAX
    } else {
        index * HN_PAGE_SIZE
    };
    if start >= total {
        proof {
            if index * 25 > usize::MAX {
                assert(index * 25 >= total);
            }
        }
        return None;
    }
    let end = if total - start >= HN_PAGE_SIZE {
        start + HN_PAGE_SIZE
    } else {
        total
    };
    Some((start, end))
}

/// The story an item of a feed stands for; items that are not stories give none.
pub open spec fn hn_story(item: HnItem) -> Option<StoryView> {
    if !opt_text_is(item.item_type, "story"@) {
        None
    } else {
        let short_id = decimal(item.id as nat);
        let comments_url = hn_discussion_url_of(short_id);
        Some(
            StoryView {
                short_id: short_id,
                title: text_or(item.title, "[no title]"@),
                url: text_or(item.url, comments_url),
                score: match item.score {
                    Some(s) => s,
                    None => 0,
                },
                comment_count: match item.descendants {
                    Some(d) => d,
                    None => 0,
                },
                tags: seq!["hn"@],
                submitter_user: text_or(item.by, "unknown"@),
                comments_url: comments_url,
            },
        )
    }
}

pub fn hn_story_from_item(item: &HnItem) -> (r: Option<Story>)
    ensures
        match r {
            Some(s) => hn_story(*item) == Some(s@),
            None => hn_story(*item) is None,
        },
{
    if !is_text(&item.item_type, "story") {
        return None;
    }
    let mut id_chars: Vec<char> = Vec::new();
    push_decimal(&mut id_chars, item.id as u128);
    let short_id = string_of(&id_chars);
    let comments_url = hn_discussion_url(short_id.as_str());
    let url = match &item.url {
        Some(u) => u.clone(),
        None => comments_url.clone(),
    };
    let mut tags: Vec<String> = Vec::new();
    tags.push(owned("hn"));
    let story = Story {
        short_id,
        title: text_or_else(&item.title, "[no title]"),
        url,
        score: match item.score {
            Some(s) => s,
            None => 0,
        },
        comment_count: match item.descendants {
            Some(d) => d,
            None => 0,
        },
        tags,
        submitter_user: text_or_else(&item.by, "unknown"),
        comments_url,
    };
    assert(story@.tags =~= seq!["hn"@]);
    Some(story)
}

/// The stories of the items of one feed page, in order, leaving out items that are
/// missing or are not stories.
pub open spec fn hn_stories(items: Seq<Option<HnItem>>) -> Seq<StoryView>
    decreases items.len(),
{
    if items.len() == 0 {
        seq![]
    } else {
        let prev = hn_stories(items.drop_last());
        match items.last() {
            Some(item) => match hn_story(item) {
                Some(s) => prev.push(s),
                None => prev,
            },
            None => prev,
        }
    }
}

pub fn hn_stories_from_items(items: &Vec<Option<HnItem>>) -> (r: Vec<Story>)
    ensures
        crate::api::story_views(r@) == hn_stories(items@),
{
    let mut out: Vec<Story> = Vec::new();
    for i in 0..items.len()
        invariant
            crate::api::story_views(out@) == hn_stories(items@.take(i as int)),
    {
        let ghost pre = out@;
        assert(items@.take(i + 1).drop_last() =~= items@.take(i as int));
        if let Some(item) = &items[i] {
            if let Some(story) = hn_story_from_item(item) {
                out.push(story);
                assert(crate::api::story_views(out@) =~= crate::api::story_views(pre).push(
                    out@.last()@,
                ));
            }
        }
    }
    assert(items@.take(items.len() as int) =~= items@);
    out
}

// ---------------------------------------------------------------------------
// Comment trees
// ---------------------------------------------------------------------------

pub open spec fn is_comment_item(item: HnItem) -> bool {
    opt_text_is(item.item_type, "comment"@)
}

/// The comment that an item at `depth` of a thread gives.
pub open spec fn hn_comment(item: HnItem, depth: usize) -> CommentView {
    let plain = match item.text {
        Some(t) => plain_text(t@),
        None => "[deleted]"@,
    };
    CommentView {
        short_id: decimal(item.id as nat),
        comment_plain: if plain.len() == 0 {
            "[deleted]"@
        } else {
            plain
        },
        score: 0,
        depth: depth,
        commenting_user: text_or(item.by, "[deleted]"@),
        is_deleted: item.deleted == Some(true) || item.dead == Some(true),
    }
}

pub fn hn_comment_from_item(item: &HnItem, depth: usize) -> (r: Comment)
    ensures
        r@ == hn_comment(*item, depth),
{
    let plain = match &item.text {
        Some(t) => html_to_plain_text(t.as_str()),
        None => owned("[deleted]"),
    };
    let comment_plain = if chars_of(plain.as_str()).len() == 0 {
        owned("[deleted]")
    } else {
        plain
    };
    let mut id_chars: Vec<char> = Vec::new();
    push_decimal(&mut id_chars, item.id as u128);
    let deleted = match item.deleted {
        Some(b) => b,
        None => false,
    };
    let dead = match item.dead {
        Some(b) => b,
        None => false,
    };
    Comment {
        short_id: string_of(&id_chars),
        comment_plain,
        score: 0,
        depth,
        commenting_user: text_or_else(&item.by, "[deleted]"),
        is_deleted: deleted || dead,
    }
}

/// Height of a forest: the longest chain of nested nodes.
pub open spec fn forest_height(nodes: Seq<HnNode>) -> nat
    decreases nodes, 1nat,
{
    if nodes.len() == 0 {
        0
    } else {
        let a = forest_height(nodes.drop_last());
        let b = node_height(nodes.last());
        if a >= b {
            a
        } else {
            b
        }
    }
}

pub open spec fn node_height(node: HnNode) -> nat
    decreases node, 0nat,
{
    match node {
        HnNode::Missing => 1,
        HnNode::Fetched { item, children } => 1 + forest_height(children@),
    }
}

/// The comments of a thread in reading order: each comment is followed by its replies,
/// one level deeper. Missing items and items that are not comments are left out, and the
/// replies below an item that is not a comment are not read.
pub open spec fn thread(nodes: Seq<HnNode>, depth: int) -> Seq<CommentView>
    decreases nodes, 1nat,
{
    if nodes.len() == 0 {
        seq![]
    } else {
        thread(nodes.drop_last(), depth) + node_thread(nodes.last(), depth)
    }
}

pub open spec fn node_thread(node: HnNode, depth: int) -> Seq<CommentView>
    decreases node, 0nat,
{
    match node {
        HnNode::Missing => seq![],
        HnNode::Fetched { item, children } => if is_comment_item(item) {
            seq![hn_comment(item, depth as usize)] + thread(children@, depth + 1)
        } else {
            seq![]
        },
    }
}

proof fn lemma_node_height_le(nodes: Seq<HnNode>, i: int)
    requires
        0 <= i < nodes.len(),
    ensures
        node_height(nodes[i]) <= forest_height(nodes),
    decreases nodes.len(),
{
    if i < nodes.len() - 1 {
        lemma_node_height_le(nodes.drop_last(), i);
    }
}

/// Appends the comments of `nodes` at `depth`, in thread order.
fn collect_forest(nodes: &Vec<HnNode>, depth: usize, out: &mut Vec<Comment>)
    requires
        depth + forest_height(nodes@) <= usize::MAX,
    ensures
        comment_views(final(out)@) == comment_views(old(out)@) + thread(nodes@, depth as int),
    decreases forest_height(nodes@), 1nat,
{
    for i in 0..nodes.len()
        invariant
            depth + forest_height(nodes@) <= usize::MAX,
            comment_views(out@) == comment_views(old(out)@) + thread(
                nodes@.take(i as int),
                depth as int,
            ),
    {
        proof {
            lemma_node_height_le(nodes@, i as int);
        }
        let ghost mid = out@;
        collect_node(&nodes[i], depth, out);
        assert(nodes@.take(i + 1).drop_last() =~= nodes@.take(i as int));
        assert(comment_views(out@) =~= comment_views(old(out)@) + thread(
            nodes@.take(i + 1),
            depth as int,
        ));
    }
    assert(nodes@.take(nodes.len() as int) =~= nodes@);
}

fn collect_node(node: &HnNode, depth: usize, out: &mut Vec<Comment>)
    requires
        depth + node_height(*node) <= usize::MAX,
    ensures
        comment_views(final(out)@) == comment_views(old(out)@) + node_thread(*node, depth as int),
    decreases node_height(*node), 0nat,
{
    match node {
        HnNode::Missing => {
            assert(comment_views(out@) =~= comment_views(old(out)@) + node_thread(
                *node,
                depth as int,
            ));
        },
        HnNode::Fetched { item, children } => {
            if is_text(&item.item_type, "comment") {
                let c = hn_comment_from_item(item, depth);
                let ghost pre = out@;
                out.push(c);
                assert(comment_views(out@) =~= comment_views(pre).push(c@));
                collect_forest(children, depth + 1, out);
                assert(comment_views(out@) =~= comment_views(old(out)@) + node_thread(
                    *node,
                    depth as int,
                ));
            } else {
                assert(comment_views(out@) =~= comment_views(old(out)@) + node_thread(
                    *node,
                    depth as int,
                ));
            }
        },
    }
}

/// Appends at most `*remaining` comments of `nodes` at `depth`, in thread order, and
/// counts them off `*remaining`.
fn collect_forest_limited(
    nodes: &Vec<HnNode>,
    depth: usize,
    out: &mut Vec<Comment>,
    remaining: &mut usize,
)
    requires
        depth + forest_height(nodes@) <= usize::MAX,
    ensures
        ({
            let t = thread(nodes@, depth as int);
            let k = if *old(remaining) <= t.len() {
                *old(remaining) as int
            } else {
                t.len() as int
            };
            &&& comment_views(final(out)@) == comment_views(old(out)@) + t.take(k)
            &&& *final(remaining) == *old(remaining) - k
        }),
    decreases forest_height(nodes@), 1nat,
{
    let ghost start_remaining = *remaining;
    let ghost t = thread(nodes@, depth as int);
    if *remaining == 0 {
        assert(comment_views(out@) =~= comment_views(old(out)@) + t.take(0));
        return;
    }
    let mut i: usize = 0;
    while i < nodes.len()
        invariant
            depth + forest_height(nodes@) <= usize::MAX,
            i <= nodes.len(),
            start_remaining == *old(remaining),
            t == thread(nodes@, depth as int),
            ({
                let g = thread(nodes@.take(i as int), depth as int);
                let k = if start_remaining <= g.len() {
                    start_remaining as int
                } else {
                    g.len() as int
                };
                &&& comment_views(out@) == comment_views(old(out)@) + g.take(k)
                &&& *remaining == start_remaining - k
            }),
        ensures
            i == nodes.len() || *remaining == 0,
        decreases nodes.len() - i,
    {
        if *remaining == 0 {
            break;
        }
        proof {
            lemma_node_height_le(nodes@, i as int);
        }
        let ghost g = thread(nodes@.take(i as int), depth as int);
        let ghost pre = out@;
        let ghost rem = *remaining;
        collect_node_limited(&nodes[i], depth, out, remaining);
        assert(nodes@.take(i + 1).drop_last() =~= nodes@.take(i as int));
        assert(thread(nodes@.take(i + 1), depth as int) == g + node_thread(nodes@[i as int], depth as int));
        assert(comment_views(out@) =~= comment_views(old(out)@) + thread(nodes@.take(i + 1), depth as int).take(
            start_remaining - *remaining,
        ));
        i = i + 1;
    }
    proof {
        lemma_thread_prefix(nodes@, i as int, depth as int);
        let g = thread(nodes@.take(i as int), depth as int);
        if i == nodes.len() {
            assert(nodes@.take(i as int) =~= nodes@);
        } else {
            assert(*remaining == 0);
            assert(start_remaining <= g.len());
            assert(t.take(g.len() as int) == g);
            assert(g.take(start_remaining as int) =~= t.take(start_remaining as int));
        }
    }
}

/// The thread of the first `i` nodes begins the thread of all of them.
pub proof fn lemma_thread_prefix(nodes: Seq<HnNode>, i: int, depth: int)
    requires
        0 <= i <= nodes.len(),
    ensures
        thread(nodes.take(i), depth).len() <= thread(nodes, depth).len(),
        thread(nodes, depth).take(thread(nodes.take(i), depth).len() as int) == thread(
            nodes.take(i),
            depth,
        ),
    decreases nodes.len() - i,
{
    if i == nodes.len() {
        assert(nodes.take(i) =~= nodes);
        assert(thread(nodes, depth).take(thread(nodes, depth).len() as int) =~= thread(nodes, depth));
    } else {
        lemma_thread_prefix(nodes, i + 1, depth);
        assert(nodes.take(i + 1).drop_last() =~= nodes.take(i));
        let a = thread(nodes.take(i), depth);
        let b = thread(nodes.take(i + 1), depth);
        assert(b.take(a.len() as int) =~= a);
        assert(thread(nodes, depth).take(a.len() as int) =~= b.take(a.len() as int));
    }
}

fn collect_node_limited(node: &HnNode, depth: usize, out: &mut Vec<Comment>, remaining: &mut usize)
    requires
        depth + node_height(*node) <= usize::MAX,
        *old(remaining) > 0,
    ensures
        ({
            let t = node_thread(*node, depth as int);
            let k = if *old(remaining) <= t.len() {
                *old(remaining) as int
            } else {
                t.len() as int
            };
            &&& comment_views(final(out)@) == comment_views(old(out)@) + t.take(k)
            &&& *final(remaining) == *old(remaining) - k
        }),
    decreases node_height(*node), 0nat,
{
    match node {
        HnNode::Missing => {
            assert(comment_views(out@) =~= comment_views(old(out)@) + seq![]);
        },
        HnNode::Fetched { item, children } => {
            if is_text(&item.item_type, "comment") {
                let c = hn_comment_from_item(item, depth);
                let ghost pre = out@;
                out.push(c);
                assert(comment_views(out@) =~= comment_views(pre).push(c@));
                *remaining = *remaining - 1;
                if *remaining == 0 {
                    let ghost t = node_thread(*node, depth as int);
                    assert(t.take(1) =~= seq![c@]);
                    return;
                }
                let ghost mid = out@;
                let ghost rem = *remaining;
                collect_forest_limited(children, depth + 1, out, remaining);
                let ghost ct = thread(children@, depth + 1);
                let ghost t = node_thread(*node, depth as int);
                assert(t == seq![c@] + ct);
                assert(comment_views(out@) =~= comment_views(old(out)@) + t.take(
                    *old(remaining) - *remaining,
                ));
            } else {
                assert(comment_views(out@) =~= comment_views(old(out)@) + seq![]);
            }
        },
    }
}

/// The comments of a thread in reading order.
pub fn flatten_thread(nodes: &Vec<HnNode>) -> (r: Vec<Comment>)
    requires
        forest_height(nodes@) <= usize::MAX,
    ensures
        comment_views(r@) == thread(nodes@, 0),
{
    let mut out: Vec<Comment> = Vec::new();
    collect_forest(nodes, 0, &mut out);
    assert(comment_views(out@) =~= thread(nodes@, 0));
    out
}

/// The first `max_comments` comments of a thread in reading order.
pub fn flatten_thread_limited(nodes: &Vec<HnNode>, max_comments: usize) -> (r: Vec<Comment>)
    requires
        forest_height(nodes@) <= usize::MAX,
    ensures
        comment_views(r@) == thread(nodes@, 0).take(
            if max_comments <= thread(nodes@, 0).len() {
                max_comments as int
            } else {
                thread(nodes@, 0).len() as int
            },
        ),
{
    let mut out: Vec<Comment> = Vec::new();
    let ghost empty = comment_views(out@);
    let mut remaining = max_comments;
    collect_forest_limited(nodes, 0, &mut out, &mut remaining);
    assert(comment_views(out@) =~= empty + thread(nodes@, 0).take(max_comments - remaining));
    assert(comment_views(out@) =~= thread(nodes@, 0).take(max_comments - remaining));
    out
}

/// The detail of a Hacker News story: its title and link, or the discussion page when it
/// has no link of its own, with the comments given.
pub open spec fn hn_detail(story: HnItem, short_id: Seq<char>, comments: Seq<CommentView>) -> StoryDetailView {
    StoryDetailView {
        title: text_or(story.title, "[no title]"@),
        url: text_or(story.url, hn_discussion_url_of(short_id)),
        comments: comments,
    }
}

pub fn hn_story_detail(story: HnItem, short_id: &str, comments: Vec<Comment>) -> (r: StoryDetail)
    ensures
        r@ == hn_detail(story, short_id@, comment_views(comments@)),
{
    let comments_url = hn_discussion_url(short_id);
    StoryDetail {
        title: text_or_else(&story.title, "[no title]"),
        url: match story.url {
            Some(u) => u,
            None => comments_url,
        },
        comments,
    }
}

/// The item id a Hacker News story's short id names: its decimal digits, with an optional
/// `+`, when they fit in 64 bits; otherwise the parse error's message.
pub fn hn_story_id(short_id: &str) -> (r: Result<u64, String>)
    ensures
        match crate::settings::unsigned_value(short_id@) {
            Some(v) => if v <= u64::MAX {
                r == Ok::<u64, String>(v as u64)
            } else {
                r is Err && r->Err_0@ == crate::settings::u64_parse_error(short_id@)
            },
            None => r is Err && r->Err_0@ == crate::settings::u64_parse_error(short_id@),
        },
{
    crate::settings::parse_u64(short_id)
}

// ---------------------------------------------------------------------------
// Walking a thread with a budget
// ---------------------------------------------------------------------------

/// One level of a thread being walked: the ids of its items, how many of them have been
/// asked for, and the items of the last batch with how many of them are taken in.
pub struct WalkLevel {
    kids: Vec<u64>,
    asked: usize,
    batch: Vec<Option<HnItem>>,
    done: usize,
}

/// A level of a walk, seen as values.
pub ghost struct LevelView {
    pub kids: Seq<u64>,
    pub asked: nat,
    pub batch: Seq<Option<HnItem>>,
    pub done: nat,
}

spec fn level_view(l: WalkLevel) -> LevelView {
    LevelView {
        kids: l.kids@,
        asked: l.asked as nat,
        batch: l.batch@,
        done: l.done as nat,
    }
}

/// How many items of the deepest level's batch are not taken in yet.
pub open spec fn unseen(levels: Seq<LevelView>) -> int {
    if levels.len() == 0 {
        0
    } else if levels.last().done < levels.last().batch.len() {
        levels.last().batch.len() - levels.last().done
    } else {
        0
    }
}

/// A fresh level for the replies `kids`.
pub open spec fn new_level(kids: Seq<u64>) -> LevelView {
    LevelView { kids, asked: 0, batch: seq![], done: 0 }
}

/// Where the walk stops, from `levels` with `remaining` comments to take and `found`
/// comments found: the levels, budget and comments then, and the ids of the batch it asks
/// for, or nothing when it is over.
///
/// Each step looks at the deepest level. An item of its batch not yet taken in is taken:
/// a comment item found at level `d` gives the comment at depth `d`, spends one unit of
/// budget and, while budget is left, opens a level for its replies, which are walked
/// before its next sibling; any other item, or one that could not be had, is skipped with
/// its replies. With the batch all taken in, the next `batch_size` ids not yet asked for
/// are asked for; with none left, the level is done. The walk is over when the budget is
/// spent or no level is left.
pub open spec fn walk_run(levels: Seq<LevelView>, remaining: nat, found: Seq<CommentView>, batch_size: nat) -> (
    Seq<LevelView>,
    nat,
    Seq<CommentView>,
    Option<Seq<u64>>,
)
    decreases remaining, levels.len(), unseen(levels),
{
    if remaining == 0 || levels.len() == 0 {
        (levels, remaining, found, None)
    } else {
        let top = levels.last();
        let rest = levels.drop_last();
        if top.done < top.batch.len() {
            let stepped = rest.push(LevelView { done: top.done + 1, ..top });
            match top.batch[top.done as int] {
                Some(item) => if is_comment_item(item) {
                    let left = (remaining - 1) as nat;
                    let next_levels = if left > 0 && item.kids is Some {
                        stepped.push(new_level(item.kids->0@))
                    } else {
                        stepped
                    };
                    walk_run(next_levels, left, found.push(hn_comment(item, rest.len() as usize)), batch_size)
                } else {
                    walk_run(stepped, remaining, found, batch_size)
                },
                None => walk_run(stepped, remaining, found, batch_size),
            }
        } else if top.asked < top.kids.len() {
            let end: nat = if top.kids.len() - top.asked > batch_size {
                top.asked + batch_size
            } else {
                top.kids.len()
            };
            (
                rest.push(LevelView { asked: end, batch: seq![], done: 0, ..top }),
                remaining,
                found,
                Some(top.kids.subrange(top.asked as int, end as int)),
            )
        } else {
            walk_run(rest, remaining, found, batch_size)
        }
    }
}

/// From `found` with `left` comments to take to `found2` with `left2`: the comments found
/// are kept, each one added scores nothing and has some text, and each took one unit of
/// budget.
pub open spec fn walk_adds(found: Seq<CommentView>, left: nat, found2: Seq<CommentView>, left2: nat) -> bool {
    &&& found2.len() + left2 == found.len() + left
    &&& found.len() <= found2.len()
    &&& found2.subrange(0, found.len() as int) == found
    &&& forall|i: int|
        found.len() <= i < found2.len() ==> #[trigger] found2[i].score == 0 && found2[i].comment_plain.len() > 0
}

/// A walk keeps the comments it has found, adds comments that score nothing and have some
/// text, and spends one unit of budget on each.
pub proof fn lemma_walk_run_adds(levels: Seq<LevelView>, remaining: nat, found: Seq<CommentView>, batch_size: nat)
    ensures
        walk_adds(
            found,
            remaining,
            walk_run(levels, remaining, found, batch_size).2,
            walk_run(levels, remaining, found, batch_size).1,
        ),
    decreases remaining, levels.len(), unseen(levels),
{
    reveal_strlit("[deleted]");
    if remaining == 0 || levels.len() == 0 {
        assert(found.subrange(0, found.len() as int) =~= found);
    } else {
        let top = levels.last();
        let rest = levels.drop_last();
        if top.done < top.batch.len() {
            let stepped = rest.push(LevelView { done: top.done + 1, ..top });
            match top.batch[top.done as int] {
                Some(item) => if is_comment_item(item) {
                    let left = (remaining - 1) as nat;
                    let next_levels = if left > 0 && item.kids is Some {
                        stepped.push(new_level(item.kids->0@))
                    } else {
                        stepped
                    };
                    let c = hn_comment(item, rest.len() as usize);
                    let f2 = found.push(c);
                    lemma_walk_run_adds(next_levels, left, f2, batch_size);
                    let out = walk_run(next_levels, left, f2, batch_size);
                    assert(out.2.subrange(0, found.len() as int) =~= out.2.subrange(0, f2.len() as int).subrange(
                        0,
                        found.len() as int,
                    ));
                    assert(f2.subrange(0, found.len() as int) =~= found);
                    assert(out.2[found.len() as int] == out.2.subrange(0, f2.len() as int)[found.len() as int]);
                } else {
                    lemma_walk_run_adds(stepped, remaining, found, batch_size);
                },
                None => lemma_walk_run_adds(stepped, remaining, found, batch_size),
            }
        } else if top.asked < top.kids.len() {
            assert(found.subrange(0, found.len() as int) =~= found);
        } else {
            lemma_walk_run_adds(rest, remaining, found, batch_size);
        }
    }
}

/// The depths of comments found in reading order: the first at the top, and each at
/// most one level deeper than the one before.
pub open spec fn depths_ok(found: Seq<CommentView>) -> bool {
    &&& found.len() > 0 ==> found[0].depth == 0
    &&& forall|i: int| 0 < i < found.len() ==> #[trigger] found[i].depth <= found[i - 1].depth + 1
}

/// The open levels reach at most one below the last comment found, and only the top
/// level is open before any comment is found.
pub open spec fn levels_fit(levels: Seq<LevelView>, found: Seq<CommentView>) -> bool {
    &&& found.len() == 0 ==> levels.len() <= 1
    &&& found.len() > 0 ==> levels.len() <= found.last().depth + 2
}

/// A walk of a comment thread in reading order that stops after `max_comments` comments.
/// Sibling items are asked for a batch at a time; each comment's replies are walked before
/// its next sibling. An item that could not be had, or is no comment, is skipped with its
/// replies (see `walk_run`). Handed the items of a thread, it finds the first comments of
/// that thread in reading order (see `lemma_walk_follows_thread`).
pub struct HnWalk {
    levels: Vec<WalkLevel>,
    remaining: usize,
    comments: Vec<Comment>,
    batch_size: usize,
    awaiting: bool,
}

impl HnWalk {
    /// The open levels, the top of the thread first.
    pub closed spec fn levels(&self) -> Seq<LevelView> {
        self.levels@.map_values(|l: WalkLevel| level_view(l))
    }

    /// The comments found so far, in reading order.
    pub closed spec fn found(&self) -> Seq<CommentView> {
        comment_views(self.comments@)
    }

    /// How many more comments the walk may take.
    pub closed spec fn left(&self) -> nat {
        self.remaining as nat
    }

    /// How many items the walk asks for at a time, at most.
    pub closed spec fn batch(&self) -> nat {
        self.batch_size as nat
    }

    /// Whether the walk waits for the items of the batch it asked for.
    pub closed spec fn waiting(&self) -> bool {
        self.awaiting
    }

    /// Whether the walk is over: its budget is spent or the thread is done.
    pub open spec fn finished(&self) -> bool {
        self.left() == 0 || self.levels().len() == 0
    }

    pub closed spec fn wf(&self) -> bool {
        &&& self.batch_size >= 1
        &&& forall|i: int|
            0 <= i < self.levels@.len() ==> {
                &&& #[trigger] self.levels@[i].asked <= self.levels@[i].kids@.len()
                &&& self.levels@[i].done <= self.levels@[i].batch@.len()
            }
        &&& self.awaiting ==> self.levels@.len() > 0
        &&& depths_ok(self.found())
        &&& levels_fit(self.levels(), self.found())
    }

    /// A walk of the replies `kids` of a story, taking at most `max_comments` comments
    /// and asking for `batch_size` items at a time.
    pub fn new(kids: Vec<u64>, max_comments: usize, batch_size: usize) -> (r: Self)
        requires
            batch_size >= 1,
        ensures
            r.wf(),
            r.levels() == seq![new_level(kids@)],
            r.found().len() == 0,
            r.left() == max_comments,
            r.batch() == batch_size,
            !r.waiting(),
    {
        let mut levels: Vec<WalkLevel> = Vec::new();
        levels.push(WalkLevel { kids, asked: 0, batch: Vec::new(), done: 0 });
        let r = HnWalk { levels, remaining: max_comments, comments: Vec::new(), batch_size, awaiting: false };
        assert(r.levels() =~= seq![new_level(r.levels@[0].kids@)]);
        r
    }

    /// Takes in the items asked for, in the order asked: they become the deepest level's
    /// batch, none of them taken in yet.
    pub fn deliver(&mut self, items: Vec<Option<HnItem>>)
        requires
            old(self).wf(),
            old(self).waiting(),
        ensures
            final(self).wf(),
            !final(self).waiting(),
            old(self).levels().len() > 0,
            final(self).levels() == delivered(old(self).levels(), items@),
            final(self).found() == old(self).found(),
            final(self).left() == old(self).left(),
            final(self).batch() == old(self).batch(),
    {
        let ghost items_view = items@;
        let mut level = self.levels.pop().unwrap();
        level.batch = items;
        level.done = 0;
        self.levels.push(level);
        self.awaiting = false;
        proof {
            assert(self.levels() =~= old(self).levels().drop_last().push(
                LevelView { batch: items_view, done: 0, ..old(self).levels().last() },
            ));
            assert forall|i: int| 0 <= i < self.levels@.len() implies {
                &&& #[trigger] self.levels@[i].asked <= self.levels@[i].kids@.len()
                &&& self.levels@[i].done <= self.levels@[i].batch@.len()
            } by {
                if i < self.levels@.len() - 1 {
                    assert(self.levels@[i] == old(self).levels@[i]);
                }
            }
        }
    }

    /// Walks on through the items taken in as far as `walk_run` goes: the comments found
    /// are kept, and the ids of the next batch to ask for are given, or nothing when the
    /// walk is over.
    pub fn next_batch(&mut self) -> (r: Option<Vec<u64>>)
        requires
            old(self).wf(),
            !old(self).waiting(),
        ensures
            final(self).wf(),
            ({
                let out = walk_run(old(self).levels(), old(self).left(), old(self).found(), old(self).batch());
                &&& final(self).levels() == out.0
                &&& final(self).left() == out.1
                &&& final(self).found() == out.2
                &&& match r {
                    Some(ids) => out.3 == Some(ids@),
                    None => out.3 is None,
                }
            }),
            final(self).batch() == old(self).batch(),
            final(self).waiting() == (r is Some),
            r is Some ==> r->0@.len() >= 1 && r->0@.len() <= old(self).batch(),
            r is None ==> final(self).finished(),
            depths_ok(final(self).found()),
            walk_adds(old(self).found(), old(self).left(), final(self).found(), final(self).left()),
    {
        let ghost target = walk_run(self.levels(), self.left(), self.found(), self.batch());
        loop
            invariant
                self.wf(),
                !self.awaiting,
                self.batch_size == old(self).batch_size,
                walk_run(self.levels(), self.left(), self.found(), self.batch()) == target,
                target == walk_run(old(self).levels(), old(self).left(), old(self).found(), old(self).batch()),
            decreases self.remaining, self.levels@.len(), unseen(self.levels()),
        {
            if self.remaining == 0 || self.levels.len() == 0 {
                assert(target == (self.levels(), self.left(), self.found(), None::<Seq<u64>>));
                proof {
                    lemma_walk_run_adds(old(self).levels(), old(self).left(), old(self).found(), old(self).batch());
                }
                return None;
            }
            let ghost pre = *self;
            let ghost pv = self.levels();
            let mut level = self.levels.pop().unwrap();
            let depth = self.levels.len();
            assert(pv.last() == level_view(level));
            assert(pv.drop_last() =~= self.levels());
            if level.done < level.batch.len() {
                let mut found: Option<Comment> = None;
                let mut replies: Option<Vec<u64>> = None;
                match &level.batch[level.done] {
                    Some(item) => {
                        if is_text(&item.item_type, "comment") {
                            found = Some(hn_comment_from_item(item, depth));
                            replies = match &item.kids {
                                Some(k) => Some(copy_ids(k, 0, k.len())),
                                None => None,
                            };
                            proof {
                                if item.kids is Some {
                                    assert(item.kids->0@.subrange(0, item.kids->0@.len() as int) =~= item.kids->0@);
                                }
                            }
                        }
                    },
                    None => {},
                }
                let ghost it = level.batch@[level.done as int];
                level.done = level.done + 1;
                self.levels.push(level);
                let ghost stepped = self.levels();
                proof {
                    assert(stepped =~= pv.drop_last().push(LevelView { done: pv.last().done + 1, ..pv.last() }));
                    assert forall|i: int| 0 <= i < self.levels@.len() implies {
                        &&& #[trigger] self.levels@[i].asked <= self.levels@[i].kids@.len()
                        &&& self.levels@[i].done <= self.levels@[i].batch@.len()
                    } by {
                        if i < self.levels@.len() - 1 {
                            assert(self.levels@[i] == pre.levels@[i]);
                        }
                    }
                }
                match found {
                    Some(c) => {
                        let ghost cs = comment_views(self.comments@);
                        self.comments.push(c);
                        self.remaining = self.remaining - 1;
                        proof {
                            assert(comment_views(self.comments@) =~= cs.push(c@));
                            assert(depths_ok(self.found())) by {
                                assert forall|i: int| 0 < i < self.found().len() implies #[trigger] self.found()[i].depth
                                    <= self.found()[i - 1].depth + 1 by {
                                    if i < cs.len() {
                                        assert(self.found()[i] == cs[i]);
                                        assert(self.found()[i - 1] == cs[i - 1]);
                                    }
                                }
                            }
                        }
                        if self.remaining > 0 && replies.is_some() {
                            let kids = replies.unwrap();
                            let ghost pre2 = self.levels@;
                            self.levels.push(WalkLevel { kids, asked: 0, batch: Vec::new(), done: 0 });
                            proof {
                                assert(self.levels() =~= stepped.push(new_level(kids@)));
                                assert forall|i: int| 0 <= i < self.levels@.len() implies {
                                    &&& #[trigger] self.levels@[i].asked
                                        <= self.levels@[i].kids@.len()
                                    &&& self.levels@[i].done <= self.levels@[i].batch@.len()
                                } by {
                                    if i < pre2.len() {
                                        assert(self.levels@[i] == pre2[i]);
                                    }
                                }
                            }
                        }
                    },
                    None => {},
                }
            } else if level.asked < level.kids.len() {
                let end = if level.kids.len() - level.asked > self.batch_size {
                    level.asked + self.batch_size
                } else {
                    level.kids.len()
                };
                let ids = copy_ids(&level.kids, level.asked, end);
                level.asked = end;
                level.batch = Vec::new();
                level.done = 0;
                self.levels.push(level);
                self.awaiting = true;
                proof {
                    assert(self.levels() =~= pv.drop_last().push(
                        LevelView { asked: end as nat, batch: seq![], done: 0, ..pv.last() },
                    ));
                    assert forall|i: int| 0 <= i < self.levels@.len() implies {
                        &&& #[trigger] self.levels@[i].asked <= self.levels@[i].kids@.len()
                        &&& self.levels@[i].done <= self.levels@[i].batch@.len()
                    } by {
                        if i < self.levels@.len() - 1 {
                            assert(self.levels@[i] == pre.levels@[i]);
                        }
                    }
                }
                assert(target == (self.levels(), self.left(), self.found(), Some(ids@)));
                proof {
                    lemma_walk_run_adds(old(self).levels(), old(self).left(), old(self).found(), old(self).batch());
                }
                return Some(ids);
            } else {
                proof {
                    assert forall|i: int| 0 <= i < self.levels@.len() implies {
                        &&& #[trigger] self.levels@[i].asked <= self.levels@[i].kids@.len()
                        &&& self.levels@[i].done <= self.levels@[i].batch@.len()
                    } by {
                        assert(self.levels@[i] == pre.levels@[i]);
                    }
                }
            }
        }
    }

    /// The comments found, in reading order.
    pub fn into_comments(self) -> (r: Vec<Comment>)
        ensures
            comment_views(r@) == self.found(),
    {
        self.comments
    }
}

/// The ids `kids[start..end]`.
fn copy_ids(kids: &Vec<u64>, start: usize, end: usize) -> (r: Vec<u64>)
    requires
        start <= end <= kids@.len(),
    ensures
        r@ == kids@.subrange(start as int, end as int),
{
    let mut out: Vec<u64> = Vec::new();
    let mut i = start;
    while i < end
        invariant
            start <= i <= end <= kids@.len(),
            out@ == kids@.subrange(start as int, i as int),
        decreases end - i,
    {
        out.push(kids[i]);
        assert(kids@.subrange(start as int, i + 1) =~= kids@.subrange(start as int, i as int).push(kids@[i as int]));
        i = i + 1;
    }
    out
}

// ---------------------------------------------------------------------------
// The walk follows the thread it is given
// ---------------------------------------------------------------------------

/// The item a node of a thread holds, if it could be had.
pub open spec fn node_item(n: HnNode) -> Option<HnItem> {
    match n {
        HnNode::Missing => None,
        HnNode::Fetched { item, .. } => Some(item),
    }
}

/// The items of the nodes `ns`, in order.
pub open spec fn node_items(ns: Seq<HnNode>) -> Seq<Option<HnItem>> {
    ns.map_values(|n: HnNode| node_item(n))
}

/// The replies below a node.
pub open spec fn node_children(n: HnNode) -> Seq<HnNode> {
    match n {
        HnNode::Missing => seq![],
        HnNode::Fetched { children, .. } => children@,
    }
}

/// Each node of the forest has as many replies below it as its item lists.
pub open spec fn forest_fits(nodes: Seq<HnNode>) -> bool
    decreases nodes, 1nat,
{
    if nodes.len() == 0 {
        true
    } else {
        forest_fits(nodes.drop_last()) && node_fits(nodes.last())
    }
}

/// The node has as many replies below it as its item lists, and so has each reply.
pub open spec fn node_fits(node: HnNode) -> bool
    decreases node, 0nat,
{
    match node {
        HnNode::Missing => true,
        HnNode::Fetched { item, children } => {
            &&& children@.len() == match item.kids {
                Some(k) => k@.len(),
                None => 0,
            }
            &&& forest_fits(children@)
        },
    }
}

/// Where the next node of a level stands among its nodes.
pub open spec fn next_pos(l: LevelView) -> int {
    l.asked - l.batch.len() + l.done
}

/// The nodes of level `i` of a walk of `root`: the replies of the node the level above took
/// last.
pub open spec fn forest_at(levels: Seq<LevelView>, root: Seq<HnNode>, i: nat) -> Seq<HnNode>
    decreases i,
{
    if i == 0 {
        root
    } else {
        node_children(forest_at(levels, root, (i - 1) as nat)[next_pos(levels[i - 1]) - 1])
    }
}

/// A level of a walk stands for the nodes `f`: one per id, with its batch the items of the
/// nodes asked for last.
pub open spec fn level_fits(l: LevelView, f: Seq<HnNode>) -> bool {
    &&& f.len() == l.kids.len()
    &&& l.batch.len() <= l.asked <= l.kids.len()
    &&& l.done <= l.batch.len()
    &&& l.batch == node_items(f.subrange(l.asked - l.batch.len(), l.asked as int))
    &&& forest_fits(f)
}

/// The levels of a walk stand for the thread `root`: each for the replies of the node the
/// level above took last.
pub open spec fn walk_fits(levels: Seq<LevelView>, root: Seq<HnNode>) -> bool {
    &&& forall|i: int| 0 <= i < levels.len() ==> level_fits(#[trigger] levels[i], forest_at(levels, root, i as nat))
    &&& forall|i: int| 0 <= i < levels.len() - 1 ==> next_pos(#[trigger] levels[i]) >= 1
}

/// The comments of `root`'s thread the walk has still to come to, in reading order.
pub open spec fn pending(levels: Seq<LevelView>, root: Seq<HnNode>) -> Seq<CommentView>
    decreases levels.len(),
{
    if levels.len() == 0 {
        seq![]
    } else {
        let k = (levels.len() - 1) as nat;
        let f = forest_at(levels, root, k);
        thread(f.subrange(next_pos(levels.last()), f.len() as int), k as int) + pending(
            levels.drop_last(),
            root,
        )
    }
}

/// The first `n` elements of `s`, or all of them when there are fewer.
pub open spec fn prefix<A>(s: Seq<A>, n: int) -> Seq<A> {
    if n < s.len() {
        s.take(n)
    } else {
        s
    }
}

/// The levels after the items asked for last are taken in, as `HnWalk::deliver` does.
pub open spec fn delivered(levels: Seq<LevelView>, items: Seq<Option<HnItem>>) -> Seq<LevelView> {
    levels.drop_last().push(LevelView { batch: items, done: 0, ..levels.last() })
}

proof fn lemma_forest_at_same(a: Seq<LevelView>, b: Seq<LevelView>, root: Seq<HnNode>, i: nat)
    requires
        i <= a.len(),
        i <= b.len(),
        forall|j: int| 0 <= j < i ==> a[j] == b[j],
    ensures
        forest_at(a, root, i) == forest_at(b, root, i),
    decreases i,
{
    if i > 0 {
        lemma_forest_at_same(a, b, root, (i - 1) as nat);
        assert(a[i - 1] == b[i - 1]);
    }
}

proof fn lemma_forest_fits_at(nodes: Seq<HnNode>, i: int)
    requires
        forest_fits(nodes),
        0 <= i < nodes.len(),
    ensures
        node_fits(nodes[i]),
    decreases nodes.len(),
{
    if i < nodes.len() - 1 {
        lemma_forest_fits_at(nodes.drop_last(), i);
        assert(nodes.drop_last()[i] == nodes[i]);
    }
}

proof fn lemma_thread_concat(a: Seq<HnNode>, b: Seq<HnNode>, d: int)
    ensures
        thread(a + b, d) == thread(a, d) + thread(b, d),
    decreases b.len(),
{
    if b.len() == 0 {
        assert(a + b =~= a);
        assert(thread(a, d) + thread(b, d) =~= thread(a, d));
    } else {
        lemma_thread_concat(a, b.drop_last(), d);
        assert((a + b).drop_last() =~= a + b.drop_last());
        assert((a + b).last() == b.last());
        assert(thread(a + b, d) =~= thread(a, d) + thread(b, d));
    }
}

proof fn lemma_thread_first(s: Seq<HnNode>, d: int)
    requires
        s.len() > 0,
    ensures
        thread(s, d) == node_thread(s[0], d) + thread(s.drop_first(), d),
{
    assert(s =~= seq![s[0]] + s.drop_first());
    lemma_thread_concat(seq![s[0]], s.drop_first(), d);
    let one = seq![s[0]];
    assert(one.drop_last() =~= Seq::<HnNode>::empty());
    assert(one.last() == s[0]);
    assert(thread(one.drop_last(), d) == Seq::<CommentView>::empty());
    assert(thread(one, d) == thread(one.drop_last(), d) + node_thread(s[0], d));
    assert(thread(one, d) =~= node_thread(s[0], d));
}

proof fn lemma_prefix_cons(c: CommentView, x: Seq<CommentView>, n: int)
    requires
        n >= 1,
    ensures
        prefix(seq![c] + x, n) == seq![c] + prefix(x, n - 1),
{
    if n - 1 < x.len() {
        assert((seq![c] + x).take(n) =~= seq![c] + x.take(n - 1));
    }
}

/// A walk starts out standing for the thread `root` of the story's replies, with the first
/// `max_comments` comments of the thread still to come.
pub proof fn lemma_walk_starts_on_thread(kids: Seq<u64>, root: Seq<HnNode>, max_comments: nat)
    requires
        root.len() == kids.len(),
        forest_fits(root),
    ensures
        walk_fits(seq![new_level(kids)], root),
        Seq::<CommentView>::empty() + prefix(pending(seq![new_level(kids)], root), max_comments as int)
            == prefix(thread(root, 0), max_comments as int),
{
    let levels = seq![new_level(kids)];
    assert(forest_at(levels, root, 0) == root);
    assert(root.subrange(0, 0) =~= Seq::<HnNode>::empty());
    assert(node_items(root.subrange(0, 0)) =~= Seq::<Option<HnItem>>::empty());
    assert(level_fits(levels[0], root));
    assert(root.subrange(0, root.len() as int) =~= root);
    assert(levels.drop_last() =~= Seq::<LevelView>::empty());
    assert(levels.last() == new_level(kids));
    assert(next_pos(levels.last()) == 0);
    assert(pending(levels.drop_last(), root) == Seq::<CommentView>::empty());
    assert(pending(levels, root) == thread(root.subrange(0, root.len() as int), 0) + pending(
        levels.drop_last(),
        root,
    ));
    assert(pending(levels, root) =~= thread(root, 0));
    assert(Seq::<CommentView>::empty() + prefix(thread(root, 0), max_comments as int) =~= prefix(
        thread(root, 0),
        max_comments as int,
    ));
}

/// The levels of a walk but the deepest stand as they were.
proof fn lemma_fits_below(levels: Seq<LevelView>, other: Seq<LevelView>, root: Seq<HnNode>)
    requires
        walk_fits(levels, root),
        levels.len() > 0,
        other.len() == levels.len(),
        forall|i: int| 0 <= i < levels.len() - 1 ==> other[i] == levels[i],
        level_fits(other.last(), forest_at(levels, root, (levels.len() - 1) as nat)),
    ensures
        walk_fits(other, root),
        forest_at(other, root, (levels.len() - 1) as nat) == forest_at(levels, root, (levels.len() - 1) as nat),
        other.drop_last() == levels.drop_last(),
{
    let d = (levels.len() - 1) as nat;
    lemma_forest_at_same(other, levels, root, d);
    assert forall|i: int| 0 <= i < other.len() implies level_fits(
        #[trigger] other[i],
        forest_at(other, root, i as nat),
    ) by {
        lemma_forest_at_same(other, levels, root, i as nat);
        if i < d {
            assert(level_fits(levels[i], forest_at(levels, root, i as nat)));
        }
    }
    assert forall|i: int| 0 <= i < other.len() - 1 implies next_pos(#[trigger] other[i]) >= 1 by {
        assert(other[i] == levels[i]);
    }
    assert(other.drop_last() =~= levels.drop_last());
}

/// What is still to come of a walk: the rest of the deepest level's nodes, then the rest
/// above.
proof fn lemma_pending_last(levels: Seq<LevelView>, root: Seq<HnNode>)
    requires
        levels.len() > 0,
    ensures
        pending(levels, root) == thread(
            forest_at(levels, root, (levels.len() - 1) as nat).subrange(
                next_pos(levels.last()),
                forest_at(levels, root, (levels.len() - 1) as nat).len() as int,
            ),
            levels.len() - 1,
        ) + pending(levels.drop_last(), root),
{
}

/// Taking in the next item of the deepest level's batch: the node it stands for is the
/// next one, and the levels after stand for the thread as before.
proof fn lemma_take_step(levels: Seq<LevelView>, root: Seq<HnNode>)
    requires
        walk_fits(levels, root),
        levels.len() > 0,
        levels.last().done < levels.last().batch.len(),
    ensures
        ({
            let d = (levels.len() - 1) as nat;
            let top = levels.last();
            let f = forest_at(levels, root, d);
            let pos = next_pos(top);
            let stepped = levels.drop_last().push(LevelView { done: top.done + 1, ..top });
            &&& 0 <= pos < f.len()
            &&& top.batch[top.done as int] == node_item(f[pos])
            &&& node_fits(f[pos])
            &&& walk_fits(stepped, root)
            &&& forest_at(stepped, root, d) == f
            &&& pending(levels, root) == (node_thread(f[pos], d as int) + thread(
                f.subrange(pos + 1, f.len() as int),
                d as int,
            )) + pending(levels.drop_last(), root)
            &&& pending(stepped, root) == thread(f.subrange(pos + 1, f.len() as int), d as int)
                + pending(levels.drop_last(), root)
        }),
{
    let d = (levels.len() - 1) as nat;
    let top = levels.last();
    let f = forest_at(levels, root, d);
    let pos = next_pos(top);
    let len = f.len() as int;
    let top2 = LevelView { done: top.done + 1, ..top };
    let stepped = levels.drop_last().push(top2);
    assert(levels[d as int] == top);
    assert(level_fits(levels[d as int], f));
    assert(top.batch[top.done as int] == node_item(f[pos])) by {
        assert(f.subrange(top.asked - top.batch.len(), top.asked as int)[top.done as int] == f[pos]);
    }
    lemma_forest_fits_at(f, pos);
    lemma_fits_below(levels, stepped, root);
    lemma_pending_last(levels, root);
    lemma_pending_last(stepped, root);
    lemma_thread_first(f.subrange(pos, len), d as int);
    assert(f.subrange(pos, len).drop_first() =~= f.subrange(pos + 1, len));
    assert(f.subrange(pos, len)[0] == f[pos]);
}

/// Opening a level for the replies of the node taken last: the levels stand for the
/// thread, with those replies still to come first.
proof fn lemma_open_replies(stepped: Seq<LevelView>, root: Seq<HnNode>, item: HnItem)
    requires
        walk_fits(stepped, root),
        stepped.len() > 0,
        next_pos(stepped.last()) >= 1,
        ({
            let f = forest_at(stepped, root, (stepped.len() - 1) as nat);
            &&& next_pos(stepped.last()) <= f.len()
            &&& node_item(f[next_pos(stepped.last()) - 1]) == Some(item)
            &&& node_fits(f[next_pos(stepped.last()) - 1])
        }),
        item.kids is Some,
    ensures
        walk_fits(stepped.push(new_level(item.kids->0@)), root),
        pending(stepped.push(new_level(item.kids->0@)), root) == thread(
            node_children(forest_at(stepped, root, (stepped.len() - 1) as nat)[next_pos(stepped.last()) - 1]),
            stepped.len() as int,
        ) + pending(stepped, root),
{
    let d = (stepped.len() - 1) as nat;
    let f = forest_at(stepped, root, d);
    let node = f[next_pos(stepped.last()) - 1];
    let ch = node_children(node);
    let nl = new_level(item.kids->0@);
    let next = stepped.push(nl);
    lemma_forest_at_same(next, stepped, root, d);
    assert(next[d as int] == stepped.last());
    assert(forest_at(next, root, d + 1) == ch);
    assert(ch.subrange(0, 0) =~= Seq::<HnNode>::empty());
    assert(node_items(ch.subrange(0, 0)) =~= Seq::<Option<HnItem>>::empty());
    assert(level_fits(nl, ch));
    assert forall|i: int| 0 <= i < next.len() implies level_fits(
        #[trigger] next[i],
        forest_at(next, root, i as nat),
    ) by {
        if i <= d {
            lemma_forest_at_same(next, stepped, root, i as nat);
            assert(next[i] == stepped[i]);
        } else {
            assert(next[i] == nl);
        }
    }
    assert forall|i: int| 0 <= i < next.len() - 1 implies next_pos(#[trigger] next[i]) >= 1 by {
        assert(next[i] == stepped[i]);
    }
    assert(next.drop_last() =~= stepped);
    assert(ch.subrange(0, ch.len() as int) =~= ch);
    lemma_pending_last(next, root);
}

/// Asking for the next batch of the deepest level, and taking in the items of the nodes
/// asked for: the levels stand for the thread, with the same still to come.
proof fn lemma_ask_step(levels: Seq<LevelView>, root: Seq<HnNode>, end: nat, items: Seq<Option<HnItem>>)
    requires
        walk_fits(levels, root),
        levels.len() > 0,
        levels.last().done >= levels.last().batch.len(),
        levels.last().asked < end <= levels.last().kids.len(),
        items == node_items(
            forest_at(levels, root, (levels.len() - 1) as nat).subrange(
                levels.last().asked as int,
                end as int,
            ),
        ),
    ensures
        ({
            let out0 = levels.drop_last().push(LevelView { asked: end, batch: seq![], done: 0, ..levels.last() });
            &&& forest_at(out0, root, (levels.len() - 1) as nat) == forest_at(levels, root, (levels.len() - 1) as nat)
            &&& walk_fits(delivered(out0, items), root)
            &&& pending(delivered(out0, items), root) == pending(levels, root)
        }),
{
    let d = (levels.len() - 1) as nat;
    let top = levels.last();
    let f = forest_at(levels, root, d);
    let a = LevelView { asked: end, batch: seq![], done: 0, ..top };
    let out0 = levels.drop_last().push(a);
    let b = LevelView { asked: end, batch: items, done: 0, ..top };
    let dl = delivered(out0, items);
    assert(levels[d as int] == top);
    assert(level_fits(levels[d as int], f));
    lemma_forest_at_same(out0, levels, root, d);
    assert(out0.drop_last() =~= levels.drop_last());
    assert(dl =~= levels.drop_last().push(b));
    assert(next_pos(b) == next_pos(top));
    assert(level_fits(b, f));
    lemma_fits_below(levels, dl, root);
    lemma_pending_last(levels, root);
    lemma_pending_last(dl, root);
}

/// Leaving a level whose nodes are all taken: the levels above stand for the thread, with
/// the same still to come.
proof fn lemma_pop_step(levels: Seq<LevelView>, root: Seq<HnNode>)
    requires
        walk_fits(levels, root),
        levels.len() > 0,
        levels.last().done >= levels.last().batch.len(),
        levels.last().asked >= levels.last().kids.len(),
    ensures
        walk_fits(levels.drop_last(), root),
        pending(levels.drop_last(), root) == pending(levels, root),
{
    let d = (levels.len() - 1) as nat;
    let top = levels.last();
    let f = forest_at(levels, root, d);
    let rest = levels.drop_last();
    assert(levels[d as int] == top);
    assert(level_fits(levels[d as int], f));
    assert(f.subrange(next_pos(top), f.len() as int) =~= Seq::<HnNode>::empty());
    lemma_pending_last(levels, root);
    assert forall|i: int| 0 <= i < rest.len() implies level_fits(
        #[trigger] rest[i],
        forest_at(rest, root, i as nat),
    ) by {
        lemma_forest_at_same(rest, levels, root, i as nat);
        assert(rest[i] == levels[i]);
        assert(level_fits(levels[i], forest_at(levels, root, i as nat)));
    }
    assert forall|i: int| 0 <= i < rest.len() - 1 implies next_pos(#[trigger] rest[i]) >= 1 by {
        assert(rest[i] == levels[i]);
    }
    assert(pending(levels, root) =~= pending(rest, root));
}

/// The walk keeps to the thread it is given. When the levels stand for the thread `root`,
/// and the comments found with the first `remaining` of those still to come make up
/// `target`, walking on keeps it so: once the walk is over it has found exactly `target`;
/// when it asks for a batch, and the items handed in for it are those of the nodes asked
/// for, the levels after they are taken in stand for `root` again, and the same holds.
pub proof fn lemma_walk_follows_thread(
    levels: Seq<LevelView>,
    remaining: nat,
    found: Seq<CommentView>,
    batch_size: nat,
    root: Seq<HnNode>,
    target: Seq<CommentView>,
    items: Seq<Option<HnItem>>,
)
    requires
        batch_size >= 1,
        walk_fits(levels, root),
        found + prefix(pending(levels, root), remaining as int) == target,
    ensures
        ({
            let out = walk_run(levels, remaining, found, batch_size);
            &&& out.3 is None ==> out.2 == target
            &&& (out.3 is Some && out.0.len() > 0 && items == node_items(
                forest_at(out.0, root, (out.0.len() - 1) as nat).subrange(
                    out.0.last().asked - out.3->0.len(),
                    out.0.last().asked as int,
                ),
            )) ==> {
                &&& walk_fits(delivered(out.0, items), root)
                &&& out.2 + prefix(pending(delivered(out.0, items), root), out.1 as int) == target
            }
        }),
    decreases remaining, levels.len(), unseen(levels), 1nat,
{
    if remaining == 0 || levels.len() == 0 {
        if remaining == 0 {
            assert(prefix(pending(levels, root), 0) =~= Seq::<CommentView>::empty());
        }
        assert(found + Seq::<CommentView>::empty() =~= found);
    } else {
        let d = (levels.len() - 1) as nat;
        let top = levels.last();
        let rest = levels.drop_last();
        if top.done < top.batch.len() {
            lemma_follow_take(levels, remaining, found, batch_size, root, target, items);
        } else if top.asked < top.kids.len() {
            let end: nat = if top.kids.len() - top.asked > batch_size {
                top.asked + batch_size
            } else {
                top.kids.len()
            };
            let out0 = rest.push(LevelView { asked: end, batch: seq![], done: 0, ..top });
            let ids = top.kids.subrange(top.asked as int, end as int);
            assert(walk_run(levels, remaining, found, batch_size) == (out0, remaining, found, Some(ids)));
            assert(out0.last().asked == end);
            assert(ids.len() == end - top.asked);
            lemma_forest_at_same(out0, levels, root, d);
            if items == node_items(forest_at(out0, root, d).subrange(end - ids.len(), end as int)) {
                lemma_ask_step(levels, root, end, items);
            }
        } else {
            lemma_pop_step(levels, root);
            lemma_walk_follows_thread(rest, remaining, found, batch_size, root, target, items);
        }
    }
}

/// The step of `lemma_walk_follows_thread` that takes in the next item of the deepest
/// level's batch.
#[verifier::spinoff_prover]
proof fn lemma_follow_take(
    levels: Seq<LevelView>,
    remaining: nat,
    found: Seq<CommentView>,
    batch_size: nat,
    root: Seq<HnNode>,
    target: Seq<CommentView>,
    items: Seq<Option<HnItem>>,
)
    requires
        remaining > 0,
        levels.len() > 0,
        levels.last().done < levels.last().batch.len(),
        batch_size >= 1,
        walk_fits(levels, root),
        found + prefix(pending(levels, root), remaining as int) == target,
    ensures
        ({
            let out = walk_run(levels, remaining, found, batch_size);
            &&& out.3 is None ==> out.2 == target
            &&& (out.3 is Some && out.0.len() > 0 && items == node_items(
                forest_at(out.0, root, (out.0.len() - 1) as nat).subrange(
                    out.0.last().asked - out.3->0.len(),
                    out.0.last().asked as int,
                ),
            )) ==> {
                &&& walk_fits(delivered(out.0, items), root)
                &&& out.2 + prefix(pending(delivered(out.0, items), root), out.1 as int) == target
            }
        }),
    decreases remaining, levels.len(), unseen(levels), 0nat,
{
    let d = (levels.len() - 1) as nat;
    let top = levels.last();
    let rest = levels.drop_last();
    let stepped = rest.push(LevelView { done: top.done + 1, ..top });
    lemma_take_step(levels, root);
    let f = forest_at(levels, root, d);
    let pos = next_pos(top);
    let node = f[pos];
    let t_after = thread(f.subrange(pos + 1, f.len() as int), d as int);
    let r_rest = pending(rest, root);
    match top.batch[top.done as int] {
        Some(item) => {
            if is_comment_item(item) {
                let left = (remaining - 1) as nat;
                let c = hn_comment(item, rest.len() as usize);
                let ch = node_children(node);
                let t_ch = thread(ch, d + 1int);
                assert(node_thread(node, d as int) == seq![c] + t_ch);
                let x = t_ch + (t_after + r_rest);
                assert(pending(levels, root) =~= seq![c] + x);
                lemma_prefix_cons(c, x, remaining as int);
                if left > 0 && item.kids is Some {
                    let next = stepped.push(new_level(item.kids->0@));
                    assert(stepped.last() == LevelView { done: top.done + 1, ..top });
                    lemma_open_replies(stepped, root, item);
                    assert(pending(next, root) =~= x);
                    assert(found.push(c) + prefix(pending(next, root), left as int) =~= target);
                    lemma_walk_follows_thread(next, left, found.push(c), batch_size, root, target, items);
                } else {
                    if left > 0 {
                        assert(t_ch =~= Seq::<CommentView>::empty());
                        assert(x =~= pending(stepped, root));
                    } else {
                        assert(prefix(x, 0) =~= Seq::<CommentView>::empty());
                        assert(prefix(pending(stepped, root), 0) =~= Seq::<CommentView>::empty());
                    }
                    assert(found.push(c) + prefix(pending(stepped, root), left as int) =~= target);
                    lemma_walk_follows_thread(stepped, left, found.push(c), batch_size, root, target, items);
                }
            } else {
                assert(node_thread(node, d as int) =~= Seq::<CommentView>::empty());
                assert(pending(levels, root) =~= pending(stepped, root));
                lemma_walk_follows_thread(stepped, remaining, found, batch_size, root, target, items);
            }
        },
        None => {
            assert(node_thread(node, d as int) =~= Seq::<CommentView>::empty());
            assert(pending(levels, root) =~= pending(stepped, root));
            lemma_walk_follows_thread(stepped, remaining, found, batch_size, root, target, items);
        },
    }
}

} // verus!
