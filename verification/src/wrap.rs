use vstd::prelude::*;

use crate::api::string_views;
use crate::text::{
    chars_of, lines, lines_chars, push_chars, replace_all, replace_chars, string_of, trim,
    trim_chars, trim_end, trim_end_chars, views_of,
};

verus! {

/// The lines `textwrap::wrap` gives for `text` at `width` columns, breaking words that are
/// longer than a line and never hyphenating.
pub uninterp spec fn textwrap_lines(text: Seq<char>, width: usize) -> Seq<Seq<char>>;

/// `textwrap::wrap` with `break_words(true)` and `WordSplitter::NoHyphenation`: the result
/// is `textwrap_lines` of the text and width, each line as an owned string. Nothing more of
/// the lines is stated. Only called with a width of at least one column.
#[verifier::external_body]
fn textwrap_wrap(text: &str, width: usize) -> (r: Vec<String>)
    requires
        width >= 1,
    ensures
        string_views(r@) == textwrap_lines(text@, width),
{
    let options = textwrap::Options::new(width).break_words(true).word_splitter(
        textwrap::WordSplitter::NoHyphenation,
    );
    textwrap::wrap(text, &options).into_iter().map(|line| line.into_owned()).collect()
}

/// The lines of one paragraph: tabs widened to four spaces, trailing whitespace dropped,
/// then wrapped and indented; a blank paragraph is one line of indentation.
pub open spec fn paragraph_lines(p: Seq<char>, indent: Seq<char>, width: usize) -> Seq<Seq<char>> {
    let t = trim_end(replace_all(p, "\t"@, "    "@));
    if t.len() == 0 {
        seq![indent]
    } else {
        textwrap_lines(t, width).map_values(|w: Seq<char>| indent + w)
    }
}

pub open spec fn paragraphs_lines(ps: Seq<Seq<char>>, indent: Seq<char>, width: usize) -> Seq<
    Seq<char>,
>
    decreases ps.len(),
{
    if ps.len() == 0 {
        seq![]
    } else {
        paragraphs_lines(ps.drop_last(), indent, width) + paragraph_lines(ps.last(), indent, width)
    }
}

/// The display lines of a comment body: a deleted comment reads `[deleted]`, otherwise the
/// trimmed body with carriage returns removed, wrapped paragraph by paragraph; never no
/// lines at all.
pub open spec fn wrapped_body(body: Seq<char>, is_deleted: bool, indent: Seq<char>, width: usize) -> Seq<
    Seq<char>,
> {
    let base = if is_deleted {
        "[deleted]"@
    } else {
        trim(body)
    };
    let clean = replace_all(base, "\r"@, Seq::<char>::empty());
    let out = paragraphs_lines(lines(clean), indent, width);
    if out.len() == 0 {
        seq![indent]
    } else {
        out
    }
}

fn paragraph_wrap(p: &Vec<char>, indent: &Vec<char>, width: usize, out: &mut Vec<String>)
    requires
        width >= 1,
    ensures
        string_views(final(out)@) == string_views(old(out)@) + paragraph_lines(p@, indent@, width),
{
    let normalized = replace_chars(p, &chars_of("\t"), &chars_of("    "));
    let trimmed = trim_end_chars(&normalized);
    if trimmed.len() == 0 {
        let ghost pre = out@;
        out.push(string_of(indent));
        assert(string_views(out@) =~= string_views(pre) + paragraph_lines(p@, indent@, width));
        return;
    }
    let text = string_of(&trimmed);
    let wrapped = textwrap_wrap(text.as_str(), width);
    let ghost pre = out@;
    let ghost w = textwrap_lines(trimmed@, width);
    for i in 0..wrapped.len()
        invariant
            string_views(wrapped@) == w,
            w == textwrap_lines(trimmed@, width),
            string_views(out@) == string_views(pre) + w.take(i as int).map_values(
                |x: Seq<char>| indent@ + x,
            ),
    {
        let mut line: Vec<char> = Vec::new();
        push_chars(&mut line, indent);
        push_chars(&mut line, &chars_of(wrapped[i].as_str()));
        let ghost before = out@;
        out.push(string_of(&line));
        assert(w[i as int] == wrapped@[i as int]@);
        assert(string_views(out@) =~= string_views(before).push(indent@ + w[i as int]));
        assert(w.take(i + 1).map_values(|x: Seq<char>| indent@ + x) =~= w.take(i as int).map_values(
            |x: Seq<char>| indent@ + x,
        ).push(indent@ + w[i as int]));
    }
    assert(w.take(wrapped.len() as int) =~= w);
}

/// The display lines of a comment body, each starting with `body_indent`.
pub fn wrap_comment_text(body: &str, is_deleted: bool, body_indent: &Vec<char>, wrap_width: usize) -> (r:
    Vec<String>)
    requires
        wrap_width >= 1,
    ensures
        string_views(r@) == wrapped_body(body@, is_deleted, body_indent@, wrap_width),
{
    let base = if is_deleted {
        chars_of("[deleted]")
    } else {
        trim_chars(&chars_of(body))
    };
    let empty: Vec<char> = Vec::new();
    let clean = replace_chars(&base, &chars_of("\r"), &empty);
    assert(empty@ =~= Seq::<char>::empty());
    let paragraphs = lines_chars(&clean);
    let ghost ps = views_of(paragraphs@);
    let mut out: Vec<String> = Vec::new();
    for i in 0..paragraphs.len()
        invariant
            ps == views_of(paragraphs@),
            wrap_width >= 1,
            string_views(out@) == paragraphs_lines(ps.take(i as int), body_indent@, wrap_width),
    {
        paragraph_wrap(&paragraphs[i], body_indent, wrap_width, &mut out);
        assert(ps.take(i + 1).drop_last() =~= ps.take(i as int));
        assert(ps[i as int] == paragraphs@[i as int]@);
    }
    assert(ps.take(paragraphs.len() as int) =~= ps);
    if out.len() == 0 {
        out.push(string_of(body_indent));
        assert(string_views(out@) =~= seq![body_indent@]);
    }
    out
}

/// `line` starts with `prefix`.
pub open spec fn starts_with(line: Seq<char>, prefix: Seq<char>) -> bool {
    prefix.len() <= line.len() && line.subrange(0, prefix.len() as int) == prefix
}

proof fn lemma_paragraphs_indented(ps: Seq<Seq<char>>, indent: Seq<char>, width: usize)
    ensures
        forall|j: int|
            0 <= j < paragraphs_lines(ps, indent, width).len() ==> starts_with(
                #[trigger] paragraphs_lines(ps, indent, width)[j],
                indent,
            ),
    decreases ps.len(),
{
    if ps.len() > 0 {
        lemma_paragraphs_indented(ps.drop_last(), indent, width);
        let prev = paragraphs_lines(ps.drop_last(), indent, width);
        let cur = paragraph_lines(ps.last(), indent, width);
        let all = paragraphs_lines(ps, indent, width);
        assert(all == prev + cur);
        assert forall|j: int| 0 <= j < all.len() implies starts_with(#[trigger] all[j], indent) by {
            if j < prev.len() {
                assert(all[j] == prev[j]);
            } else {
                let k = j - prev.len();
                assert(all[j] == cur[k]);
                let t = trim_end(replace_all(ps.last(), "\t"@, "    "@));
                if t.len() == 0 {
                    assert(cur[k] == indent);
                    assert(indent.subrange(0, indent.len() as int) =~= indent);
                } else {
                    let w = textwrap_lines(t, width)[k];
                    assert(cur[k] == indent + w);
                    assert((indent + w).subrange(0, indent.len() as int) =~= indent);
                }
            }
        }
    }
}

/// A comment body always gives at least one display line, and every line starts with the
/// indentation.
pub proof fn lemma_wrapped_body_indented(body: Seq<char>, is_deleted: bool, indent: Seq<char>, width: usize)
    ensures
        wrapped_body(body, is_deleted, indent, width).len() >= 1,
        forall|j: int|
            0 <= j < wrapped_body(body, is_deleted, indent, width).len() ==> starts_with(
                #[trigger] wrapped_body(body, is_deleted, indent, width)[j],
                indent,
            ),
{
    let base = if is_deleted {
        "[deleted]"@
    } else {
        trim(body)
    };
    let clean = replace_all(base, "\r"@, Seq::<char>::empty());
    lemma_paragraphs_indented(lines(clean), indent, width);
    assert(indent.subrange(0, indent.len() as int) =~= indent);
}

} // verus!
