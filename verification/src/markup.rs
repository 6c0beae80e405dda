use vstd::prelude::*;

use crate::text::{
    chars_of, collapse_whitespace, collapse_ws, push_chars, replace_all, replace_chars, slice_chars,
    string_of,
};

verus! {

/// Number of bytes UTF-8 takes for `c`.
pub open spec fn utf8_len(c: char) -> nat {
    let u = c as u32;
    if u < 0x80 {
        1
    } else if u < 0x800 {
        2
    } else if u < 0x10000 {
        3
    } else {
        4
    }
}

/// Number of bytes UTF-8 takes for all of `s`.
pub open spec fn utf8_bytes(s: Seq<char>) -> nat
    decreases s.len(),
{
    if s.len() == 0 {
        0
    } else {
        utf8_bytes(s.drop_last()) + utf8_len(s.last())
    }
}

/// std's `str::len`: the length of `s` in bytes of its UTF-8 encoding.
#[verifier::external_body]
pub(crate) fn byte_len(s: &str) -> (n: usize)
    ensures
        n as nat == utf8_bytes(s@),
{
    s.len()
}

fn utf8_len_of(c: char) -> (n: usize)
    ensures
        n == utf8_len(c),
{
    let u = c as u32;
    if u < 0x80 {
        1
    } else if u < 0x800 {
        2
    } else if u < 0x10000 {
        3
    } else {
        4
    }
}

/// How many characters of `r` an entity after `&` takes: up to and including the first
/// `;`, or the first character that brings the entity past ten bytes, or all of `r`.
/// `bytes` is what the entity already holds.
pub open spec fn entity_take(r: Seq<char>, bytes: nat) -> nat
    decreases r.len(),
{
    if r.len() == 0 {
        0
    } else {
        let b = bytes + utf8_len(r[0]);
        if r[0] == ';' || b > 10 {
            1
        } else {
            1 + entity_take(r.drop_first(), b)
        }
    }
}

/// What an entity stands for: the five known ones decode, any other becomes a space.
pub open spec fn decode_entity(e: Seq<char>) -> Seq<char> {
    if e == "amp;"@ {
        "&"@
    } else if e == "lt;"@ {
        "<"@
    } else if e == "gt;"@ {
        ">"@
    } else if e == "quot;"@ {
        "\""@
    } else if e == "#x27;"@ || e == "#39;"@ {
        "'"@
    } else {
        " "@
    }
}

pub proof fn lemma_entity_take_bound(r: Seq<char>, bytes: nat)
    ensures
        entity_take(r, bytes) <= r.len(),
    decreases r.len(),
{
    if r.len() > 0 {
        lemma_entity_take_bound(r.drop_first(), bytes + utf8_len(r[0]));
    }
}

/// `s` with tags dropped and entities outside tags decoded; `in_tag` says whether `s`
/// starts inside a tag.
pub open spec fn strip_markup(s: Seq<char>, in_tag: bool) -> Seq<char>
    decreases s.len(),
{
    if s.len() == 0 {
        seq![]
    } else {
        let c = s[0];
        let rest = s.drop_first();
        if c == '<' {
            strip_markup(rest, true)
        } else if c == '>' {
            strip_markup(rest, false)
        } else if c == '&' && !in_tag {
            let k = entity_take(rest, 0);
            proof {
                lemma_entity_take_bound(rest, 0);
            }
            decode_entity(rest.take(k as int)) + strip_markup(rest.skip(k as int), in_tag)
        } else if !in_tag {
            seq![c] + strip_markup(rest, in_tag)
        } else {
            strip_markup(rest, in_tag)
        }
    }
}

/// The plain text of an HTML comment body: markup stripped, paragraph tags and line feeds
/// turned into spaces, and runs of whitespace collapsed into single spaces.
pub open spec fn plain_text(s: Seq<char>) -> Seq<char> {
    let stripped = strip_markup(s, false);
    let a = replace_all(stripped, "<p>"@, "\n\n"@);
    let b = replace_all(a, "</p>"@, "\n\n"@);
    let c = replace_all(b, "\n"@, " "@);
    collapse_ws(c)
}

fn decode_entity_chars(e: &Vec<char>) -> (r: Vec<char>)
    ensures
        r@ == decode_entity(e@),
{
    let amp = chars_of("amp;");
    let lt = chars_of("lt;");
    let gt = chars_of("gt;");
    let quot = chars_of("quot;");
    let x27 = chars_of("#x27;");
    let n39 = chars_of("#39;");
    if seq_eq(e, &amp) {
        chars_of("&")
    } else if seq_eq(e, &lt) {
        chars_of("<")
    } else if seq_eq(e, &gt) {
        chars_of(">")
    } else if seq_eq(e, &quot) {
        chars_of("\"")
    } else if seq_eq(e, &x27) || seq_eq(e, &n39) {
        chars_of("'")
    } else {
        chars_of(" ")
    }
}

/// Whether two character vectors are equal.
pub fn seq_eq(a: &Vec<char>, b: &Vec<char>) -> (r: bool)
    ensures
        r == (a@ == b@),
{
    if a.len() != b.len() {
        return false;
    }
    for i in 0..a.len()
        invariant
            a.len() == b.len(),
            forall|j: int| 0 <= j < i ==> a@[j] == b@[j],
    {
        if a[i] != b[i] {
            return false;
        }
    }
    assert(a@ =~= b@);
    true
}

/// Drops tags and decodes entities.
fn strip_markup_chars(s: &Vec<char>) -> (r: Vec<char>)
    ensures
        r@ == strip_markup(s@, false),
{
    let mut out: Vec<char> = Vec::new();
    let mut in_tag = false;
    let mut i: usize = 0;
    assert(s@.skip(0) =~= s@);
    while i < s.len()
        invariant
            i <= s.len(),
            out@ + strip_markup(s@.skip(i as int), in_tag) == strip_markup(s@, false),
        decreases s.len() - i,
    {
        let ghost rest = s@.skip(i as int).drop_first();
        assert(rest =~= s@.skip(i + 1));
        let c = s[i];
        if c == '<' {
            in_tag = true;
            i = i + 1;
        } else if c == '>' {
            in_tag = false;
            i = i + 1;
        } else if c == '&' && !in_tag {
            let start = i + 1;
            let mut j = start;
            let mut bytes: usize = 0;
            let mut done = false;
            while j < s.len() && !done
                invariant
                    start <= j <= s.len(),
                    bytes <= 10,
                    rest == s@.skip(start as int),
                    !done ==> entity_take(rest, 0) == (j - start) + entity_take(
                        s@.skip(j as int),
                        bytes as nat,
                    ),
                    done ==> entity_take(rest, 0) == j - start,
                decreases s.len() - j,
            {
                let ghost tail = s@.skip(j as int);
                assert(tail.drop_first() =~= s@.skip(j + 1));
                let d = s[j];
                let nb = bytes + utf8_len_of(d);
                j = j + 1;
                if d == ';' || nb > 10 {
                    done = true;
                } else {
                    bytes = nb;
                }
            }
            proof {
                if !done {
                    assert(s@.skip(j as int).len() == 0);
                }
            }
            let entity = slice_chars(s, start, j);
            assert(entity@ =~= rest.take(j - start));
            assert(rest.skip(j - start) =~= s@.skip(j as int));
            let decoded = decode_entity_chars(&entity);
            let ghost before = out@;
            push_chars(&mut out, &decoded);
            assert(out@ + strip_markup(s@.skip(j as int), in_tag) =~= before + (decoded@
                + strip_markup(s@.skip(j as int), in_tag)));
            i = j;
        } else if !in_tag {
            let ghost before = out@;
            out.push(c);
            assert(out@ + strip_markup(s@.skip(i + 1), in_tag) =~= before + (seq![c]
                + strip_markup(s@.skip(i + 1), in_tag)));
            i = i + 1;
        } else {
            i = i + 1;
        }
    }
    assert(out@ + strip_markup(s@.skip(i as int), in_tag) =~= out@);
    out
}

/// The plain text of an HTML comment body.
pub fn html_to_plain_text(input: &str) -> (r: String)
    ensures
        r@ == plain_text(input@),
{
    let s = chars_of(input);
    let stripped = strip_markup_chars(&s);
    let a = replace_chars(&stripped, &chars_of("<p>"), &chars_of("\n\n"));
    let b = replace_chars(&a, &chars_of("</p>"), &chars_of("\n\n"));
    let c = replace_chars(&b, &chars_of("\n"), &chars_of(" "));
    let d = collapse_whitespace(&c);
    string_of(&d)
}

} // verus!
