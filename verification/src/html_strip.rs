//! HTML tag and entity stripper for plain-text fallback paths.
//!
//! A last resort for when rich-text parsing fails on the receiving side and clean plain text
//! must be sent in place of literal tag characters. All tags go, attributes included (the URL of
//! an `<a href="...">` is lost); entities are decoded; newlines are kept as they are.

use vstd::prelude::*;

verus! {

/// Whether a reader of `s` stands inside a tag at its end: the last angle bracket opens one.
pub open spec fn in_tag_after(s: Seq<char>) -> bool
    decreases s.len(),
{
    if s.len() == 0 || s.last() == '>' {
        false
    } else if s.last() == '<' {
        true
    } else {
        in_tag_after(s.drop_last())
    }
}

/// The characters of `s` that stand outside every `<...>` span, in order. A span that is not
/// closed reaches to the end; a `>` that closes nothing is an ordinary character.
pub open spec fn visible(s: Seq<char>) -> Seq<char>
    decreases s.len(),
{
    if s.len() == 0 {
        Seq::empty()
    } else {
        let before = visible(s.drop_last());
        if s.last() == '<' || in_tag_after(s.drop_last()) {
            before
        } else {
            before.push(s.last())
        }
    }
}

/// What `html_escape::decode_html_entities` makes of a text.
pub uninterp spec fn html_decoded(s: Seq<char>) -> Seq<char>;

/// `html_escape::decode_html_entities`: named, decimal and hexadecimal character references that
/// end in `;` are replaced by the characters they stand for. Every reference begins with `&`, so
/// a text without one comes back as it is.
#[verifier::external_body]
fn decode_entities(s: &str) -> (r: String)
    ensures
        r@ == html_decoded(s@),
        !s@.contains('&') ==> r@ == s@,
{
    html_escape::decode_html_entities(s).into_owned()
}

/// The text of `markup` outside its tags; entities are left alone.
pub fn strip_tags(markup: &str) -> (r: String)
    ensures
        r@ == visible(markup@),
{
    let mut out = String::new();
    let mut in_tag = false;
    for ch in it: markup.chars()
        invariant
            it.seq() == markup@,
            out@ == visible(markup@.take(it.index() as int)),
            in_tag == in_tag_after(markup@.take(it.index() as int)),
    {
        let ghost next = markup@.take(it.index() + 1);
        assert(next.drop_last() == markup@.take(it.index() as int));
        assert(next.last() == ch);
        if ch == '<' {
            in_tag = true;
        } else if in_tag {
            if ch == '>' {
                in_tag = false;
            }
        } else {
            out.push(ch);
        }
    }
    assert(markup@.take(markup@.len() as int) == markup@);
    out
}

/// Strips all tags from `markup` and decodes the entities of what is left.
///
/// A tag is any `<...>` span: unknown, malformed and crossed tags all go, with their attributes.
/// White space at the ends is not trimmed.
pub fn strip_html_for_fallback(markup: &str) -> (r: String)
    ensures
        r@ == html_decoded(visible(markup@)),
        !visible(markup@).contains('&') ==> r@ == visible(markup@),
{
    let plain = strip_tags(markup);
    decode_entities(plain.as_str())
}

// ---------------------------------------------------------------------------
// What holds of every text
// ---------------------------------------------------------------------------

/// Nothing of an opening bracket is ever left.
pub proof fn law_no_opening_bracket_is_left(s: Seq<char>)
    ensures
        !visible(s).contains('<'),
    decreases s.len(),
{
    if s.len() > 0 {
        law_no_opening_bracket_is_left(s.drop_last());
        let before = visible(s.drop_last());
        if visible(s).contains('<') {
            let i = choose|i: int| 0 <= i < visible(s).len() && visible(s)[i] == '<';
            if i < before.len() {
                assert(before[i] == '<');
            }
        }
    }
}

/// A text without an opening bracket is kept as it is, newlines and white space included.
pub proof fn law_text_without_tags_is_kept(s: Seq<char>)
    requires
        !s.contains('<'),
    ensures
        visible(s) == s,
        !in_tag_after(s),
    decreases s.len(),
{
    if s.len() > 0 {
        let front = s.drop_last();
        assert(s[s.len() - 1] != '<');
        assert(!front.contains('<')) by {
            if front.contains('<') {
                let i = choose|i: int| 0 <= i < front.len() && front[i] == '<';
                assert(s[i] == '<');
            }
        }
        law_text_without_tags_is_kept(front);
        assert(front.push(s.last()) == s);
    }
}

/// Stripping the tags of a stripped text changes nothing.
pub proof fn law_stripping_twice_is_stripping_once(s: Seq<char>)
    ensures
        visible(visible(s)) == visible(s),
{
    law_no_opening_bracket_is_left(s);
    law_text_without_tags_is_kept(visible(s));
}

/// What follows a point outside every tag is stripped on its own.
pub proof fn law_stripping_splits_outside_tags(a: Seq<char>, b: Seq<char>)
    requires
        !in_tag_after(a),
    ensures
        visible(a + b) == visible(a) + visible(b),
        in_tag_after(a + b) == in_tag_after(b),
    decreases b.len(),
{
    if b.len() == 0 {
        assert(a + b == a);
        assert(visible(a) + visible(b) == visible(a));
    } else {
        law_stripping_splits_outside_tags(a, b.drop_last());
        assert((a + b).drop_last() == a + b.drop_last());
        assert((a + b).last() == b.last());
        assert(visible(a + b) == visible(a) + visible(b));
    }
}

/// From an opening bracket on, nothing is visible up to the next closing bracket.
proof fn lemma_inside_tag(body: Seq<char>)
    requires
        !body.contains('>'),
    ensures
        visible(seq!['<'] + body) == Seq::<char>::empty(),
        in_tag_after(seq!['<'] + body),
    decreases body.len(),
{
    let s = seq!['<'] + body;
    if body.len() == 0 {
        assert(s.drop_last() == Seq::<char>::empty());
        assert(visible(s.drop_last()) == Seq::<char>::empty());
        assert(s.last() == '<');
    } else {
        let front = body.drop_last();
        assert(body[body.len() - 1] != '>');
        assert(!front.contains('>')) by {
            if front.contains('>') {
                let i = choose|i: int| 0 <= i < front.len() && front[i] == '>';
                assert(body[i] == '>');
            }
        }
        lemma_inside_tag(front);
        assert(s.drop_last() == seq!['<'] + front);
    }
}

/// A tag disappears whole, whatever its name and attributes, and the text round it is joined.
pub proof fn law_tag_disappears(before: Seq<char>, body: Seq<char>, after: Seq<char>)
    requires
        !in_tag_after(before),
        !body.contains('>'),
    ensures
        visible(before + seq!['<'] + body + seq!['>'] + after) == visible(before) + visible(after),
{
    let open = seq!['<'] + body;
    let tag = open + seq!['>'];
    lemma_inside_tag(body);
    assert(tag.drop_last() == open);
    assert(visible(tag) == Seq::<char>::empty());
    law_stripping_splits_outside_tags(tag, after);
    law_stripping_splits_outside_tags(before, tag + after);
    assert(before + seq!['<'] + body + seq!['>'] + after == before + (tag + after));
    assert(visible(tag) + visible(after) == visible(after));
}

/// A tag that is never closed swallows the rest of the text.
pub proof fn law_unclosed_tag_swallows_the_rest(before: Seq<char>, rest: Seq<char>)
    requires
        !in_tag_after(before),
        !rest.contains('>'),
    ensures
        visible(before + seq!['<'] + rest) == visible(before),
{
    lemma_inside_tag(rest);
    law_stripping_splits_outside_tags(before, seq!['<'] + rest);
    assert(before + seq!['<'] + rest == before + (seq!['<'] + rest));
    assert(visible(before) + Seq::<char>::empty() == visible(before));
}

/// Reading from the left, text stays up to the first opening bracket; from there everything goes
/// up to the next closing bracket, or up to the end where there is none; and what follows is read
/// in the same way.
pub proof fn law_tags_go_from_left_to_right(
    plain: Seq<char>,
    body: Seq<char>,
    rest: Seq<char>,
)
    requires
        !plain.contains('<'),
        !body.contains('>'),
    ensures
        visible(plain) == plain,
        visible(plain + seq!['<'] + body) == plain,
        visible(plain + seq!['<'] + body + seq!['>'] + rest) == plain + visible(rest),
{
    law_text_without_tags_is_kept(plain);
    law_unclosed_tag_swallows_the_rest(plain, body);
    law_tag_disappears(plain, body, rest);
}

} // verus!
