//! What holds of the conversions taken together.

use vstd::prelude::*;
use crate::assists::{
    fenced,
    grow_fence,
    plain_literal,
    raw_literal,
    shrink_fence,
    to_plain,
    to_raw,
};
use crate::content::{
    is_quote_span,
    lemma_payload_between,
    lemma_quote_span,
    lemma_quote_span_unique,
    payload,
    quote_span,
};
use crate::escape::escaped;
use crate::hashes::{closing_fence, contains_fence, fence_at, fence_width, hashes, lemma_fence_minimal};
use crate::unescape::decoded;

verus! {

/// The payload of a raw literal is its content, also where the content
/// holds quotes.
pub proof fn lemma_fenced_payload(width: nat, content: Seq<char>)
    ensures
        payload(fenced(width, content)) == Some(content),
{
    let fence = hashes(width);
    assert(!(seq!['r'] + fence).contains('"'));
    assert(!fence.contains('"'));
    lemma_payload_between(seq!['r'] + fence, content, fence);
}

/// A raw literal ends where it should, if its content does not hold the
/// closing fence of its width. Behind the opening quote, that fence stands
/// at the closing quote and nowhere before: nothing in the content ends the
/// literal early.
pub proof fn lemma_fenced_closes_at_end(width: nat, content: Seq<char>)
    requires
        !contains_fence(content, width),
    ensures
        ({
            let open = 2 + width as int;
            &&& fenced(width, content).len() == open + content.len() + 1 + width
            &&& fence_at(fenced(width, content), width, open + content.len())
            &&& forall|i: int|
                open <= i && #[trigger] fence_at(fenced(width, content), width, i) ==> i == open
                    + content.len()
        }),
{
    let literal = fenced(width, content);
    let open = 2 + width as int;
    let close = open + content.len() as int;
    assert(literal.subrange(close, close + 1 + width) =~= closing_fence(width));
    assert forall|i: int| open <= i && #[trigger] fence_at(literal, width, i) implies i
        == close by {
        let found = literal.subrange(i, i + 1 + width);
        assert(found[0] == '"' && found[0] == literal[i]);
        if i < close {
            if i + 1 + width <= close {
                assert(content.subrange(i - open, i - open + 1 + width) =~= found);
                assert(fence_at(content, width, i - open));
            } else {
                assert(found[close - i] == '#' && found[close - i] == literal[close]);
            }
        } else if i > close {
            assert(literal[i] == '#');
        }
    }
}

/// The raw literal that is made for `content` ends where it should: its
/// fence is one that the content does not hold.
pub proof fn lemma_raw_literal_closes_at_end(content: Seq<char>)
    ensures
        ({
            let width = fence_width(content);
            let close = 2 + width as int + content.len();
            &&& fence_at(raw_literal(content), width, close)
            &&& forall|i: int|
                2 + width <= i && #[trigger] fence_at(raw_literal(content), width, i) ==> i
                    == close
        }),
{
    lemma_fence_minimal(content);
    lemma_fenced_closes_at_end(fence_width(content), content);
}

/// The payload of the plain literal for `content` is the escaped `content`.
pub proof fn lemma_plain_literal_payload(content: Seq<char>)
    ensures
        payload(plain_literal(content)) == Some(escaped(content)),
{
    let empty = Seq::<char>::empty();
    lemma_payload_between(empty, escaped(content), empty);
    assert(plain_literal(content) =~= empty + seq!['"'] + escaped(content) + seq!['"'] + empty);
}

/// From plain to raw and back. Where a plain literal can be made raw, the
/// raw literal holds as its payload exactly the characters that the plain
/// one denotes, and making that raw literal plain again gives those
/// characters, escaped, in quotes.
pub proof fn lemma_raw_then_plain(text: Seq<char>)
    requires
        to_raw(text) is Some,
    ensures
        payload(to_raw(text).unwrap()) == decoded(payload(text).unwrap()),
        to_plain(to_raw(text).unwrap()) == Some(
            plain_literal(decoded(payload(text).unwrap()).unwrap()),
        ),
        payload(to_plain(to_raw(text).unwrap()).unwrap()) == Some(
            escaped(decoded(payload(text).unwrap()).unwrap()),
        ),
{
    let content = decoded(payload(text).unwrap()).unwrap();
    lemma_fenced_payload(fence_width(content), content);
    lemma_plain_literal_payload(content);
}

/// Growing makes the fence of a raw literal one hash wider and leaves the
/// content alone.
pub proof fn lemma_grow_fenced(width: nat, content: Seq<char>)
    ensures
        grow_fence(fenced(width, content)) == Some(fenced(width + 1, content)),
{
    lemma_fenced_payload(width, content);
    let grown = seq!['r', '#'] + fenced(width, content).skip(1) + seq!['#'];
    assert(grown =~= fenced(width + 1, content));
}

/// Shrinking takes one hash from the fence of a raw literal and leaves the
/// content alone, but for one case: where the last hash goes and the content
/// holds a quote, the result is the plain literal for the content.
pub proof fn lemma_shrink_fenced(width: nat, content: Seq<char>)
    ensures
        shrink_fence(fenced(width + 1, content)) == Some(
            if width == 0 && content.contains('"') {
                plain_literal(content)
            } else {
                fenced(width, content)
            },
        ),
{
    let text = fenced(width + 1, content);
    lemma_fenced_payload(width + 1, content);
    if width > 0 {
        assert(text[2] == '#');
        assert(seq!['r'] + text.subrange(2, text.len() - 1) =~= fenced(width, content));
    }
}

/// Where the last hash goes, what is left is a literal that holds the
/// content. Without a quote in the content it is the raw literal without
/// hashes, which has the content as its payload and ends at its closing
/// quote and nowhere before. With a quote in the content it is a plain
/// literal, whose payload is the content, escaped.
pub proof fn lemma_shrink_last_hash(content: Seq<char>)
    ensures
        !content.contains('"') ==> {
            &&& shrink_fence(fenced(1, content)) == Some(fenced(0, content))
            &&& payload(fenced(0, content)) == Some(content)
            &&& forall|i: int|
                2 <= i && #[trigger] fence_at(fenced(0, content), 0, i) ==> i == 2 + content.len()
        },
        content.contains('"') ==> {
            &&& shrink_fence(fenced(1, content)) == Some(plain_literal(content))
            &&& payload(plain_literal(content)) == Some(escaped(content))
        },
{
    lemma_shrink_fenced(0, content);
    lemma_fenced_payload(0, content);
    lemma_plain_literal_payload(content);
    if !content.contains('"') {
        lemma_fence_minimal(content);
        lemma_fenced_closes_at_end(0, content);
    }
}

/// Where hashes are left, shrinking leaves a raw literal that holds the
/// content and ends at its closing quote and nowhere before, if the content
/// does not hold the closing fence of the narrower width.
pub proof fn lemma_shrink_stays_closed(width: nat, content: Seq<char>)
    requires
        width >= 1,
        !contains_fence(content, width),
    ensures
        shrink_fence(fenced(width + 1, content)) == Some(fenced(width, content)),
        payload(fenced(width, content)) == Some(content),
        forall|i: int|
            2 + width <= i && #[trigger] fence_at(fenced(width, content), width, i) ==> i == 2
                + width + content.len(),
{
    lemma_shrink_fenced(width, content);
    lemma_fenced_payload(width, content);
    lemma_fenced_closes_at_end(width, content);
}

/// Growing the fence and then shrinking it gives back the raw literal that
/// one began with, fence and content. A raw literal without hashes cannot
/// hold a quote, which is all that is asked of the literal here.
pub proof fn lemma_grow_then_shrink(width: nat, content: Seq<char>)
    requires
        width == 0 ==> !content.contains('"'),
    ensures
        grow_fence(fenced(width, content)) == Some(fenced(width + 1, content)),
        shrink_fence(fenced(width + 1, content)) == Some(fenced(width, content)),
{
    lemma_grow_fenced(width, content);
    lemma_shrink_fenced(width, content);
}

/// Growing and then shrinking, for any text that can be grown. The result of
/// growing can be shrunk, and growing has left the payload alone. Shrinking
/// gives back the very text that was grown if that text had something
/// between its `r` and its first quote. If it had nothing there, what comes
/// back is made of its payload alone: the raw literal without hashes, or
/// the plain literal where the payload holds a quote.
pub proof fn lemma_grow_then_shrink_text(text: Seq<char>)
    requires
        grow_fence(text) is Some,
    ensures
        payload(grow_fence(text).unwrap()) == payload(text),
        shrink_fence(grow_fence(text).unwrap()) == Some(
            if text[1] != '"' {
                text
            } else if payload(text).unwrap().contains('"') {
                plain_literal(payload(text).unwrap())
            } else {
                fenced(0, payload(text).unwrap())
            },
        ),
{
    lemma_quote_span(text);
    let grown = grow_fence(text).unwrap();
    let (first, last) = quote_span(text).unwrap();
    assert(is_quote_span(grown, first + 1, last + 1)) by {
        assert forall|k: int| 0 <= k < first + 1 implies grown[k] != '"' by {
            if k >= 2 {
                assert(grown[k] == text[k - 1]);
            }
        }
        assert forall|k: int| last + 1 < k < grown.len() implies grown[k] != '"' by {
            if k < grown.len() - 1 {
                assert(grown[k] == text[k - 1]);
            }
        }
        assert(grown[first + 1] == text[first]);
        assert(grown[last + 1] == text[last]);
    }
    lemma_quote_span_unique(grown, first + 1, last + 1);
    assert(grown.subrange(first + 2, last + 1) =~= text.subrange(first + 1, last));
    assert(grown[2] == text[1]);
    if text[1] != '"' {
        assert(seq!['r'] + grown.subrange(2, grown.len() - 1) =~= text);
    }
}

/// A text with fewer than two quotes, such as a literal whose closing quote
/// has not been typed yet, has no payload, and no conversion applies to it.
pub proof fn lemma_unterminated_declines(text: Seq<char>)
    requires
        forall|i: int, j: int| 0 <= i < j < text.len() ==> !(text[i] == '"' && text[j] == '"'),
    ensures
        payload(text) is None,
        to_raw(text) is None,
        to_plain(text) is None,
        grow_fence(text) is None,
        shrink_fence(text) is None,
{
    lemma_quote_span(text);
}

} // verus!
