//! Where the payload of a string literal lies: between the first and the
//! last double quote of the token's text.

use vstd::prelude::*;
use vstd::string::*;
use vstd::utf8::*;
use crate::chars::{byte_len, byte_offset, chars_of, lemma_byte_len_at_least, lemma_encode_push};
use crate::token::TextRange;

verus! {

/// The indices of the first and of the last `"` in `text`, if these are two
/// different characters. A text with no quote, or with a single one (a
/// literal that is still being typed), has no span.
pub open spec fn quote_span(text: Seq<char>) -> Option<(int, int)> {
    match (text.index_of_first('"'), text.index_of_last('"')) {
        (Some(first), Some(last)) => if first < last {
            Some((first, last))
        } else {
            None
        },
        _ => None,
    }
}

/// The characters strictly between the first and the last `"` of `text`.
pub open spec fn payload(text: Seq<char>) -> Option<Seq<char>> {
    match quote_span(text) {
        Some((first, last)) => Some(text.subrange(first + 1, last)),
        None => None,
    }
}

/// `first` and `last` are the first and the last `"` of `text`.
pub open spec fn is_quote_span(text: Seq<char>, first: int, last: int) -> bool {
    &&& 0 <= first <= last < text.len()
    &&& text[first] == '"'
    &&& text[last] == '"'
    &&& forall|k: int| 0 <= k < first ==> text[k] != '"'
    &&& forall|k: int| last < k < text.len() ==> text[k] != '"'
}

/// `quote_span` in terms of the characters: it is the one pair of a first
/// and a last quote, when these differ, and nothing when the text holds
/// fewer than two quotes.
pub proof fn lemma_quote_span(text: Seq<char>)
    ensures
        match quote_span(text) {
            Some((first, last)) => first < last && is_quote_span(text, first, last),
            None => forall|i: int, j: int|
                0 <= i < j < text.len() ==> !(text[i] == '"' && text[j] == '"'),
        },
{
    text.index_of_first_ensures('"');
    text.index_of_last_ensures('"');
}

/// Whoever is a first and a last quote is what `quote_span` speaks of.
pub proof fn lemma_quote_span_unique(text: Seq<char>, first: int, last: int)
    requires
        is_quote_span(text, first, last),
    ensures
        text.index_of_first('"') == Some(first),
        text.index_of_last('"') == Some(last),
        quote_span(text) == if first < last {
            Some((first, last))
        } else {
            None
        },
{
    text.index_of_first_ensures('"');
    text.index_of_last_ensures('"');
}

/// Finds the first and the last `"` in one pass.
pub fn quote_indices(chars: &Vec<char>) -> (r: Option<(usize, usize)>)
    ensures
        match r {
            Some((first, last)) => {
                &&& quote_span(chars@) == Some((first as int, last as int))
                &&& first < last < chars.len()
            },
            None => quote_span(chars@) is None,
        },
{
    let mut first: usize = 0;
    let mut last: usize = 0;
    let mut seen: bool = false;
    let mut i: usize = 0;
    while i < chars.len()
        invariant
            i <= chars.len(),
            !seen ==> forall|k: int| 0 <= k < i ==> chars@[k] != '"',
            seen ==> first <= last < i && chars@[first as int] == '"' && chars@[last as int]
                == '"',
            seen ==> forall|k: int| 0 <= k < first ==> chars@[k] != '"',
            seen ==> forall|k: int| last < k < i ==> chars@[k] != '"',
        decreases chars.len() - i,
    {
        if chars[i] == '"' {
            if !seen {
                first = i;
                seen = true;
            }
            last = i;
        }
        i += 1;
    }
    proof {
        chars@.index_of_first_ensures('"');
        chars@.index_of_last_ensures('"');
    }
    if seen && first < last {
        Some((first, last))
    } else {
        None
    }
}

/// Whether a `"` stands among `chars[from..to]`.
pub(crate) fn holds_quote(chars: &Vec<char>, from: usize, to: usize) -> (found: bool)
    requires
        from <= to <= chars.len(),
    ensures
        found == chars@.subrange(from as int, to as int).contains('"'),
{
    let ghost part = chars@.subrange(from as int, to as int);
    let mut i: usize = from;
    while i < to
        invariant
            from <= i <= to <= chars.len(),
            part == chars@.subrange(from as int, to as int),
            forall|k: int| 0 <= k < i - from ==> part[k] != '"',
        decreases to - i,
    {
        if chars[i] == '"' {
            assert(part[i - from] == '"');
            return true;
        }
        i += 1;
    }
    false
}

/// The payload of `text`, as a slice of it.
pub fn payload_of(text: &str) -> (r: Option<&str>)
    ensures
        match r {
            Some(inside) => payload(text@) == Some(inside@),
            None => payload(text@) is None,
        },
{
    let chars = chars_of(text);
    match quote_indices(&chars) {
        None => None,
        Some((first, last)) => Some(text.substring_char(first + 1, last)),
    }
}

/// The byte range of the payload inside `s`: from just behind the first `"`
/// up to the last `"`. `None` when `s` holds fewer than two quotes.
pub fn find_usual_string_range(s: &str) -> (r: Option<TextRange>)
    ensures
        match r {
            Some(range) => {
                &&& quote_span(s@) matches Some((first, last))
                &&& range.start == byte_len(s@.take(first)) + 1
                &&& range.end == byte_len(s@.take(last))
                &&& range.start <= range.end <= byte_len(s@)
                &&& encode_utf8(s@).subrange(range.start as int, range.end as int)
                    == encode_utf8(payload(s@).unwrap())
            },
            None => quote_span(s@) is None,
        },
{
    // Two quotes take two bytes at least. The length of the encoding is a
    // `usize`, so every offset into it is one too.
    if s.as_bytes().len() < 2 {
        proof {
            lemma_byte_len_at_least(s@);
            lemma_quote_span(s@);
        }
        return None;
    }
    let chars = chars_of(s);
    match quote_indices(&chars) {
        None => None,
        Some((first, last)) => {
            let before: usize = byte_offset(&chars, first);
            let end: usize = byte_offset(&chars, last);
            proof {
                lemma_quote_span(chars@);
                lemma_payload_bytes(chars@, first as int, last as int);
            }
            Some(TextRange { start: before + 1, end })
        },
    }
}

/// The encoding of a concatenation is the concatenation of the encodings.
pub proof fn lemma_encode_concat(a: Seq<char>, b: Seq<char>)
    ensures
        encode_utf8(a + b) == encode_utf8(a) + encode_utf8(b),
    decreases b.len(),
{
    if b.len() == 0 {
        assert(a + b =~= a);
        assert(encode_utf8(a) + encode_utf8(b) =~= encode_utf8(a));
    } else {
        assert(a + b =~= (a + b.drop_last()).push(b.last()));
        assert(b =~= b.drop_last().push(b.last()));
        lemma_encode_concat(a, b.drop_last());
        lemma_encode_push(a + b.drop_last(), b.last());
        lemma_encode_push(b.drop_last(), b.last());
        assert(encode_utf8(a + b) =~= encode_utf8(a) + encode_utf8(b));
    }
}

/// Between two quotes at `first < last`, the bytes from just behind the
/// first quote up to the second are the encoding of the characters between
/// them.
pub proof fn lemma_payload_bytes(text: Seq<char>, first: int, last: int)
    requires
        0 <= first < last < text.len(),
        text[first] == '"',
    ensures
        byte_len(text.take(first)) + 1 <= byte_len(text.take(last)) <= byte_len(text),
        encode_utf8(text).subrange(
            byte_len(text.take(first)) as int + 1,
            byte_len(text.take(last)) as int,
        )
            == encode_utf8(text.subrange(first + 1, last)),
{
    let head = text.take(first);
    let quote = seq!['"'];
    let middle = text.subrange(first + 1, last);
    let tail = text.skip(last);
    assert(text =~= ((head + quote) + middle) + tail);
    assert(text.take(last) =~= (head + quote) + middle);
    lemma_encode_concat(head, quote);
    lemma_encode_concat(head + quote, middle);
    lemma_encode_concat((head + quote) + middle, tail);
    assert(encode_utf8(quote) =~= encode_scalar('"' as u32)) by {
        reveal_with_fuel(encode_utf8, 2);
        assert(quote.drop_first() =~= Seq::<char>::empty());
    }
    assert(encode_scalar('"' as u32).len() == 1);
    assert(encode_utf8(text).subrange(
        byte_len(text.take(first)) as int + 1,
        byte_len(text.take(last)) as int,
    ) =~= encode_utf8(middle));
}

/// Between a prefix and a suffix that hold no quote, the payload of
/// `prefix"inside"suffix` is `inside`, whatever `inside` holds.
pub proof fn lemma_payload_between(prefix: Seq<char>, inside: Seq<char>, suffix: Seq<char>)
    requires
        !prefix.contains('"'),
        !suffix.contains('"'),
    ensures
        payload(prefix + seq!['"'] + inside + seq!['"'] + suffix) == Some(inside),
{
    let text = prefix + seq!['"'] + inside + seq!['"'] + suffix;
    let first = prefix.len() as int;
    let last = first + 1 + inside.len();
    assert forall|k: int| 0 <= k < first implies text[k] != '"' by {
        assert(text[k] == prefix[k]);
    }
    assert forall|k: int| last < k < text.len() implies text[k] != '"' by {
        assert(text[k] == suffix[k - last - 1]);
    }
    lemma_quote_span_unique(text, first, last);
    assert(text.subrange(first + 1, last) =~= inside);
}

} // verus!
