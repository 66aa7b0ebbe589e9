//! The four conversions of a string literal token.
//!
//! Each takes the token under the cursor and answers with the edit that
//! performs the conversion, or with `None` where the conversion does not
//! apply: the token is of another kind, or its text is not a literal with an
//! opening and a closing quote.

use vstd::prelude::*;
use vstd::string::*;
use crate::chars::{chars_of, push_char};
use crate::content::{holds_quote, lemma_quote_span, payload, payload_of, quote_indices};
use crate::escape::{escape_default, escaped};
use crate::hashes::{count_hashes, fence_width, hashes};
use crate::token::{Edit, Token, TokenKind};
use crate::unescape::{decoded, try_unescape};

verus! {

/// The raw string literal with a fence of `width` hashes around `content`:
/// `r`, the fence, `"`, the content as it is, `"`, and the fence again.
pub open spec fn fenced(width: nat, content: Seq<char>) -> Seq<char> {
    seq!['r'] + hashes(width) + seq!['"'] + content + seq!['"'] + hashes(width)
}

/// The raw string literal for `content`, with the fence that it needs.
pub open spec fn raw_literal(content: Seq<char>) -> Seq<char> {
    fenced(fence_width(content), content)
}

/// The plain string literal for `content`: the escaped content in quotes.
pub open spec fn plain_literal(content: Seq<char>) -> Seq<char> {
    seq!['"'] + escaped(content) + seq!['"']
}

/// The raw literal for what the plain literal `text` denotes. There is none
/// where `text` has no payload or the payload cannot be decoded.
pub open spec fn to_raw(text: Seq<char>) -> Option<Seq<char>> {
    match payload(text) {
        Some(inside) => match decoded(inside) {
            Some(content) => Some(raw_literal(content)),
            None => None,
        },
        None => None,
    }
}

/// The plain literal for the payload of the raw literal `text`.
pub open spec fn to_plain(text: Seq<char>) -> Option<Seq<char>> {
    match payload(text) {
        Some(inside) => Some(plain_literal(inside)),
        None => None,
    }
}

/// `text` with one `#` more behind its leading `r` and at its end.
pub open spec fn grow_fence(text: Seq<char>) -> Option<Seq<char>> {
    if payload(text) is Some && text[0] == 'r' {
        Some(seq!['r', '#'] + text.skip(1) + seq!['#'])
    } else {
        None
    }
}

/// `text` without the `#` behind its leading `r` and without the one at its
/// end. Where that was the only `#` of the fence, a quote in the payload
/// would end a raw literal early: a payload that holds one is written as a
/// plain literal instead, escaped, and one that holds none stays raw.
pub open spec fn shrink_fence(text: Seq<char>) -> Option<Seq<char>> {
    match payload(text) {
        Some(inside) => if text[0] == 'r' && text[1] == '#' && text.last() == '#' {
            if text[2] == '"' {
                if inside.contains('"') {
                    Some(plain_literal(inside))
                } else {
                    Some(fenced(0, inside))
                }
            } else {
                Some(seq!['r'] + text.subrange(2, text.len() - 1))
            }
        } else {
            None
        },
        None => None,
    }
}

/// Appends `n` times `#` to `out`.
fn push_hashes(out: &mut String, n: usize)
    ensures
        final(out)@ == old(out)@ + hashes(n as nat),
{
    let mut i: usize = 0;
    while i < n
        invariant
            i <= n,
            out@ == old(out)@ + hashes(i as nat),
        decreases n - i,
    {
        push_char(out, '#');
        i += 1;
    }
}

/// The raw string literal whose content is `content`, with the narrowest
/// fence of at least one `#` that the content does not close.
pub fn raw_string_literal(content: &str) -> (literal: String)
    ensures
        literal@ == raw_literal(content@),
{
    let width: usize = count_hashes(content) + 1;
    let mut literal = String::new();
    push_char(&mut literal, 'r');
    push_hashes(&mut literal, width);
    push_char(&mut literal, '"');
    literal.append(content);
    push_char(&mut literal, '"');
    push_hashes(&mut literal, width);
    literal
}

/// The plain string literal that denotes `content`.
pub fn plain_string_literal(content: &str) -> (literal: String)
    ensures
        literal@ == plain_literal(content@),
{
    let mut literal = String::new();
    push_char(&mut literal, '"');
    literal.append(escape_default(content).as_str());
    push_char(&mut literal, '"');
    literal
}

/// Turns a plain string literal into a raw one that denotes the same
/// characters. Declines if the payload holds an escape that cannot be
/// decoded.
pub fn make_raw_string(token: &Token) -> (r: Option<Edit>)
    ensures
        r is Some <==> token@.kind == TokenKind::Str && to_raw(token@.text) is Some,
        r matches Some(edit) ==> edit.target == token@.range && Some(edit.replacement@) == to_raw(
            token@.text,
        ),
{
    match token.kind() {
        TokenKind::Str => {},
        _ => {
            return None;
        },
    }
    match payload_of(token.text()) {
        None => None,
        Some(inside) => match try_unescape(inside) {
            None => None,
            Some(content) => Some(
                Edit {
                    target: token.range(),
                    replacement: raw_string_literal(content.as_str()),
                },
            ),
        },
    }
}

/// Turns a raw string literal into a plain one, escaping its payload.
pub fn make_usual_string(token: &Token) -> (r: Option<Edit>)
    ensures
        r is Some <==> token@.kind == TokenKind::RawStr && to_plain(token@.text) is Some,
        r matches Some(edit) ==> edit.target == token@.range && Some(edit.replacement@)
            == to_plain(token@.text),
{
    match token.kind() {
        TokenKind::RawStr => {},
        _ => {
            return None;
        },
    }
    match payload_of(token.text()) {
        None => None,
        Some(inside) => Some(
            Edit { target: token.range(), replacement: plain_string_literal(inside) },
        ),
    }
}

/// Adds one `#` to each side of a raw string literal.
pub fn add_hash(token: &Token) -> (r: Option<Edit>)
    ensures
        r is Some <==> token@.kind == TokenKind::RawStr && grow_fence(token@.text) is Some,
        r matches Some(edit) ==> edit.target == token@.range && Some(edit.replacement@)
            == grow_fence(token@.text),
{
    match token.kind() {
        TokenKind::RawStr => {},
        _ => {
            return None;
        },
    }
    let text = token.text();
    let chars = chars_of(text);
    match quote_indices(&chars) {
        None => None,
        Some(_) => {
            if chars[0] != 'r' {
                return None;
            }
            let mut replacement = String::new();
            push_char(&mut replacement, 'r');
            push_char(&mut replacement, '#');
            replacement.append(text.substring_char(1, chars.len()));
            push_char(&mut replacement, '#');
            Some(Edit { target: token.range(), replacement })
        },
    }
}

/// Removes one `#` from each side of a raw string literal that has one. If
/// it was the last and the payload holds a quote, the literal becomes a plain
/// one.
pub fn remove_hash(token: &Token) -> (r: Option<Edit>)
    ensures
        r is Some <==> token@.kind == TokenKind::RawStr && shrink_fence(token@.text) is Some,
        r matches Some(edit) ==> edit.target == token@.range && Some(edit.replacement@)
            == shrink_fence(token@.text),
{
    match token.kind() {
        TokenKind::RawStr => {},
        _ => {
            return None;
        },
    }
    let text = token.text();
    let chars = chars_of(text);
    match quote_indices(&chars) {
        None => None,
        Some((first, last)) => {
            proof {
                lemma_quote_span(chars@);
            }
            if chars[0] != 'r' || chars[1] != '#' || chars[chars.len() - 1] != '#' {
                return None;
            }
            let replacement = if first != 2 {
                let mut stripped = String::new();
                push_char(&mut stripped, 'r');
                stripped.append(text.substring_char(2, chars.len() - 1));
                stripped
            } else if holds_quote(&chars, first + 1, last) {
                plain_string_literal(text.substring_char(first + 1, last))
            } else {
                let mut bare = String::new();
                push_char(&mut bare, 'r');
                push_char(&mut bare, '"');
                bare.append(text.substring_char(first + 1, last));
                push_char(&mut bare, '"');
                proof {
                    assert(bare@ =~= fenced(0, chars@.subrange(first as int + 1, last as int)));
                }
                bare
            };
            Some(Edit { target: token.range(), replacement })
        },
    }
}

} // verus!
