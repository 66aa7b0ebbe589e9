//! Decoding the escapes of a plain string literal.
//!
//! The escape grammar is that of the language's lexer, so decoding is left
//! to `rustc_lexer`. What the lexer reports is taken as given; what is done
//! with it is verified here.

use vstd::prelude::*;
use rustc_lexer::unescape::EscapeError;
use crate::chars::push_char;

verus! {

/// The lexer's reason for rejecting an escape. The library never looks
/// inside: any error makes the payload undecodable.
#[verifier::external_type_specification]
#[verifier::external_body]
pub struct ExEscapeError(rustc_lexer::unescape::EscapeError);

/// What `rustc_lexer::unescape::unescape_str` reports for `payload`, piece
/// by piece and in order: the character that a piece of the payload stands
/// for, or `None` where the lexer reports an error for that piece.
pub uninterp spec fn unescaped(payload: Seq<char>) -> Seq<Option<char>>;

/// Every piece was decoded.
pub open spec fn all_decoded(pieces: Seq<Option<char>>) -> bool {
    forall|i: int| 0 <= i < pieces.len() ==> (#[trigger] pieces[i]) is Some
}

/// The characters of the pieces, if every piece was decoded.
pub open spec fn collected(pieces: Seq<Option<char>>) -> Option<Seq<char>> {
    if all_decoded(pieces) {
        Some(Seq::new(pieces.len(), |i: int| pieces[i].unwrap()))
    } else {
        None
    }
}

/// The characters that a payload denotes, if all of it can be decoded.
pub open spec fn decoded(payload: Seq<char>) -> Option<Seq<char>> {
    collected(unescaped(payload))
}

/// Notes one report of the lexer: the character, or that there was an error.
fn record(pieces: &mut Vec<Option<char>>, piece: Result<char, EscapeError>)
    ensures
        final(pieces)@ == old(pieces)@.push(
            match piece {
                Ok(c) => Some(c),
                Err(_) => None,
            },
        ),
{
    match piece {
        Ok(c) => pieces.push(Some(c)),
        Err(_) => pieces.push(None),
    }
}

/// Runs `rustc_lexer::unescape::unescape_str` on `payload` and returns its
/// reports in the order in which it made them. The contract only gives the
/// result its name, `unescaped`: that the lexer's reports depend on the
/// payload alone is what is trusted here.
#[verifier::external_body]
fn unescape_str(payload: &str) -> (pieces: Vec<Option<char>>)
    ensures
        pieces@ == unescaped(payload@),
{
    let mut pieces = Vec::new();
    rustc_lexer::unescape::unescape_str(payload, &mut |_, piece| record(&mut pieces, piece));
    pieces
}

/// The decoded characters as a string, unless some piece is an error.
pub fn collect_decoded(pieces: &Vec<Option<char>>) -> (r: Option<String>)
    ensures
        match r {
            Some(content) => collected(pieces@) == Some(content@),
            None => collected(pieces@) is None,
        },
{
    let mut content = String::new();
    let mut i: usize = 0;
    while i < pieces.len()
        invariant
            i <= pieces.len(),
            content@.len() == i,
            forall|k: int| 0 <= k < i ==> #[trigger] pieces@[k] == Some(content@[k]),
        decreases pieces.len() - i,
    {
        match pieces[i] {
            Some(c) => push_char(&mut content, c),
            None => {
                return None;
            },
        }
        i += 1;
    }
    assert(content@ =~= Seq::new(pieces@.len(), |i: int| pieces@[i].unwrap()));
    Some(content)
}

/// Decodes the escapes of `payload`, the inside of a plain string literal.
/// Fails as a whole if any part of it cannot be decoded.
pub fn try_unescape(payload: &str) -> (r: Option<String>)
    ensures
        match r {
            Some(content) => decoded(payload@) == Some(content@),
            None => decoded(payload@) is None,
        },
{
    let pieces = unescape_str(payload);
    collect_decoded(&pieces)
}

} // verus!
