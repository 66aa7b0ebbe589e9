//! Tokens, byte ranges and edits: the values exchanged with the host editor.

use vstd::prelude::*;

verus! {

/// A half-open interval `[start, end)` of byte offsets.
#[derive(Clone, Copy, Debug, PartialEq, Eq, Structural)]
pub struct TextRange {
    pub start: usize,
    pub end: usize,
}

/// What the lexer said a token is. Only string literals matter here.
#[derive(Clone, Copy, Debug, PartialEq, Eq, Structural)]
pub enum TokenKind {
    /// A plain string literal, `"..."`, in which escapes are interpreted.
    Str,
    /// A raw string literal, `r"..."`, `r#"..."#`, and so on.
    RawStr,
    /// Any other token.
    Other,
}

/// A lexical unit of the document: its kind, its exact spelling with the
/// delimiters, and the bytes of the document that it covers.
#[derive(Clone, Debug, PartialEq, Eq)]
pub struct Token {
    kind: TokenKind,
    text: String,
    range: TextRange,
}

/// The mathematical content of a [`Token`].
pub ghost struct TokenView {
    pub kind: TokenKind,
    pub text: Seq<char>,
    pub range: TextRange,
}

impl View for Token {
    type V = TokenView;

    closed spec fn view(&self) -> TokenView {
        TokenView { kind: self.kind, text: self.text@, range: self.range }
    }
}

impl Token {
    /// The token of the given kind and spelling at the given place.
    pub fn new(kind: TokenKind, text: String, range: TextRange) -> (token: Token)
        ensures
            token@ == (TokenView { kind, text: text@, range }),
    {
        Token { kind, text, range }
    }

    /// What the lexer said the token is.
    pub fn kind(&self) -> (kind: TokenKind)
        ensures
            kind == self@.kind,
    {
        self.kind
    }

    /// The exact spelling of the token, delimiters included.
    pub fn text(&self) -> (text: &str)
        ensures
            text@ == self@.text,
    {
        self.text.as_str()
    }

    /// The bytes of the document that the token covers.
    pub fn range(&self) -> (range: TextRange)
        ensures
            range == self@.range,
    {
        self.range
    }
}

/// A replacement of the bytes in `target` by `replacement`. The library only
/// describes edits; applying one to the document is the host's business.
#[derive(Clone, Debug, PartialEq, Eq)]
pub struct Edit {
    pub target: TextRange,
    pub replacement: String,
}

} // verus!
