//! Conversions between plain and raw string literal tokens.
//!
//! A token is handed in as its exact spelling together with its kind and its
//! place in the document; every operation either declines (`None`) or returns
//! the text that should replace the token.

pub mod assists;
pub mod chars;
pub mod content;
pub mod escape;
pub mod hashes;
pub mod laws;
pub mod token;
pub mod unescape;
