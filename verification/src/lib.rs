//! Typed client core for the kanjiapi.dev kanji lexicon service.
//!
//! The library maps a request variant to its endpoint path, parses a JSON
//! response body, and types the parsed value according to the variant that
//! produced it.  The network exchange itself lives outside the library.

pub mod dispatch;
pub mod endpoint;
pub mod extract;
pub mod json;
pub mod laws;
pub mod model;
pub mod text;

pub use dispatch::parse_response;
pub use endpoint::{endpoint, url_for};
pub use model::{KanjiDetail, KanjiError, KanjiResult, Meaning, Variant, Word};

use vstd::prelude::*;

verus! {

/// The closed set of request kinds the service answers.
#[derive(Debug)]
pub enum KanjiResponse {
    SingleKanji(char),
    Jouyou,
    Jinmeiyo,
    All,
    Grade(u8),
    Jlpt(u8),
    Words(char),
}

} // verus!
