//! The typed shapes a response can take, the tagged result union, and the
//! error taxonomy.

use vstd::prelude::*;

verus! {

/// One kanji's metadata, as the single-kanji endpoint reports it.
#[derive(Debug)]
pub struct KanjiDetail {
    /// Frequency rank in the Mainichi Shinbun corpus, when ranked.
    pub frequency: Option<u64>,
    /// School grade the kanji is taught in, when taught.
    pub grade: Option<u8>,
    /// Heisig mnemonic keyword, when one exists.
    pub heisig_en: Option<String>,
    /// JLPT level; mandatory in the wire schema.
    pub jlpt: u8,
    /// The character itself.
    pub kanji: String,
    /// Kun readings, in source order.
    pub kunyomi: Vec<String>,
    /// Meanings, in source order.
    pub meaning: Vec<String>,
    /// Name readings, in source order.
    pub name_readings: Vec<String>,
    /// Notes, in source order.
    pub notes: Vec<String>,
    /// On readings, in source order.
    pub onyomi: Vec<String>,
    /// Stroke count, when given.
    pub strokecount: Option<u8>,
    /// The Unicode codepoint rendering, e.g. `4e00`.
    pub unicode: String,
}

/// One sense of a word: its gloss strings in source order.
#[derive(Debug)]
pub struct Meaning {
    pub glosses: Vec<String>,
}

/// One written/pronounced form of a word.
#[derive(Debug)]
pub struct Variant {
    pub priorities: Vec<String>,
    pub pronounced: String,
    pub written: String,
}

/// A lexical entry of the word endpoint.
#[derive(Debug)]
pub struct Word {
    pub meanings: Vec<Meaning>,
    pub variants: Vec<Variant>,
}

/// The error taxonomy: a transport failure, a response body that does not
/// match the expected shape, or a narrowing applied to the wrong tag.
#[derive(Debug)]
pub enum KanjiError {
    Network(String),
    Deserialization(String),
    TypeMismatch(String),
}

/// A response, tagged by the shape the producing request variant dictates.
#[derive(Debug)]
pub enum KanjiResult {
    KanjiDetail(KanjiDetail),
    KanjiChars(Vec<String>),
    Words(Vec<Word>),
}

impl KanjiResult {
    /// The name of the tag a result carries.
    pub open spec fn tag_str(self) -> Seq<char> {
        match self {
            KanjiResult::KanjiDetail(_) => "KanjiDetail"@,
            KanjiResult::KanjiChars(_) => "KanjiChars"@,
            KanjiResult::Words(_) => "Words"@,
        }
    }

    fn tag_name(&self) -> (r: String)
        ensures
            r@ == self.tag_str(),
    {
        match self {
            KanjiResult::KanjiDetail(_) => "KanjiDetail".to_owned(),
            KanjiResult::KanjiChars(_) => "KanjiChars".to_owned(),
            KanjiResult::Words(_) => "Words".to_owned(),
        }
    }

    /// Narrows to the single-kanji payload; any other tag is reported back
    /// by name in a `TypeMismatch` error.
    pub fn into_kanji_detail(self) -> (r: Result<KanjiDetail, KanjiError>)
        ensures
            match self {
                KanjiResult::KanjiDetail(d) => r matches Ok(o) && o == d,
                _ => r matches Err(KanjiError::TypeMismatch(m)) && m@ == self.tag_str(),
            },
    {
        match self {
            KanjiResult::KanjiDetail(detail) => Ok(detail),
            other => Err(KanjiError::TypeMismatch(other.tag_name())),
        }
    }

    /// Narrows to the character-list payload; any other tag is reported back
    /// by name in a `TypeMismatch` error.
    pub fn into_kanji_chars(self) -> (r: Result<Vec<String>, KanjiError>)
        ensures
            match self {
                KanjiResult::KanjiChars(cs) => r matches Ok(o) && o == cs,
                _ => r matches Err(KanjiError::TypeMismatch(m)) && m@ == self.tag_str(),
            },
    {
        match self {
            KanjiResult::KanjiChars(chars) => Ok(chars),
            other => Err(KanjiError::TypeMismatch(other.tag_name())),
        }
    }

    /// Narrows to the word-list payload; any other tag is reported back by
    /// name in a `TypeMismatch` error.
    pub fn into_words(self) -> (r: Result<Vec<Word>, KanjiError>)
        ensures
            match self {
                KanjiResult::Words(ws) => r matches Ok(o) && o == ws,
                _ => r matches Err(KanjiError::TypeMismatch(m)) && m@ == self.tag_str(),
            },
    {
        match self {
            KanjiResult::Words(words) => Ok(words),
            other => Err(KanjiError::TypeMismatch(other.tag_name())),
        }
    }
}

} // verus!
