//! One language's dictionary.

use vstd::prelude::*;
use vstd::hash_map::StringHashMap;
use crate::grammar::{document, words_of, Words};
use crate::reader::{characters, read_document};

verus! {

/// Why a text is no dictionary: the position, counted in characters from the
/// start of the text, of the first character that the grammar does not allow
/// there. It is the length of the text where the text ends too early.
#[derive(Debug, Clone, Copy, PartialEq, Eq, Structural)]
pub struct ParseError {
    pub position: usize,
}

/// The texts of one language, each under its word key.
pub struct Dictionary {
    words: StringHashMap<String>,
}

/// The content of a map of strings, each string taken as its characters.
pub open spec fn texts_of(words: Map<Seq<char>, String>) -> Words {
    words.map_values(|text: String| text@)
}

impl View for Dictionary {
    type V = Words;

    closed spec fn view(&self) -> Words {
        texts_of(self.words@)
    }
}

impl Dictionary {
    /// A dictionary without words.
    pub fn new() -> (dictionary: Dictionary)
        ensures
            dictionary@ == Map::<Seq<char>, Seq<char>>::empty(),
    {
        let dictionary = Dictionary { words: StringHashMap::new() };
        assert(dictionary@ =~= Map::<Seq<char>, Seq<char>>::empty());
        dictionary
    }

    /// Puts `text` under `key`, in place of what stood there.
    pub(crate) fn insert(&mut self, key: String, text: String)
        ensures
            final(self)@ == old(self)@.insert(key@, text@),
    {
        self.words.insert(key, text);
        assert(self@ =~= old(self)@.insert(key@, text@));
    }

    /// The text that stands under `key`, if any.
    pub fn get(&self, key: &str) -> (text: Option<&String>)
        ensures
            match text {
                Some(text) => self@.contains_key(key@) && self@[key@] == text@,
                None => !self@.contains_key(key@),
            },
    {
        self.words.get(key)
    }

    /// Reads a dictionary from its text. The result is the content that the
    /// grammar gives the text, or the position at which the text leaves the
    /// grammar.
    pub fn parse(blob: &str) -> (result: Result<Dictionary, ParseError>)
        ensures
            match result {
                Ok(dictionary) => document(blob@) == Ok::<Words, int>(dictionary@),
                Err(error) => document(blob@) == Err::<Words, int>(error.position as int)
                    && error.position <= blob@.len(),
            },
    {
        let chars = characters(blob);
        match read_document(chars.as_slice()) {
            Ok(dictionary) => Ok(dictionary),
            Err(position) => Err(ParseError { position }),
        }
    }

    /// Reads a dictionary from its text, and takes a text that is no
    /// dictionary for one without words.
    pub fn parse_or_empty(blob: &str) -> (dictionary: Dictionary)
        ensures
            dictionary@ == words_of(blob@),
    {
        match Dictionary::parse(blob) {
            Ok(dictionary) => dictionary,
            Err(_) => Dictionary::new(),
        }
    }
}

} // verus!
