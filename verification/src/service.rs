//! The localization service and its builder.

use vstd::prelude::*;
use vstd::hash_map::StringHashMap;
use crate::dictionary::Dictionary;
use crate::grammar::{words_of, Words};

verus! {

/// What a localization service holds: the active language and the words of
/// each language that has a dictionary.
pub struct LocalizationView {
    pub language: Seq<char>,
    pub dictionaries: Map<Seq<char>, Words>,
}

impl LocalizationView {
    /// No language chosen, no dictionary held.
    pub open spec fn empty() -> LocalizationView {
        LocalizationView { language: Seq::empty(), dictionaries: Map::empty() }
    }

    /// The same dictionaries with `language` as the active language.
    pub open spec fn with_language(self, language: Seq<char>) -> LocalizationView {
        LocalizationView { language, dictionaries: self.dictionaries }
    }

    /// The same with `words` as the dictionary of the language `key`, in
    /// place of the one that it had.
    pub open spec fn with_dictionary(self, key: Seq<char>, words: Words) -> LocalizationView {
        LocalizationView {
            language: self.language,
            dictionaries: self.dictionaries.insert(key, words),
        }
    }

    /// Whether the active language has a dictionary and that dictionary
    /// holds `key`.
    pub open spec fn translates(self, key: Seq<char>) -> bool {
        self.dictionaries.contains_key(self.language)
            && self.dictionaries[self.language].contains_key(key)
    }

    /// The text shown for `key`: its translation in the active language,
    /// or `key` itself where there is none.
    pub open spec fn text(self, key: Seq<char>) -> Seq<char> {
        if self.translates(key) {
            self.dictionaries[self.language][key]
        } else {
            key
        }
    }

    /// What the conversion from a pair makes of it: `blob` read as the
    /// dictionary of the language `key`, and `blob` again, not `key`, as the
    /// active language.
    pub open spec fn of_pair(key: Seq<char>, blob: Seq<char>) -> LocalizationView {
        LocalizationView::empty().with_dictionary(key, words_of(blob)).with_language(blob)
    }
}

/// The content of a map of dictionaries.
pub open spec fn words_by_language(dictionaries: Map<Seq<char>, Dictionary>) -> Map<
    Seq<char>,
    Words,
> {
    dictionaries.map_values(|dictionary: Dictionary| dictionary@)
}

/// Collects dictionaries and the initial language for a [`Localization`].
pub struct LocalizationBuilder {
    language: String,
    dictionaries: StringHashMap<Dictionary>,
}

impl View for LocalizationBuilder {
    type V = LocalizationView;

    closed spec fn view(&self) -> LocalizationView {
        LocalizationView {
            language: self.language@,
            dictionaries: words_by_language(self.dictionaries@),
        }
    }
}

impl Default for LocalizationBuilder {
    fn default() -> (builder: LocalizationBuilder)
        ensures
            builder@ == LocalizationView::empty(),
    {
        let builder = LocalizationBuilder {
            language: String::new(),
            dictionaries: StringHashMap::new(),
        };
        assert(builder@.dictionaries =~= Map::empty());
        builder
    }
}

impl LocalizationBuilder {
    /// Adds the dictionary written in `dictionary` for the language `key`, in
    /// place of one added for `key` before. A text that is no dictionary
    /// counts as a dictionary without words.
    pub fn dictionary(self, key: &str, dictionary: &str) -> (builder: LocalizationBuilder)
        ensures
            builder@ == self@.with_dictionary(key@, words_of(dictionary@)),
    {
        let mut builder = self;
        builder.dictionaries.insert(key.to_owned(), Dictionary::parse_or_empty(dictionary));
        assert(builder@.dictionaries =~= self@.dictionaries.insert(key@, words_of(dictionary@)));
        builder
    }

    /// Sets the initial language. It need not have a dictionary.
    pub fn language(self, language: &str) -> (builder: LocalizationBuilder)
        ensures
            builder@ == self@.with_language(language@),
    {
        let mut builder = self;
        builder.language = language.to_owned();
        builder
    }

    /// The localization service with what was collected.
    pub fn build(self) -> (localization: Localization)
        ensures
            localization@ == self@,
    {
        Localization { language: self.language, dictionaries: self.dictionaries }
    }
}

/// A localization service: it shows the text of a word key in the active
/// language, and the key itself where that language has no text for it.
pub struct Localization {
    language: String,
    dictionaries: StringHashMap<Dictionary>,
}

impl View for Localization {
    type V = LocalizationView;

    closed spec fn view(&self) -> LocalizationView {
        LocalizationView {
            language: self.language@,
            dictionaries: words_by_language(self.dictionaries@),
        }
    }
}

impl Default for Localization {
    fn default() -> (localization: Localization)
        ensures
            localization@ == LocalizationView::empty(),
    {
        LocalizationBuilder::default().build()
    }
}

impl Localization {
    /// A builder that holds no dictionary and the empty language.
    pub fn create() -> (builder: LocalizationBuilder)
        ensures
            builder@ == LocalizationView::empty(),
    {
        LocalizationBuilder::default()
    }

    /// The active language, by its key, such as `en_US` or `de_DE`.
    pub fn language(&self) -> (language: &String)
        ensures
            language@ == self@.language,
    {
        &self.language
    }

    /// Makes `key` the active language, whether it has a dictionary or not.
    pub fn set_language(&mut self, key: &str)
        ensures
            final(self)@ == old(self)@.with_language(key@),
    {
        self.language = key.to_owned();
    }

    /// The text for `key` in the active language; `key` itself where the
    /// active language has no dictionary or its dictionary has no such key.
    pub fn text(&self, key: String) -> (text: String)
        ensures
            text@ == self@.text(key@),
    {
        if let Some(dictionary) = self.dictionaries.get(self.language.as_str()) {
            if let Some(word) = dictionary.get(key.as_str()) {
                return word.clone();
            }
        }
        key
    }
}

impl<'a, 'b> From<(&'a str, &'b str)> for Localization {
    /// The service made of one pair, a language key and a dictionary's text.
    /// The text, not the key, becomes the active language, so that lookups
    /// fall back to the word asked for until `set_language` is called,
    /// unless the text is itself the key.
    fn from(pair: (&'a str, &'b str)) -> (localization: Localization)
        ensures
            localization@ == LocalizationView::of_pair(pair.0@, pair.1@),
    {
        Localization::create().dictionary(pair.0, pair.1).language(pair.1).build()
    }
}

impl<'a, 'b> vstd::std_specs::convert::FromSpecImpl<(&'a str, &'b str)> for Localization {
    open spec fn obeys_from_spec() -> bool {
        false
    }

    open spec fn from_spec(pair: (&'a str, &'b str)) -> Localization {
        choose|localization: Localization| #[trigger]
            localization@ == LocalizationView::of_pair(pair.0@, pair.1@)
    }
}

impl<'a> From<(&'a str, String)> for Localization {
    /// As the conversion from a pair of string slices.
    fn from(pair: (&'a str, String)) -> (localization: Localization)
        ensures
            localization@ == LocalizationView::of_pair(pair.0@, pair.1@),
    {
        Localization::create().dictionary(pair.0, pair.1.as_str()).language(
            pair.1.as_str(),
        ).build()
    }
}

impl<'a> vstd::std_specs::convert::FromSpecImpl<(&'a str, String)> for Localization {
    open spec fn obeys_from_spec() -> bool {
        false
    }

    open spec fn from_spec(pair: (&'a str, String)) -> Localization {
        choose|localization: Localization| #[trigger]
            localization@ == LocalizationView::of_pair(pair.0@, pair.1@)
    }
}

impl From<(String, String)> for Localization {
    /// As the conversion from a pair of string slices.
    fn from(pair: (String, String)) -> (localization: Localization)
        ensures
            localization@ == LocalizationView::of_pair(pair.0@, pair.1@),
    {
        Localization::create().dictionary(pair.0.as_str(), pair.1.as_str()).language(
            pair.1.as_str(),
        ).build()
    }
}

impl vstd::std_specs::convert::FromSpecImpl<(String, String)> for Localization {
    open spec fn obeys_from_spec() -> bool {
        false
    }

    open spec fn from_spec(pair: (String, String)) -> Localization {
        choose|localization: Localization| #[trigger]
            localization@ == LocalizationView::of_pair(pair.0@, pair.1@)
    }
}

impl From<LocalizationBuilder> for Localization {
    /// The service that `build` makes of the builder.
    fn from(builder: LocalizationBuilder) -> (localization: Localization)
        ensures
            localization@ == builder@,
    {
        builder.build()
    }
}

impl vstd::std_specs::convert::FromSpecImpl<LocalizationBuilder> for Localization {
    open spec fn obeys_from_spec() -> bool {
        false
    }

    open spec fn from_spec(builder: LocalizationBuilder) -> Localization {
        choose|localization: Localization| #[trigger] localization@ == builder@
    }
}

/// A word that the active language's dictionary holds is shown as the text
/// that stands under it there.
pub proof fn lemma_text_of_known_key(localization: Localization, key: Seq<char>)
    requires
        localization@.dictionaries.contains_key(localization@.language),
        localization@.dictionaries[localization@.language].contains_key(key),
    ensures
        localization@.text(key) == localization@.dictionaries[localization@.language][key],
{
}

/// A word that the active language's dictionary does not hold, or any word
/// where the active language has no dictionary, is shown as itself.
pub proof fn lemma_text_of_unknown_key(localization: Localization, key: Seq<char>)
    requires
        !localization@.dictionaries.contains_key(localization@.language)
            || !localization@.dictionaries[localization@.language].contains_key(key),
    ensures
        localization@.text(key) == key,
{
}

/// Asking for the same word twice, with no change in between, gives the same
/// text twice: what `text` returns depends on the service's content and the
/// word alone.
pub proof fn lemma_text_repeats(
    localization: Localization,
    key: Seq<char>,
    first: String,
    second: String,
)
    requires
        first@ == localization@.text(key),
        second@ == localization@.text(key),
    ensures
        first@ == second@,
{
}

/// Once a language without a dictionary is made the active one, every word
/// is shown as itself, whatever the other languages' dictionaries hold.
pub proof fn lemma_language_without_dictionary(
    localization: Localization,
    language: Seq<char>,
    key: Seq<char>,
)
    requires
        !localization@.dictionaries.contains_key(language),
    ensures
        localization@.with_language(language).text(key) == key,
{
}

/// Of two dictionaries added under one language the later one stays: the
/// builder is as if the first had never been added, and with that language
/// active a word is shown by the second text alone.
pub proof fn lemma_later_dictionary_stays(
    builder: LocalizationBuilder,
    language: Seq<char>,
    first: Seq<char>,
    second: Seq<char>,
    key: Seq<char>,
)
    ensures
        builder@.with_dictionary(language, words_of(first)).with_dictionary(
            language,
            words_of(second),
        ) == builder@.with_dictionary(language, words_of(second)),
        builder@.with_dictionary(language, words_of(first)).with_dictionary(
            language,
            words_of(second),
        ).with_language(language).text(key) == if words_of(second).contains_key(key) {
            words_of(second)[key]
        } else {
            key
        },
{
    assert(builder@.dictionaries.insert(language, words_of(first)).insert(
        language,
        words_of(second),
    ) =~= builder@.dictionaries.insert(language, words_of(second)));
}

} // verus!
