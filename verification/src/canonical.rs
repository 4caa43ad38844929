//! A written form for every dictionary, and the proof that the grammar reads
//! it back: there is no list of entries that the notation cannot express.

use vstd::prelude::*;
use crate::grammar::{
    document, entries, entry, field_keyword, is_space, name_keyword, skip_spaces, string_literal,
    string_tail, word_at, Words,
};

verus! {

/// How a character is written inside a string literal: a quote and a
/// backslash behind a backslash, every other character as itself.
pub open spec fn escape(c: char) -> Seq<char> {
    if c == '"' || c == '\\' {
        seq!['\\', c]
    } else {
        seq![c]
    }
}

/// A text as it is written between the quotes of a string literal.
pub open spec fn escaped(text: Seq<char>) -> Seq<char>
    decreases text.len(),
{
    if text.len() == 0 {
        Seq::empty()
    } else {
        escape(text[0]) + escaped(text.drop_first())
    }
}

/// The string literal that stands for `text`.
pub open spec fn literal_of(text: Seq<char>) -> Seq<char> {
    seq!['"'] + escaped(text) + seq!['"']
}

/// Behind an opening quote, the escaped form of a text and a closing quote
/// are read as that text, whatever stands before and behind them.
pub proof fn lemma_string_tail_reads_escaped(
    before: Seq<char>,
    text: Seq<char>,
    behind: Seq<char>,
    acc: Seq<char>,
)
    ensures
        string_tail(before + escaped(text) + seq!['"'] + behind, before.len() as int, acc) == Ok::<
            (Seq<char>, int),
            int,
        >((acc + text, (before.len() + escaped(text).len() + 1) as int)),
    decreases text.len(),
{
    let s = before + escaped(text) + seq!['"'] + behind;
    let i = before.len() as int;
    if text.len() == 0 {
        assert(s[i] == '"');
        assert(acc + text =~= acc);
    } else {
        let c = text[0];
        let rest = text.drop_first();
        let longer = before + escape(c);
        assert(s =~= longer + escaped(rest) + seq!['"'] + behind);
        lemma_string_tail_reads_escaped(longer, rest, behind, acc.push(c));
        assert(acc.push(c) + rest =~= acc + text);
        assert(s[i] == escape(c)[0]);
        if c == '"' || c == '\\' {
            assert(s[i + 1] == escape(c)[1]);
        }
    }
}

/// Every text has a string literal, and the literal is read as the text:
/// wherever `literal_of(text)` stands, `string_literal` yields `text` and
/// the position behind the literal.
pub proof fn lemma_literal_reads_back(before: Seq<char>, text: Seq<char>, behind: Seq<char>)
    ensures
        string_literal(before + literal_of(text) + behind, before.len() as int) == Ok::<
            (Seq<char>, int),
            int,
        >((text, (before.len() + literal_of(text).len()) as int)),
{
    let s = before + literal_of(text) + behind;
    let opened = before + seq!['"'];
    assert(s =~= opened + escaped(text) + seq!['"'] + behind);
    lemma_string_tail_reads_escaped(opened, text, behind, Seq::empty());
    assert(Seq::<char>::empty() + text =~= text);
    assert(s[before.len() as int] == '"');
}

/// A key and its text.
pub type Pair = (Seq<char>, Seq<char>);

/// The words that a list of entries defines when they are added to `acc` in
/// order: of two entries with one key the later stays.
pub open spec fn words_from(pairs: Seq<Pair>, acc: Words) -> Words
    decreases pairs.len(),
{
    if pairs.len() == 0 {
        acc
    } else {
        words_from(pairs.drop_first(), acc.insert(pairs[0].0, pairs[0].1))
    }
}

/// One entry as it is written: key, colon, text.
pub open spec fn entry_text(pair: Pair) -> Seq<char> {
    literal_of(pair.0) + seq![':'] + literal_of(pair.1)
}

/// The entries as they are written behind the opening brace: each with a
/// comma behind it, then the closing brace.
pub open spec fn entries_text(pairs: Seq<Pair>) -> Seq<char>
    decreases pairs.len(),
{
    if pairs.len() == 0 {
        seq!['}']
    } else {
        entry_text(pairs[0]) + seq![','] + entries_text(pairs.drop_first())
    }
}

/// A document that holds the entries, without a name and without white space.
pub open spec fn document_text(pairs: Seq<Pair>) -> Seq<char> {
    seq!['('] + field_keyword() + seq![':', '{'] + entries_text(pairs) + seq![')']
}

/// A position whose character is no white space is where skipping stops.
proof fn lemma_no_space_no_skip(s: Seq<char>, i: int)
    requires
        0 <= i < s.len(),
        !is_space(s[i]),
    ensures
        skip_spaces(s, i) == i,
{
}

/// The written entries begin with a quote or with the closing brace.
proof fn lemma_entries_text_begins(pairs: Seq<Pair>)
    ensures
        entries_text(pairs).len() > 0,
        entries_text(pairs)[0] == '"' || entries_text(pairs)[0] == '}',
{
    if pairs.len() > 0 {
        assert(entries_text(pairs)[0] == literal_of(pairs[0].0)[0]);
    }
}

/// Wherever a written entry stands, `entry` reads it as the pair that was
/// written and yields the position behind it.
pub proof fn lemma_entry_reads_back(before: Seq<char>, pair: Pair, behind: Seq<char>)
    ensures
        entry(before + entry_text(pair) + behind, before.len() as int) == Ok::<(Pair, int), int>(
            (pair, (before.len() + entry_text(pair).len()) as int),
        ),
{
    let s = before + entry_text(pair) + behind;
    let key = literal_of(pair.0);
    let text = literal_of(pair.1);
    let colon = (before.len() + key.len()) as int;
    let second = before + key + seq![':'];
    assert(s =~= before + key + (seq![':'] + text + behind));
    lemma_literal_reads_back(before, pair.0, seq![':'] + text + behind);
    assert(s[colon] == ':');
    lemma_no_space_no_skip(s, colon);
    assert(s[colon + 1] == text[0]);
    lemma_no_space_no_skip(s, colon + 1);
    assert(s =~= second + text + behind);
    lemma_literal_reads_back(second, pair.1, behind);
}

/// Wherever written entries stand, `entries` reads them as the words that
/// the list defines and yields the position behind the closing brace.
pub proof fn lemma_entries_read_back(
    before: Seq<char>,
    pairs: Seq<Pair>,
    behind: Seq<char>,
    acc: Words,
)
    ensures
        entries(before + entries_text(pairs) + behind, before.len() as int, acc) == Ok::<
            (Words, int),
            int,
        >((words_from(pairs, acc), (before.len() + entries_text(pairs).len()) as int)),
    decreases pairs.len(),
{
    let s = before + entries_text(pairs) + behind;
    let i = before.len() as int;
    if pairs.len() == 0 {
        assert(s[i] == '}');
    } else {
        let pair = pairs[0];
        let rest = pairs.drop_first();
        let written = entry_text(pair);
        let comma = (before.len() + written.len()) as int;
        let longer = before + written + seq![','];
        assert(s[i] == literal_of(pair.0)[0]);
        assert(s =~= before + written + (seq![','] + entries_text(rest) + behind));
        lemma_entry_reads_back(before, pair, seq![','] + entries_text(rest) + behind);
        assert(s[comma] == ',');
        lemma_no_space_no_skip(s, comma);
        lemma_entries_text_begins(rest);
        assert(s[comma + 1] == entries_text(rest)[0]);
        lemma_no_space_no_skip(s, comma + 1);
        assert(s =~= longer + entries_text(rest) + behind);
        lemma_entries_read_back(longer, rest, behind, acc.insert(pair.0, pair.1));
    }
}

/// Every list of entries has a document, and the document is read as the
/// words that the list defines.
pub proof fn lemma_document_reads_back(pairs: Seq<Pair>)
    ensures
        document(document_text(pairs)) == Ok::<Words, int>(words_from(pairs, Map::empty())),
{
    let s = document_text(pairs);
    let head = seq!['('] + field_keyword() + seq![':', '{'];
    let close = (head.len() + entries_text(pairs).len()) as int;
    lemma_entries_text_begins(pairs);
    assert(head.len() == 8);
    assert(s =~= head + entries_text(pairs) + seq![')']);
    assert(s[0] == '(');
    lemma_no_space_no_skip(s, 0);
    assert(!word_at(s, 0, name_keyword())) by {
        assert(name_keyword()[0] == 'D');
    }
    assert(s[1] == 'w');
    lemma_no_space_no_skip(s, 1);
    assert(word_at(s, 1, field_keyword())) by {
        assert forall|k: int| 0 <= k < field_keyword().len() implies s[1 + k]
            == #[trigger] field_keyword()[k] by {
            assert(s[1 + k] == head[1 + k]);
        }
    }
    assert(s[6] == ':');
    lemma_no_space_no_skip(s, 6);
    assert(s[7] == '{');
    lemma_no_space_no_skip(s, 7);
    assert(s[8] == entries_text(pairs)[0]);
    lemma_no_space_no_skip(s, 8);
    lemma_entries_read_back(head, pairs, seq![')'], Map::empty());
    assert(s[close] == ')');
    lemma_no_space_no_skip(s, close);
    assert(skip_spaces(s, close + 1) == close + 1);
}

/// An entry added at the end of a list is added last to the words.
proof fn lemma_words_from_push(pairs: Seq<Pair>, pair: Pair, acc: Words)
    ensures
        words_from(pairs.push(pair), acc) == words_from(pairs, acc).insert(pair.0, pair.1),
    decreases pairs.len(),
{
    let longer = pairs.push(pair);
    if pairs.len() == 0 {
        assert(longer.drop_first() =~= Seq::empty());
        assert(words_from(longer.drop_first(), acc.insert(pair.0, pair.1)) == acc.insert(
            pair.0,
            pair.1,
        ));
    } else {
        assert(longer.drop_first() =~= pairs.drop_first().push(pair));
        lemma_words_from_push(pairs.drop_first(), pair, acc.insert(pairs[0].0, pairs[0].1));
    }
}

/// Every finite dictionary is the words of some list of entries.
pub proof fn lemma_words_have_a_list(words: Words) -> (pairs: Seq<Pair>)
    requires
        words.dom().finite(),
    ensures
        words_from(pairs, Map::empty()) == words,
    decreases words.dom().len(),
{
    if words.dom().len() == 0 {
        words.dom().lemma_len0_is_empty();
        assert(words =~= Map::empty());
        Seq::empty()
    } else {
        let key = words.dom().choose();
        let fewer = words.remove(key);
        let pairs = lemma_words_have_a_list(fewer);
        lemma_words_from_push(pairs, (key, words[key]), Map::empty());
        assert(fewer.insert(key, words[key]) =~= words);
        pairs.push((key, words[key]))
    }
}

/// The notation can express every finite dictionary: there is a text that
/// `document` reads as exactly these words.
pub proof fn lemma_every_dictionary_has_a_document(words: Words)
    requires
        words.dom().finite(),
    ensures
        exists|text: Seq<char>| document(text) == Ok::<Words, int>(words),
{
    let pairs = lemma_words_have_a_list(words);
    lemma_document_reads_back(pairs);
    assert(document(document_text(pairs)) == Ok::<Words, int>(words));
}

} // verus!
