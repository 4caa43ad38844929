//! The notation in which a dictionary is written, as mathematical functions.
//!
//! ```text
//! document := ws [ "Dictionary" ws ] "(" ws "words" ws ":" ws "{" ws entries ws [ "," ws ] ")" ws
//! entries  := "}" | entry ws "}" | entry ws "," ws entries
//! entry    := string ws ":" ws string
//! string   := '"' { plain | '\' escape } '"'
//! escape   := '"' | '\' | ''' | 'n' | 'r' | 't' | '0'
//! ws       := { ' ' | TAB | LF | CR }
//! ```
//!
//! Every function here reads a sequence of characters from a position and
//! yields either what it read together with the position behind it, or the
//! position at which the text stopped conforming.

use vstd::prelude::*;

verus! {

/// The content of one dictionary: from word key to translated text.
pub type Words = Map<Seq<char>, Seq<char>>;

/// What reading one element yields: the value and the position behind it,
/// or the position of the offending character.
pub type Step<T> = Result<(T, int), int>;

/// The optional name in front of the opening parenthesis.
pub open spec fn name_keyword() -> Seq<char> {
    seq!['D', 'i', 'c', 't', 'i', 'o', 'n', 'a', 'r', 'y']
}

/// The name of the single field.
pub open spec fn field_keyword() -> Seq<char> {
    seq!['w', 'o', 'r', 'd', 's']
}

/// White space between the tokens.
pub open spec fn is_space(c: char) -> bool {
    c == ' ' || c == '\t' || c == '\n' || c == '\r'
}

/// `s` holds the character `c` at position `i`.
pub open spec fn char_at(s: Seq<char>, i: int, c: char) -> bool {
    0 <= i < s.len() && s[i] == c
}

/// `s` holds `word` from position `i` on.
pub open spec fn word_at(s: Seq<char>, i: int, word: Seq<char>) -> bool {
    &&& 0 <= i
    &&& i + word.len() <= s.len()
    &&& forall|k: int| 0 <= k < word.len() ==> s[i + k] == #[trigger] word[k]
}

/// The first position at or behind `i` that holds no white space.
pub open spec fn skip_spaces(s: Seq<char>, i: int) -> int
    decreases s.len() - i,
{
    if 0 <= i < s.len() && is_space(s[i]) {
        skip_spaces(s, i + 1)
    } else {
        i
    }
}

/// The character that `c` stands for behind a backslash, if any.
pub open spec fn unescape(c: char) -> Option<char> {
    if c == '"' || c == '\\' || c == '\'' {
        Some(c)
    } else if c == 'n' {
        Some('\n')
    } else if c == 'r' {
        Some('\r')
    } else if c == 't' {
        Some('\t')
    } else if c == '0' {
        Some('\0')
    } else {
        None
    }
}

/// Reads a string literal from behind its opening quote: `i` is the position
/// to go on from, `acc` the text decoded so far.
pub open spec fn string_tail(s: Seq<char>, i: int, acc: Seq<char>) -> Step<Seq<char>>
    decreases s.len() - i,
{
    if !(0 <= i < s.len()) {
        Err(i)
    } else if s[i] == '"' {
        Ok((acc, i + 1))
    } else if s[i] == '\\' {
        if i + 1 < s.len() && unescape(s[i + 1]) is Some {
            string_tail(s, i + 2, acc.push(unescape(s[i + 1])->0))
        } else {
            Err(i + 1)
        }
    } else {
        string_tail(s, i + 1, acc.push(s[i]))
    }
}

/// Reads a string literal whose opening quote stands at `i`.
pub open spec fn string_literal(s: Seq<char>, i: int) -> Step<Seq<char>> {
    if char_at(s, i, '"') {
        string_tail(s, i + 1, Seq::empty())
    } else {
        Err(i)
    }
}

/// Reads one entry, a key and its text with a colon between them, from `i`.
pub open spec fn entry(s: Seq<char>, i: int) -> Step<(Seq<char>, Seq<char>)> {
    match string_literal(s, i) {
        Err(at) => Err(at),
        Ok((key, behind_key)) => {
            let colon = skip_spaces(s, behind_key);
            if !char_at(s, colon, ':') {
                Err(colon)
            } else {
                match string_literal(s, skip_spaces(s, colon + 1)) {
                    Err(at) => Err(at),
                    Ok((text, next)) => Ok(((key, text), next)),
                }
            }
        },
    }
}

/// Reads the entries of the map up to and including its closing brace. `i` is
/// the first position behind the opening brace, or behind a comma, that holds
/// no white space; `acc` holds the entries read so far. Of two entries with
/// one key the later stays.
pub open spec fn entries(s: Seq<char>, i: int, acc: Words) -> Step<Words>
    decreases s.len() - i,
    via entries_decreases
{
    if char_at(s, i, '}') {
        Ok((acc, i + 1))
    } else {
        match entry(s, i) {
            Err(at) => Err(at),
            Ok((pair, behind)) => {
                let stop = skip_spaces(s, behind);
                if char_at(s, stop, ',') {
                    entries(s, skip_spaces(s, stop + 1), acc.insert(pair.0, pair.1))
                } else if char_at(s, stop, '}') {
                    Ok((acc.insert(pair.0, pair.1), stop + 1))
                } else {
                    Err(stop)
                }
            },
        }
    }
}

#[via_fn]
proof fn entries_decreases(s: Seq<char>, i: int, acc: Words) {
    if !char_at(s, i, '}') {
        if let Ok((pair, behind)) = entry(s, i) {
            lemma_entry_bounds(s, i);
            lemma_skip_spaces_bounds(s, behind);
            let stop = skip_spaces(s, behind);
            if char_at(s, stop, ',') {
                lemma_skip_spaces_bounds(s, stop + 1);
            }
        }
    }
}

/// Reads a whole document: the words it defines, or the position at which it
/// stops conforming to the grammar.
pub open spec fn document(s: Seq<char>) -> Result<Words, int> {
    let start = skip_spaces(s, 0);
    let open = if word_at(s, start, name_keyword()) {
        skip_spaces(s, start + name_keyword().len())
    } else {
        start
    };
    let field = skip_spaces(s, open + 1);
    let colon = skip_spaces(s, field + field_keyword().len());
    let brace = skip_spaces(s, colon + 1);
    if !char_at(s, open, '(') {
        Err(open)
    } else if !word_at(s, field, field_keyword()) {
        Err(field)
    } else if !char_at(s, colon, ':') {
        Err(colon)
    } else if !char_at(s, brace, '{') {
        Err(brace)
    } else {
        match entries(s, skip_spaces(s, brace + 1), Map::empty()) {
            Err(at) => Err(at),
            Ok((words, behind)) => {
                let comma = skip_spaces(s, behind);
                let close = if char_at(s, comma, ',') {
                    skip_spaces(s, comma + 1)
                } else {
                    comma
                };
                let end = skip_spaces(s, close + 1);
                if !char_at(s, close, ')') {
                    Err(close)
                } else if end != s.len() {
                    Err(end)
                } else {
                    Ok(words)
                }
            },
        }
    }
}

/// The words that a text defines: those of the document where it conforms to
/// the grammar, none where it does not.
pub open spec fn words_of(s: Seq<char>) -> Words {
    match document(s) {
        Ok(words) => words,
        Err(_) => Map::empty(),
    }
}

/// Skipping white space never goes back nor past the end, and stops on a
/// character that is no white space.
pub proof fn lemma_skip_spaces_bounds(s: Seq<char>, i: int)
    requires
        0 <= i <= s.len(),
    ensures
        i <= skip_spaces(s, i) <= s.len(),
        skip_spaces(s, i) < s.len() ==> !is_space(s[skip_spaces(s, i)]),
        forall|k: int| i <= k < skip_spaces(s, i) ==> is_space(#[trigger] s[k]),
    decreases s.len() - i,
{
    if i < s.len() && is_space(s[i]) {
        lemma_skip_spaces_bounds(s, i + 1);
    }
}

/// A string literal ends behind where it began, inside the text; a failure
/// lies at or behind where it began, at most at the end of the text.
pub proof fn lemma_string_tail_bounds(s: Seq<char>, i: int, acc: Seq<char>)
    requires
        0 <= i <= s.len(),
    ensures
        match string_tail(s, i, acc) {
            Ok((_, next)) => i < next <= s.len(),
            Err(at) => i <= at <= s.len(),
        },
    decreases s.len() - i,
{
    if i < s.len() && s[i] != '"' {
        if s[i] == '\\' {
            if i + 1 < s.len() && unescape(s[i + 1]) is Some {
                lemma_string_tail_bounds(s, i + 2, acc.push(unescape(s[i + 1])->0));
            }
        } else {
            lemma_string_tail_bounds(s, i + 1, acc.push(s[i]));
        }
    }
}

/// An entry ends behind where it began, inside the text; a failure lies at or
/// behind where it began, at most at the end of the text.
pub proof fn lemma_entry_bounds(s: Seq<char>, i: int)
    requires
        0 <= i <= s.len(),
    ensures
        match entry(s, i) {
            Ok((_, next)) => i < next <= s.len(),
            Err(at) => i <= at <= s.len(),
        },
{
    if char_at(s, i, '"') {
        lemma_string_tail_bounds(s, i + 1, Seq::empty());
        if let Ok((key, behind_key)) = string_literal(s, i) {
            lemma_skip_spaces_bounds(s, behind_key);
            let colon = skip_spaces(s, behind_key);
            if char_at(s, colon, ':') {
                lemma_skip_spaces_bounds(s, colon + 1);
                let second = skip_spaces(s, colon + 1);
                if char_at(s, second, '"') {
                    lemma_string_tail_bounds(s, second + 1, Seq::empty());
                }
            }
        }
    }
}

} // verus!
