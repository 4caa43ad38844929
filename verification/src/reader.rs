//! The executable reader of the dictionary notation. Each function computes
//! the function of the grammar that its contract names.

use vstd::prelude::*;
use vstd::std_specs::iter::IteratorSpec;
use vstd::string::group_string_axioms;
use crate::dictionary::Dictionary;
use crate::grammar;
use crate::grammar::Words;

verus! {

/// `String::push` of the standard library, which appends one character to
/// the end of the string and leaves the rest as it was.
pub assume_specification[ String::push ](text: &mut String, c: char)
    ensures
        final(text)@ == old(text)@.push(c),
;

/// The characters of `text`, in order.
pub fn characters(text: &str) -> (chars: Vec<char>)
    ensures
        chars@ == text@,
{
    broadcast use group_string_axioms;

    let mut chars: Vec<char> = Vec::new();
    let mut rest = text.chars();
    loop
        invariant
            rest.obeys_prophetic_iter_laws(),
            chars@ + rest.remaining() == text@,
            rest.decrease() is Some,
        ensures
            chars@ == text@,
        decreases rest.decrease()->0,
    {
        match rest.next() {
            Some(c) => {
                chars.push(c);
                assert(chars@ + rest.remaining() =~= text@);
            },
            None => {
                assert(chars@ =~= text@);
                break;
            },
        }
    }
    chars
}

/// Whether `c` is white space.
pub fn is_space(c: char) -> (space: bool)
    ensures
        space == grammar::is_space(c),
{
    c == ' ' || c == '\t' || c == '\n' || c == '\r'
}

/// Whether `s` holds `c` at position `i`.
pub fn has_char(s: &[char], i: usize, c: char) -> (found: bool)
    ensures
        found == grammar::char_at(s@, i as int, c),
{
    i < s.len() && s[i] == c
}

/// Whether `s` holds `word` from position `i` on.
pub fn has_word(s: &[char], i: usize, word: &[char]) -> (found: bool)
    ensures
        found == grammar::word_at(s@, i as int, word@),
{
    if word.len() > s.len() || i > s.len() - word.len() {
        return false;
    }
    let mut k: usize = 0;
    while k < word.len()
        invariant
            k <= word.len(),
            i + word.len() <= s.len(),
            forall|n: int| 0 <= n < k ==> s@[i + n] == #[trigger] word@[n],
        decreases word.len() - k,
    {
        if s[i + k] != word[k] {
            return false;
        }
        k += 1;
    }
    true
}

/// The first position at or behind `i` that holds no white space.
pub fn pass_spaces(s: &[char], i: usize) -> (next: usize)
    ensures
        next as int == grammar::skip_spaces(s@, i as int),
        i <= next,
        i <= s.len() ==> next <= s.len(),
{
    let mut next: usize = i;
    while next < s.len() && is_space(s[next])
        invariant
            i <= next,
            i <= s.len() ==> next <= s.len(),
            grammar::skip_spaces(s@, next as int) == grammar::skip_spaces(s@, i as int),
        decreases s.len() - next,
    {
        next += 1;
    }
    next
}

/// The character that `c` stands for behind a backslash, if any.
pub fn unescape(c: char) -> (plain: Option<char>)
    ensures
        plain == grammar::unescape(c),
{
    if c == '"' || c == '\\' || c == '\'' {
        Some(c)
    } else if c == 'n' {
        Some('\n')
    } else if c == 'r' {
        Some('\r')
    } else if c == 't' {
        Some('\t')
    } else if c == '0' {
        Some('\0')
    } else {
        None
    }
}

/// Reads the string literal whose opening quote stands at `i`: its decoded
/// text and the position behind its closing quote, or the position at which
/// it fails.
pub fn read_string(s: &[char], i: usize) -> (result: Result<(String, usize), usize>)
    ensures
        match result {
            Ok((text, next)) => grammar::string_literal(s@, i as int) == Ok::<
                (Seq<char>, int),
                int,
            >((text@, next as int)) && i < next <= s.len(),
            Err(at) => grammar::string_literal(s@, i as int) == Err::<(Seq<char>, int), int>(
                at as int,
            ) && i <= at && (i <= s.len() ==> at <= s.len()),
        },
{
    if i >= s.len() || s[i] != '"' {
        return Err(i);
    }
    let mut text = String::new();
    let mut j: usize = i + 1;
    loop
        invariant
            i < j <= s.len(),
            grammar::string_tail(s@, j as int, text@) == grammar::string_literal(s@, i as int),
        decreases s.len() - j,
    {
        if j >= s.len() {
            return Err(j);
        }
        let c = s[j];
        if c == '"' {
            return Ok((text, j + 1));
        }
        if c == '\\' {
            if j + 1 >= s.len() {
                return Err(j + 1);
            }
            match unescape(s[j + 1]) {
                Some(plain) => {
                    text.push(plain);
                    j += 2;
                },
                None => {
                    return Err(j + 1);
                },
            }
        } else {
            text.push(c);
            j += 1;
        }
    }
}

/// Reads the entry that begins at `i`: its key, its text and the position
/// behind it, or the position at which it fails.
pub fn read_entry(s: &[char], i: usize) -> (result: Result<(String, String, usize), usize>)
    ensures
        match result {
            Ok((key, text, next)) => grammar::entry(s@, i as int) == Ok::<
                ((Seq<char>, Seq<char>), int),
                int,
            >(((key@, text@), next as int)) && i < next <= s.len(),
            Err(at) => grammar::entry(s@, i as int) == Err::<((Seq<char>, Seq<char>), int), int>(
                at as int,
            ) && i <= at && (i <= s.len() ==> at <= s.len()),
        },
{
    let (key, behind_key) = match read_string(s, i) {
        Ok(read) => read,
        Err(at) => {
            return Err(at);
        },
    };
    let colon = pass_spaces(s, behind_key);
    if !has_char(s, colon, ':') {
        return Err(colon);
    }
    match read_string(s, pass_spaces(s, colon + 1)) {
        Ok((text, next)) => Ok((key, text, next)),
        Err(at) => Err(at),
    }
}

/// Reads the entries of a map up to and including its closing brace, and
/// adds them to `words`. `i` is the first position behind the opening brace
/// that holds no white space.
pub fn read_entries(s: &[char], i: usize, words: Dictionary) -> (result: Result<
    (Dictionary, usize),
    usize,
>)
    ensures
        match result {
            Ok((all, next)) => grammar::entries(s@, i as int, words@) == Ok::<(Words, int), int>(
                (all@, next as int),
            ) && i < next <= s.len(),
            Err(at) => grammar::entries(s@, i as int, words@) == Err::<(Words, int), int>(
                at as int,
            ) && i <= at && (i <= s.len() ==> at <= s.len()),
        },
{
    let mut all = words;
    let mut j: usize = i;
    loop
        invariant
            i <= j,
            i <= s.len() ==> j <= s.len(),
            grammar::entries(s@, j as int, all@) == grammar::entries(s@, i as int, words@),
        decreases s.len() - j,
    {
        if has_char(s, j, '}') {
            return Ok((all, j + 1));
        }
        let (key, text, behind) = match read_entry(s, j) {
            Ok(read) => read,
            Err(at) => {
                return Err(at);
            },
        };
        all.insert(key, text);
        let stop = pass_spaces(s, behind);
        if has_char(s, stop, ',') {
            j = pass_spaces(s, stop + 1);
        } else if has_char(s, stop, '}') {
            return Ok((all, stop + 1));
        } else {
            return Err(stop);
        }
    }
}

/// The optional name in front of the opening parenthesis.
pub fn name_keyword() -> (word: Vec<char>)
    ensures
        word@ == grammar::name_keyword(),
{
    let word = vec!['D', 'i', 'c', 't', 'i', 'o', 'n', 'a', 'r', 'y'];
    assert(word@ =~= grammar::name_keyword());
    word
}

/// The name of the single field.
pub fn field_keyword() -> (word: Vec<char>)
    ensures
        word@ == grammar::field_keyword(),
{
    let word = vec!['w', 'o', 'r', 'd', 's'];
    assert(word@ =~= grammar::field_keyword());
    word
}

/// Reads a whole document: the dictionary that it defines, or the position
/// at which it leaves the grammar.
pub fn read_document(s: &[char]) -> (result: Result<Dictionary, usize>)
    ensures
        match result {
            Ok(dictionary) => grammar::document(s@) == Ok::<Words, int>(dictionary@),
            Err(at) => grammar::document(s@) == Err::<Words, int>(at as int) && at <= s.len(),
        },
{
    let name = name_keyword();
    let field_name = field_keyword();
    let start = pass_spaces(s, 0);
    let open = if has_word(s, start, name.as_slice()) {
        pass_spaces(s, start + name.len())
    } else {
        start
    };
    if !has_char(s, open, '(') {
        return Err(open);
    }
    let field = pass_spaces(s, open + 1);
    if !has_word(s, field, field_name.as_slice()) {
        return Err(field);
    }
    let colon = pass_spaces(s, field + field_name.len());
    if !has_char(s, colon, ':') {
        return Err(colon);
    }
    let brace = pass_spaces(s, colon + 1);
    if !has_char(s, brace, '{') {
        return Err(brace);
    }
    let (words, behind) = match read_entries(s, pass_spaces(s, brace + 1), Dictionary::new()) {
        Ok(read) => read,
        Err(at) => {
            return Err(at);
        },
    };
    let comma = pass_spaces(s, behind);
    let close = if has_char(s, comma, ',') {
        pass_spaces(s, comma + 1)
    } else {
        comma
    };
    if !has_char(s, close, ')') {
        return Err(close);
    }
    let end = pass_spaces(s, close + 1);
    if end != s.len() {
        return Err(end);
    }
    Ok(words)
}

} // verus!
