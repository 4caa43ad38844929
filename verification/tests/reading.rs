use localization::reader::{
    characters, has_char, has_word, is_space, pass_spaces, read_document, read_entries,
    read_entry, read_string, unescape,
};
use localization::{Dictionary, ParseError};

fn chars(text: &str) -> Vec<char> {
    text.chars().collect()
}

fn position_of_error(blob: &str) -> usize {
    match Dictionary::parse(blob) {
        Ok(_) => panic!("the text was read as a dictionary"),
        Err(error) => error.position,
    }
}

fn parsed(blob: &str) -> Dictionary {
    match Dictionary::parse(blob) {
        Ok(dictionary) => dictionary,
        Err(error) => panic!("no dictionary, at {}", error.position),
    }
}

fn text_of(dictionary: &Dictionary, key: &str) -> Option<String> {
    dictionary.get(key).cloned()
}

#[test]
fn parse_reads_the_sample() {
    let blob = r#"
  Dictionary(
      words: {
          "hello": "Hallo",
          "world": "Welt",
      }
  )
  "#;
    let dictionary = parsed(blob);
    assert_eq!(text_of(&dictionary, "hello"), Some("Hallo".to_string()));
    assert_eq!(text_of(&dictionary, "world"), Some("Welt".to_string()));
    assert_eq!(text_of(&dictionary, "test"), None);
    assert_eq!(text_of(&dictionary, "Hallo"), None);
}

#[test]
fn parse_without_name_and_without_spaces() {
    let dictionary = parsed(r#"(words:{"a":"b","c":"d"})"#);
    assert_eq!(text_of(&dictionary, "a"), Some("b".to_string()));
    assert_eq!(text_of(&dictionary, "c"), Some("d".to_string()));
    assert_eq!(text_of(&dictionary, "b"), None);
}

#[test]
fn parse_empty_map() {
    let dictionary = parsed("Dictionary(words: {})");
    assert_eq!(text_of(&dictionary, ""), None);
    let spaced = parsed("Dictionary ( words : { } , ) ");
    assert_eq!(text_of(&spaced, "a"), None);
}

#[test]
fn parse_takes_a_comma_behind_the_map() {
    let dictionary = parsed("(words: {\"a\": \"b\"},)");
    assert_eq!(text_of(&dictionary, "a"), Some("b".to_string()));
}

#[test]
fn parse_keeps_the_later_of_two_entries_with_one_key() {
    let dictionary = parsed(r#"(words: {"a": "first", "b": "x", "a": "second"})"#);
    assert_eq!(text_of(&dictionary, "a"), Some("second".to_string()));
    assert_eq!(text_of(&dictionary, "b"), Some("x".to_string()));
}

#[test]
fn parse_decodes_escapes() {
    let dictionary = parsed(r#"(words: {"q\"k": "a\\b\n\r\t\0\'c"})"#);
    assert_eq!(text_of(&dictionary, "q\"k"), Some("a\\b\n\r\t\0'c".to_string()));
}

#[test]
fn parse_keeps_spaces_and_other_alphabets_inside_strings() {
    let dictionary = parsed("(words: {\" a b \": \"Gr\u{fc}\u{df}e, \u{4e16}\u{754c}\"})");
    assert_eq!(text_of(&dictionary, " a b "), Some("Gr\u{fc}\u{df}e, \u{4e16}\u{754c}".to_string()));
    assert_eq!(text_of(&dictionary, "a b"), None);
}

#[test]
fn parse_empty_key_and_text() {
    let dictionary = parsed(r#"(words: {"": ""})"#);
    assert_eq!(text_of(&dictionary, ""), Some(String::new()));
}

#[test]
fn parse_error_of_empty_text() {
    assert_eq!(position_of_error(""), 0);
    assert_eq!(position_of_error("   "), 3);
    assert_eq!(Dictionary::parse("").err(), Some(ParseError { position: 0 }));
}

#[test]
fn parse_error_at_the_name() {
    assert_eq!(position_of_error("Dictionar(words: {})"), 0);
    assert_eq!(position_of_error("  Lexicon(words: {})"), 2);
    assert_eq!(position_of_error("Dictionaryx(words: {})"), 10);
    assert_eq!(position_of_error("Dictionary"), 10);
    assert_eq!(position_of_error("Dictionary words: {}"), 11);
}

#[test]
fn parse_error_at_the_field() {
    assert_eq!(position_of_error("(word: {})"), 1);
    assert_eq!(position_of_error("( Words: {})"), 2);
    assert_eq!(position_of_error("(words {})"), 7);
    assert_eq!(position_of_error("(wordss: {})"), 6);
    assert_eq!(position_of_error("(words: [])"), 8);
    assert_eq!(position_of_error("(words:"), 7);
    assert_eq!(position_of_error("({})"), 1);
}

#[test]
fn parse_error_inside_the_map() {
    assert_eq!(position_of_error("(words: {"), 9);
    assert_eq!(position_of_error("(words: {a: \"b\"})"), 9);
    assert_eq!(position_of_error("(words: {\"a\" \"b\"})"), 13);
    assert_eq!(position_of_error("(words: {\"a\": b})"), 14);
    assert_eq!(position_of_error("(words: {\"a\": \"b\" \"c\": \"d\"})"), 18);
    assert_eq!(position_of_error("(words: {\"a\": \"b\",, })"), 18);
    assert_eq!(position_of_error("(words: {,})"), 9);
    assert_eq!(position_of_error("(words: {\"a\": \"b\", "), 19);
}

#[test]
fn parse_error_inside_a_string() {
    assert_eq!(position_of_error("(words: {\"a"), 11);
    assert_eq!(position_of_error("(words: {\"a\\"), 12);
    assert_eq!(position_of_error("(words: {\"a\\x\": \"b\"})"), 12);
    assert_eq!(position_of_error("(words: {\"a\": \"b\\"), 17);
}

#[test]
fn parse_error_behind_the_map() {
    assert_eq!(position_of_error("(words: {}"), 10);
    assert_eq!(position_of_error("(words: {} }"), 11);
    assert_eq!(position_of_error("(words: {},,)"), 11);
    assert_eq!(position_of_error("(words: {}) x"), 12);
    assert_eq!(position_of_error("(words: {})()"), 11);
}

#[test]
fn parse_error_counts_characters() {
    assert_eq!(position_of_error("(words: {\"\u{e4}\u{4e16}\": \"\u{fc}\" x"), 19);
}

#[test]
fn parse_or_empty_reads_or_gives_nothing() {
    let read = Dictionary::parse_or_empty(r#"(words: {"a": "b"})"#);
    assert_eq!(text_of(&read, "a"), Some("b".to_string()));
    let none = Dictionary::parse_or_empty(r#"(words: {"a": "b"}"#);
    assert_eq!(text_of(&none, "a"), None);
}

#[test]
fn new_dictionary_has_no_words() {
    let dictionary = Dictionary::new();
    assert_eq!(text_of(&dictionary, "a"), None);
    assert_eq!(text_of(&dictionary, ""), None);
}

#[test]
fn characters_are_those_of_the_text() {
    assert_eq!(characters(""), Vec::<char>::new());
    assert_eq!(characters("a\u{e4}\u{4e16}z"), vec!['a', '\u{e4}', '\u{4e16}', 'z']);
}

#[test]
fn spaces_are_blank_tab_and_line_ends() {
    assert!(is_space(' '));
    assert!(is_space('\t'));
    assert!(is_space('\n'));
    assert!(is_space('\r'));
    assert!(!is_space('a'));
    assert!(!is_space('\u{a0}'));
    assert!(!is_space('\0'));
}

#[test]
fn pass_spaces_stops_at_the_first_other_character() {
    let s = chars(" \t\r\n x  ");
    assert_eq!(pass_spaces(&s, 0), 5);
    assert_eq!(pass_spaces(&s, 3), 5);
    assert_eq!(pass_spaces(&s, 5), 5);
    assert_eq!(pass_spaces(&s, 6), 8);
    assert_eq!(pass_spaces(&s, 8), 8);
    assert_eq!(pass_spaces(&s, 11), 11);
}

#[test]
fn has_char_and_has_word() {
    let s = chars("words: x");
    assert!(has_char(&s, 5, ':'));
    assert!(!has_char(&s, 4, ':'));
    assert!(!has_char(&s, 8, 'x'));
    assert!(has_word(&s, 0, &chars("words")));
    assert!(has_word(&s, 1, &chars("ords:")));
    assert!(!has_word(&s, 1, &chars("words")));
    assert!(has_word(&s, 7, &chars("x")));
    assert!(!has_word(&s, 7, &chars("x ")));
    assert!(has_word(&s, 8, &chars("")));
    assert!(!has_word(&s, 9, &chars("")));
    assert!(!has_word(&s, usize::MAX, &chars("w")));
}

#[test]
fn unescape_knows_seven_characters() {
    assert_eq!(unescape('"'), Some('"'));
    assert_eq!(unescape('\\'), Some('\\'));
    assert_eq!(unescape('\''), Some('\''));
    assert_eq!(unescape('n'), Some('\n'));
    assert_eq!(unescape('r'), Some('\r'));
    assert_eq!(unescape('t'), Some('\t'));
    assert_eq!(unescape('0'), Some('\0'));
    assert_eq!(unescape('x'), None);
    assert_eq!(unescape('N'), None);
}

#[test]
fn read_string_gives_text_and_next_position() {
    let s = chars(r#"x"ab\n" y"#);
    assert_eq!(read_string(&s, 1), Ok(("ab\n".to_string(), 7)));
    assert_eq!(read_string(&s, 0), Err(0));
    assert_eq!(read_string(&s, 6), Err(9));
    assert_eq!(read_string(&s, 9), Err(9));
    assert_eq!(read_string(&s, 20), Err(20));
}

#[test]
fn read_entry_gives_key_text_and_next_position() {
    let s = chars(r#""k" : "v","#);
    assert_eq!(read_entry(&s, 0), Ok(("k".to_string(), "v".to_string(), 9)));
    assert_eq!(read_entry(&s, 1), Err(1));
    let t = chars(r#""k" = "v""#);
    assert_eq!(read_entry(&t, 0), Err(4));
    let u = chars(r#""k" : v"#);
    assert_eq!(read_entry(&u, 0), Err(6));
}

#[test]
fn read_entries_adds_to_what_is_there() {
    let words = parsed(r#"(words: {"old": "kept", "a": "gone"})"#);
    let s = chars(r#"{"a": "b", "c": "d" } rest"#);
    match read_entries(&s, 1, words) {
        Ok((all, next)) => {
            assert_eq!(next, 21);
            assert_eq!(text_of(&all, "old"), Some("kept".to_string()));
            assert_eq!(text_of(&all, "a"), Some("b".to_string()));
            assert_eq!(text_of(&all, "c"), Some("d".to_string()));
        },
        Err(at) => panic!("failed at {}", at),
    }
    assert_eq!(read_entries(&s, 0, Dictionary::new()).err(), Some(0));
    assert_eq!(read_entries(&s, 21, Dictionary::new()).err(), Some(21));
}

#[test]
fn read_document_gives_the_dictionary_or_the_position() {
    match read_document(&chars(r#"Dictionary(words: {"a": "b"})"#)) {
        Ok(dictionary) => assert_eq!(text_of(&dictionary, "a"), Some("b".to_string())),
        Err(at) => panic!("failed at {}", at),
    }
    assert_eq!(read_document(&chars(r#"Dictionary(words: {"a": "b"}]"#)).err(), Some(28));
}

#[test]
fn parse_reads_the_tightest_written_form() {
    let dictionary = parsed(r#"(words:{"a":"b","q\"":"\\",})"#);
    assert_eq!(text_of(&dictionary, "a"), Some("b".to_string()));
    assert_eq!(text_of(&dictionary, "q\""), Some("\\".to_string()));
    let empty = parsed("(words:{})");
    assert_eq!(text_of(&empty, "a"), None);
}

#[test]
fn parse_takes_line_ends_inside_strings_as_they_are() {
    let dictionary = parsed("(words: {\"a\": \"one\ntwo\"})");
    assert_eq!(text_of(&dictionary, "a"), Some("one\ntwo".to_string()));
}
