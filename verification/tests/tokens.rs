use toki_pona_parser::tokenizer::{is_letter, is_whitespace, tokenize, trim};
use toki_pona_parser::types::ParseTPError;
use toki_pona_parser::word::{ParseWordError, Word};

fn unknown(text: &str) -> Result<Vec<Word>, ParseTPError> {
    Err(ParseTPError::InvalidWord(ParseWordError { text: text.to_string() }))
}

fn trimmed(chunk: &str) -> String {
    let chars: Vec<char> = chunk.chars().collect();
    let (from, to) = trim(&chars);
    chars[from..to].iter().collect()
}

#[test]
fn white_space_is_what_unicode_calls_so() {
    for code in 0..=0x10FFFFu32 {
        if let Some(c) = char::from_u32(code) {
            assert_eq!(is_whitespace(c), c.is_whitespace(), "U+{:04X}", code);
        }
    }
}

#[test]
fn letters_are_the_ascii_letters() {
    for code in 0..=0x10FFFFu32 {
        if let Some(c) = char::from_u32(code) {
            assert_eq!(is_letter(c), c.is_ascii_alphabetic(), "U+{:04X}", code);
        }
    }
}

#[test]
fn trimming_strips_both_ends() {
    assert_eq!(trimmed("...mi,"), "mi");
    assert_eq!(trimmed("-pan"), "pan");
    assert_eq!(trimmed("la-"), "la");
    assert_eq!(trimmed("pona\u{c2}\u{a1}"), "pona");
    assert_eq!(trimmed("moku"), "moku");
    assert_eq!(trimmed("mo-ku"), "mo-ku");
    assert_eq!(trimmed("1a2b3"), "a2b");
    assert_eq!(trimmed("?!"), "");
    assert_eq!(trimmed(""), "");
}

#[test]
fn trimming_gives_the_bounds() {
    let chars: Vec<char> = "..mi,".chars().collect();
    assert_eq!(trim(&chars), (2, 4));
    assert_eq!(trim(&[]), (0, 0));
}

#[test]
fn words_are_cut_at_white_space() {
    assert_eq!(
        tokenize("mi moku e pan"),
        Ok(vec![Word::Mi, Word::Moku, Word::E, Word::Pan])
    );
    assert_eq!(
        tokenize("  mi\tmoku\n\u{a0}e\u{3000}pan  "),
        Ok(vec![Word::Mi, Word::Moku, Word::E, Word::Pan])
    );
    assert_eq!(tokenize("la"), Ok(vec![Word::La]));
}

#[test]
fn empty_line_has_no_words() {
    assert_eq!(tokenize(""), Ok(vec![]));
    assert_eq!(tokenize(" \t\r\n"), Ok(vec![]));
}

#[test]
fn tokens_are_stripped_and_lower_cased() {
    assert_eq!(
        tokenize("...mi, la- -pan li pona\u{a1}"),
        Ok(vec![Word::Mi, Word::La, Word::Pan, Word::Li, Word::Pona])
    );
    assert_eq!(tokenize("\"Toki!\""), Ok(vec![Word::Toki]));
}

#[test]
fn first_unknown_token_is_reported() {
    assert_eq!(tokenize("Hello World!"), unknown("Hello"));
    assert_eq!(tokenize("mi hello, world"), unknown("hello"));
    assert_eq!(tokenize("mi mo,ku"), unknown("mo,ku"));
    assert_eq!(tokenize("mi ... moku"), unknown(""));
    assert_eq!(tokenize("mi\u{2003}\u{2014}\u{2003}moku"), unknown(""));
}
