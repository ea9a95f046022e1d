use pascal_lex::chars::CharClass;
use pascal_lex::{Content, Token, TokenType};

#[test]
fn constructors_set_kind_and_text() {
    let k = Token::keyword("Begin");
    assert_eq!(k.token_type, TokenType::Keyword);
    assert_eq!(k.content, "Begin");
    let i = Token::identify("abc");
    assert_eq!(i.token_type, TokenType::Identify);
    assert_eq!(i.content, "abc");
    let n = Token::unsigned_number("42");
    assert_eq!(n.token_type, TokenType::UnsignedNumber);
    assert_eq!(n.content, "42");
    let d = Token::delimiter("Comma");
    assert_eq!(d.token_type, TokenType::Delimiter);
    assert_eq!(d.content, "Comma");
    let u = Token::unknown();
    assert_eq!(u.token_type, TokenType::Unknown);
    assert_eq!(u.content, "");
}

#[test]
fn display_forms() {
    assert_eq!(Token::identify("a1").to_string(), "Ident(a1)");
    assert_eq!(Token::identify("").to_string(), "Ident()");
    assert_eq!(Token::unsigned_number("007").to_string(), "Int(007)");
    assert_eq!(Token::keyword("Begin").to_string(), "Begin");
    assert_eq!(Token::delimiter("LParenthesis").to_string(), "LParenthesis");
    assert_eq!(Token::unknown().to_string(), "Unknown");
    let odd = Token { token_type: TokenType::Unknown, content: "x".to_string() };
    assert_eq!(odd.to_string(), "Unknown");
}

#[test]
fn only_unknown_is_unknown() {
    assert!(Token::unknown().is_unknown());
    assert!(!Token::keyword("If").is_unknown());
    assert!(!Token::identify("x").is_unknown());
    assert!(!Token::unsigned_number("1").is_unknown());
    assert!(!Token::delimiter("Plus").is_unknown());
}

#[test]
fn character_classes() {
    assert!(CharClass::Whitespace.test(' '));
    assert!(CharClass::Whitespace.test('\n'));
    assert!(CharClass::Whitespace.test('\u{a0}'));
    assert!(!CharClass::Whitespace.test('a'));
    assert!(!CharClass::Whitespace.test('1'));
    assert!(CharClass::Alphanumeric.test('a'));
    assert!(CharClass::Alphanumeric.test('Z'));
    assert!(CharClass::Alphanumeric.test('7'));
    assert!(CharClass::Alphanumeric.test('٣'));
    assert!(!CharClass::Alphanumeric.test('+'));
    assert!(!CharClass::Alphanumeric.test(' '));
    assert!(CharClass::Digit.test('0'));
    assert!(CharClass::Digit.test('9'));
    assert!(!CharClass::Digit.test('/'));
    assert!(!CharClass::Digit.test(':'));
    assert!(!CharClass::Digit.test('a'));
    assert!(!CharClass::Digit.test('٣'));
}

#[test]
fn cursor_reads_one_character_at_a_time() {
    let mut iter = Content { content: "ab" }.into_iter();
    assert!(!iter.at_end());
    assert_eq!(iter.peek(), Some('a'));
    assert_eq!(iter.peek(), Some('a'));
    assert_eq!(iter.advance(), Some('a'));
    assert_eq!(iter.peek(), Some('b'));
    assert!(!iter.at_end());
    assert_eq!(iter.advance(), Some('b'));
    assert!(iter.at_end());
    assert_eq!(iter.peek(), None);
    assert_eq!(iter.advance(), None);
    assert_eq!(iter.advance(), None);
    assert!(iter.at_end());
}

#[test]
fn cursor_counts_characters_not_bytes() {
    let mut iter = Content { content: "é:" }.into_iter();
    assert_eq!(iter.advance(), Some('é'));
    assert_eq!(iter.advance(), Some(':'));
    assert_eq!(iter.advance(), None);
}

#[test]
fn cursor_and_scan_share_the_position() {
    let mut iter = Content { content: "ab cd" }.into_iter();
    assert_eq!(iter.advance(), Some('a'));
    assert_eq!(iter.next().unwrap().to_string(), "Ident(b)");
    assert_eq!(iter.peek(), Some(' '));
    assert_eq!(iter.next().unwrap().to_string(), "Ident(cd)");
    assert!(iter.at_end());
}
