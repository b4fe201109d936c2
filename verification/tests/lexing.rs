//! Lexer behaviour: the token round trip, identifier splitting, numerals,
//! strings, and the lexical diagnostics.

use plotscript::exceptions::LexerExceptionBase;
use plotscript::lexer::lex;
use plotscript::tokens::TokenName;

fn chars(s: &str) -> Vec<char> {
    s.chars().collect()
}

#[test]
fn lexer_round_trip() {
    let res = lex("test".to_string(), "#frame(0,0,10,10)\ny=x".to_string());
    assert!(res.success);
    let names: Vec<TokenName> = res.tokens.iter().map(|t| t.name).collect();
    assert_eq!(
        names,
        vec![
            TokenName::Header,
            TokenName::HeadFunc,
            TokenName::LParen,
            TokenName::Number,
            TokenName::Comma,
            TokenName::Number,
            TokenName::Comma,
            TokenName::Number,
            TokenName::Comma,
            TokenName::Number,
            TokenName::RParen,
            TokenName::Eol,
            TokenName::Variable,
            TokenName::Equals,
            TokenName::Variable,
            TokenName::Eol,
            TokenName::Eof,
        ]
    );
    assert_eq!(res.tokens[1].value, chars("frame"));
    assert_eq!(res.tokens[3].value, chars("0"));
    assert_eq!(res.tokens[7].value, chars("10"));
    assert_eq!(res.tokens[12].value, chars("y"));
    assert_eq!(res.tokens[14].value, chars("x"));
}

#[test]
fn unknown_identifiers_split_into_variables() {
    let res = lex("test".to_string(), "abc".to_string());
    assert!(res.success);
    assert_eq!(res.tokens.len(), 5);
    assert_eq!(res.tokens[0].name, TokenName::Variable);
    assert_eq!(res.tokens[0].value, chars("a"));
    assert_eq!(res.tokens[1].value, chars("b"));
    assert_eq!(res.tokens[2].value, chars("c"));
    assert_eq!(res.tokens[0].range.start, 0);
    assert_eq!(res.tokens[2].range.start, 2);
}

#[test]
fn known_names_stay_whole() {
    let res = lex("test".to_string(), "sin".to_string());
    assert!(res.success);
    assert_eq!(res.tokens[0].name, TokenName::Function);
    assert_eq!(res.tokens[0].value, chars("sin"));
}

#[test]
fn numeral_with_separator_and_dot() {
    let res = lex("test".to_string(), "1_2.5".to_string());
    assert!(res.success);
    assert_eq!(res.tokens[0].name, TokenName::Number);
    assert_eq!(res.tokens[0].value, chars("12.5"));
}

#[test]
fn second_dot_ends_the_numeral() {
    let res = lex("test".to_string(), "1.2.3".to_string());
    assert!(!res.success);
    assert!(matches!(
        res.exception.base,
        LexerExceptionBase::IllegalCharacterException
    ));
}

#[test]
fn illegal_character_is_reported() {
    let res = lex("test".to_string(), "y = @".to_string());
    assert!(!res.success);
    assert!(matches!(
        res.exception.base,
        LexerExceptionBase::IllegalCharacterException
    ));
    assert_eq!(
        res.exception.formatted(),
        "IllegalCharacterException: Illegal character `@` was found."
    );
    assert_eq!(res.exception.range.start, 4);
}

#[test]
fn quoted_string_with_escapes() {
    let res = lex("test".to_string(), "\"a\\n\\\\b\\\"\"".to_string());
    assert!(res.success);
    assert_eq!(res.tokens[0].name, TokenName::Text);
    assert_eq!(res.tokens[0].value, chars("a\n\\b\""));
}

#[test]
fn unterminated_string_is_an_end_error() {
    let res = lex("test".to_string(), "\"abc".to_string());
    assert!(!res.success);
    assert!(matches!(res.exception.base, LexerExceptionBase::EndException));
}

#[test]
fn string_broken_by_newline_is_an_end_error() {
    let res = lex("test".to_string(), "\"ab\ncd\"".to_string());
    assert!(!res.success);
    assert!(matches!(res.exception.base, LexerExceptionBase::EndException));
}

#[test]
fn unknown_escape_is_an_escape_error() {
    let res = lex("test".to_string(), "\"a\\qb\"".to_string());
    assert!(!res.success);
    assert!(matches!(res.exception.base, LexerExceptionBase::EscapeException));
}

#[test]
fn empty_script_still_ends_in_eol_and_eof() {
    let res = lex("test".to_string(), "".to_string());
    assert!(res.success);
    assert_eq!(res.tokens.len(), 2);
    assert_eq!(res.tokens[0].name, TokenName::Eol);
    assert_eq!(res.tokens[1].name, TokenName::Eof);
}
