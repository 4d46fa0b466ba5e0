//! The lexer.

use centra_nf::{tokenize, Token};

#[test]
fn test_lexer_recognizes_keywords() {
    let tokens = tokenize("IDENTIFICATION DIVISION.").unwrap();
    assert_eq!(tokens[0], Token::IdentificationDiv);
    assert_eq!(tokens[1], Token::Division);
    assert_eq!(tokens[2], Token::Period);
}

#[test]
fn test_lexer_quoted_string() {
    let tokens = tokenize(r#"OS "Linux"."#).unwrap();
    assert_eq!(tokens[0], Token::Os);
    assert_eq!(tokens[1], Token::String("Linux".to_string()));
    assert_eq!(tokens[2], Token::Period);
}

#[test]
fn test_lexer_rejects_unknown_character() {
    let result = tokenize("COMPRESS @");
    assert!(result.is_err());
    assert!(result.unwrap_err().contains("Unrecognized character '@'"));
}

#[test]
fn test_lexer_handles_identifiers() {
    let tokens = tokenize("PROGRAM-ID MyApp").unwrap();
    assert_eq!(tokens[0], Token::ProgramId);
    assert_eq!(tokens[1], Token::Identifier("MyApp".to_string()));
}
