//! The parser.

use centra_nf::{parse, tokenize};

#[test]
fn test_parser_rejects_wrong_division_order() {
    let source = r#"
            DATA DIVISION.
            IDENTIFICATION DIVISION.
            ENVIRONMENT DIVISION.
            PROCEDURE DIVISION.
        "#;
    let tokens = tokenize(source).unwrap();
    let result = parse(tokens);
    assert!(result.is_err());
}

#[test]
fn test_parser_rejects_unquoted_env_value() {
    let source = r#"
            IDENTIFICATION DIVISION.
                PROGRAM-ID. TestApp.
            ENVIRONMENT DIVISION.
                OS Linux.
            DATA DIVISION.
            PROCEDURE DIVISION.
        "#;
    let tokens = tokenize(source).unwrap();
    let result = parse(tokens);
    assert!(result.is_err());
}

#[test]
fn test_parser_rejects_misspelled_environment_division() {
    let source = r#"
            IDENTIFICATION DIVISION.
                PROGRAM-ID. TestApp.
            ENVIROMENT DIVISION.
            DATA DIVISION.
            PROCEDURE DIVISION.
        "#;
    let tokens = tokenize(source).unwrap();
    let result = parse(tokens);
    assert!(
        result.is_err(),
        "Parser should reject misspelled ENVIROMENT (missing N)"
    );
}

#[test]
fn test_parser_error_message_mentions_expected_division() {
    let source = r#"
            DATA DIVISION.
            IDENTIFICATION DIVISION.
        "#;
    let tokens = tokenize(source).unwrap();
    let result = parse(tokens);
    assert!(result.is_err());
    let error = result.unwrap_err();
    assert!(error.contains("IDENTIFICATION DIVISION"));
    assert!(error.contains("Division order error"));
}

#[test]
fn test_parser_error_explains_division_order() {
    let source = r#"
            PROCEDURE DIVISION.
            IDENTIFICATION DIVISION.
        "#;
    let tokens = tokenize(source).unwrap();
    let result = parse(tokens);
    assert!(result.is_err());
    let error = result.unwrap_err();
    // Error should explain the required order
    assert!(error.contains("IDENTIFICATION → ENVIRONMENT → DATA → PROCEDURE"));
}
