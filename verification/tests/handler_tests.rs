//! The language server's request handler.

use centra_nf::handler::{respond, MessageHandler, Reply, RequestParams, Response, TextRange};

fn params() -> RequestParams {
    RequestParams {
        uri: None,
        text: None,
        line: None,
        character: None,
        new_name: None,
        query: None,
        content_changes: None,
    }
}

fn at(uri: &str, line: usize, character: usize) -> RequestParams {
    RequestParams {
        uri: Some(uri.to_string()),
        line: Some(line),
        character: Some(character),
        ..params()
    }
}

#[test]
fn test_handler_creation() {
    let _handler = MessageHandler::new();
}

#[test]
fn test_document_lifecycle() {
    let handler = MessageHandler::new();

    // No document is open yet
    assert_eq!(handler.get_document("file:///test.cnf"), None);
}

#[test]
fn test_hover_request() {
    let mut handler = MessageHandler::new();

    // Set up a document first
    handler.set_document(
        "file:///test.cnf".to_string(),
        "IDENTIFICATION DIVISION.\n    PROGRAM-ID test.".to_string(),
    );

    let response = handler.handle_request("textDocument/hover", Some(at("file:///test.cnf", 0, 5)));
    assert!(response.result.is_ok());
}

#[test]
fn test_completion_request() {
    let mut handler = MessageHandler::new();
    let response = handler.handle_request("textDocument/completion", Some(at("file:///test.cnf", 0, 0)));
    assert!(response.result.is_ok());

    // Verify completions were returned
    match response.result {
        Ok(Reply::Completions(items)) => assert!(!items.is_empty()),
        other => panic!("unexpected {:?}", other),
    }
}

#[test]
fn test_definition_request() {
    let mut handler = MessageHandler::new();
    let response = handler.handle_request("textDocument/definition", Some(at("file:///test.cnf", 0, 5)));
    assert!(response.result.is_ok());
}

#[test]
fn test_document_symbol_request() {
    let mut handler = MessageHandler::new();

    // Set up document
    handler.set_document(
        "file:///test.cnf".to_string(),
        "IDENTIFICATION DIVISION.\nENVIRONMENT DIVISION.\nDATA DIVISION.\nPROCEDURE DIVISION.".to_string(),
    );

    let p = RequestParams { uri: Some("file:///test.cnf".to_string()), ..params() };
    let response = handler.handle_request("textDocument/documentSymbol", Some(p));
    assert!(response.result.is_ok());
}

#[test]
fn test_references_request() {
    let mut handler = MessageHandler::new();

    // Set up document with repeated symbol
    handler.set_document(
        "file:///test.cnf".to_string(),
        "IDENTIFICATION DIVISION.\nIDENTIFICATION test.\nIDENTIFICATION again.".to_string(),
    );

    let response = handler.handle_request("textDocument/references", Some(at("file:///test.cnf", 0, 5)));
    assert!(response.result.is_ok());
}

#[test]
fn test_rename_request() {
    let mut handler = MessageHandler::new();

    // Set up document
    handler.set_document(
        "file:///test.cnf".to_string(),
        "IDENTIFICATION DIVISION.\nIDENTIFICATION test.".to_string(),
    );

    let p = RequestParams { new_name: Some("IDENTIFICATION_V2".to_string()), ..at("file:///test.cnf", 0, 5) };
    let response = handler.handle_request("textDocument/rename", Some(p));
    assert!(response.result.is_ok());
}

#[test]
fn test_workspace_symbol_request() {
    let mut handler = MessageHandler::new();
    let p = RequestParams { query: Some("IDENTIFICATION".to_string()), ..params() };
    let response = handler.handle_request("workspace/symbol", Some(p));
    assert!(response.result.is_ok());

    // Should have found IDENTIFICATION DIVISION in workspace symbols
    match response.result {
        Ok(Reply::WorkspaceSymbols(found)) => {
            assert_eq!(found.len(), 1);
            assert_eq!(found[0].name, "IDENTIFICATION DIVISION");
            assert_eq!(found[0].kind, 11);
        }
        other => panic!("unexpected {:?}", other),
    }
}

#[test]
fn test_handler_initialization() {
    let handler = MessageHandler::new();

    // Handler should be created successfully
    // Verify it can be used (won't panic)
    let _handler_ref = &handler;
}

#[test]
fn test_position_extraction_accuracy() {
    // Simulate error messages and position extraction
    let error_with_position = "Division order error at line 5:10";
    let error_line_only = "Syntax error at line 3";

    // Would be extracted by publisher
    // Just verify format is parseable
    assert!(error_with_position.contains("line 5:10"));
    assert!(error_line_only.contains("line 3"));
}

#[test]
fn hover_quotes_the_line_with_its_number() {
    let mut handler = MessageHandler::new();
    handler.set_document("u".to_string(), "AB\r\nCD".to_string());
    let h = handler.handle_request("textDocument/hover", Some(at("u", 1, 2)));
    match h.result {
        Ok(Reply::Hover(t)) => assert_eq!(
            t,
            "Line 2: `CD`\n\n**CENTRA-NF Language**\nHover support available."
        ),
        other => panic!("unexpected {:?}", other),
    }
    let h = handler.handle_request("textDocument/hover", Some(at("u", 1, 3)));
    assert!(matches!(h.result, Ok(Reply::Hover(ref t)) if t == "Position out of bounds"));
    let h = handler.handle_request("textDocument/hover", Some(at("u", 2, 0)));
    assert!(matches!(h.result, Ok(Reply::Hover(ref t)) if t == "Line not found"));
}

#[test]
fn hover_errors_name_what_is_missing() {
    let mut handler = MessageHandler::new();
    let h = handler.handle_request("textDocument/hover", None);
    assert_eq!(h.result.unwrap_err(), "Missing params");
    let h = handler.handle_request("textDocument/hover", Some(params()));
    assert_eq!(h.result.unwrap_err(), "Missing uri");
    let h = handler.handle_request("textDocument/hover", Some(at("nowhere", 0, 0)));
    assert_eq!(h.result.unwrap_err(), "Document not found");
    handler.set_document("u".to_string(), "X".to_string());
    let p = RequestParams { uri: Some("u".to_string()), ..params() };
    let h = handler.handle_request("textDocument/hover", Some(p));
    assert_eq!(h.result.unwrap_err(), "Missing line");
    let p = RequestParams { uri: Some("u".to_string()), line: Some(0), ..params() };
    let h = handler.handle_request("textDocument/hover", Some(p));
    assert_eq!(h.result.unwrap_err(), "Missing character");
}

#[test]
fn open_change_close_keep_the_documents() {
    let mut handler = MessageHandler::new();
    let p = RequestParams {
        uri: Some("u".to_string()),
        text: Some("IDENTIFICATION DIVISION.".to_string()),
        ..params()
    };
    let h = handler.handle_request("textDocument/didOpen", Some(p));
    assert!(matches!(h.result, Ok(Reply::Empty)));
    let publication = h.publish.unwrap();
    assert_eq!(publication.uri, "u");
    assert_eq!(publication.diagnostics.len(), 1);
    assert_eq!(handler.get_document("u"), Some("IDENTIFICATION DIVISION.".to_string()));

    let source = "IDENTIFICATION DIVISION.\nPROGRAM-ID. A.\nENVIRONMENT DIVISION.\nDATA DIVISION.\nPROCEDURE DIVISION.";
    let p = RequestParams {
        uri: Some("u".to_string()),
        content_changes: Some(vec![Some("first".to_string()), Some(source.to_string())]),
        ..params()
    };
    let h = handler.handle_request("textDocument/didChange", Some(p));
    assert!(h.publish.unwrap().diagnostics.is_empty());
    assert_eq!(handler.get_document("u"), Some(source.to_string()));

    let p = RequestParams { uri: Some("u".to_string()), content_changes: Some(vec![]), ..params() };
    let h = handler.handle_request("textDocument/didChange", Some(p));
    assert!(h.publish.is_none());
    assert_eq!(handler.get_document("u"), Some(source.to_string()));

    let p = RequestParams { uri: Some("u".to_string()), content_changes: Some(vec![None]), ..params() };
    let h = handler.handle_request("textDocument/didChange", Some(p));
    assert_eq!(h.result.unwrap_err(), "Missing new text");

    let p = RequestParams { uri: Some("u".to_string()), ..params() };
    let h = handler.handle_request("textDocument/didClose", Some(p));
    assert!(h.result.is_ok());
    assert_eq!(handler.get_document("u"), None);
}

#[test]
fn references_find_every_occurrence_of_the_word() {
    let mut handler = MessageHandler::new();
    handler.set_document(
        "file:///test.cnf".to_string(),
        "IDENTIFICATION DIVISION.\nIDENTIFICATION test.\nIDENTIFICATION again.".to_string(),
    );
    let h = handler.handle_request("textDocument/references", Some(at("file:///test.cnf", 0, 5)));
    match h.result {
        Ok(Reply::References { uri, ranges }) => {
            assert_eq!(uri, "file:///test.cnf");
            assert_eq!(
                ranges,
                vec![
                    TextRange { line: 0, start: 0, end: 14 },
                    TextRange { line: 1, start: 0, end: 14 },
                    TextRange { line: 2, start: 0, end: 14 },
                ]
            );
        }
        other => panic!("unexpected {:?}", other),
    }
}

#[test]
fn references_of_an_empty_word_are_every_boundary() {
    let mut handler = MessageHandler::new();
    handler.set_document("u".to_string(), "a  b".to_string());
    let h = handler.handle_request("textDocument/references", Some(at("u", 0, 2)));
    match h.result {
        Ok(Reply::References { ranges, .. }) => {
            assert_eq!(ranges.len(), 5);
            assert_eq!(ranges[4], TextRange { line: 0, start: 4, end: 4 });
        }
        other => panic!("unexpected {:?}", other),
    }
}

#[test]
fn rename_out_of_range_changes_nothing() {
    let mut handler = MessageHandler::new();
    handler.set_document("u".to_string(), "ab".to_string());
    let p = RequestParams { new_name: Some("x".to_string()), ..at("u", 0, 3) };
    let h = handler.handle_request("textDocument/rename", Some(p));
    assert!(matches!(h.result, Ok(Reply::RenameNoChanges)));
    let p = RequestParams { new_name: Some("x".to_string()), ..at("u", 0, 1) };
    let h = handler.handle_request("textDocument/rename", Some(p));
    match h.result {
        Ok(Reply::Rename { new_name, ranges, .. }) => {
            assert_eq!(new_name, "x");
            assert_eq!(ranges, vec![TextRange { line: 0, start: 0, end: 2 }]);
        }
        other => panic!("unexpected {:?}", other),
    }
}

#[test]
fn document_symbols_list_the_division_lines() {
    let mut handler = MessageHandler::new();
    handler.set_document("u".to_string(), "x\nDATA DIVISION.\nPROCEDURE DIVISION. é".to_string());
    let p = RequestParams { uri: Some("u".to_string()), ..params() };
    let h = handler.handle_request("textDocument/documentSymbol", Some(p));
    match h.result {
        Ok(Reply::DocumentSymbols { symbols, .. }) => {
            assert_eq!(symbols.len(), 2);
            assert_eq!(symbols[0].name, "DATA DIVISION");
            assert_eq!(symbols[0].line, 1);
            assert_eq!(symbols[0].length, 14);
            assert_eq!(symbols[1].name, "PROCEDURE DIVISION");
            assert_eq!(symbols[1].line, 2);
            assert_eq!(symbols[1].length, 22);
        }
        other => panic!("unexpected {:?}", other),
    }
}

#[test]
fn unknown_method_becomes_an_internal_error() {
    let mut handler = MessageHandler::new();
    let h = handler.handle_request("foo/bar", None);
    assert_eq!(h.result.clone().unwrap_err(), "Unknown method: foo/bar");
    let response = respond(7, h.result);
    assert_eq!(response.id, 7);
    assert!(response.result.is_none());
    let error = response.error.unwrap();
    assert_eq!(error.code, -32603);
    assert_eq!(error.message, "Internal error: Unknown method: foo/bar");
    assert!(matches!(handler.handle_request("shutdown", None).result, Ok(Reply::Null)));
    assert!(matches!(handler.handle_request("initialize", None).result, Ok(Reply::Capabilities)));
}

#[test]
fn workspace_search_ignores_case() {
    let mut handler = MessageHandler::new();
    let p = RequestParams { query: Some("division".to_string()), ..params() };
    match handler.handle_request("workspace/symbol", Some(p)).result {
        Ok(Reply::WorkspaceSymbols(found)) => assert_eq!(found.len(), 4),
        other => panic!("unexpected {:?}", other),
    }
    let h = handler.handle_request("workspace/symbol", Some(params()));
    assert_eq!(h.result.unwrap_err(), "Missing query");
}

#[test]
fn test_error_message_structure() {
    // Test various error scenarios

    // Invalid Request
    let invalid_req_err = Response::error(0, -32600, "Invalid Request");
    assert_eq!(invalid_req_err.error.as_ref().unwrap().code, -32600);

    // Internal Error
    let internal_err = Response::error(1, -32603, "Internal error: Something failed");
    assert_eq!(internal_err.error.as_ref().unwrap().code, -32603);

    // Method not found
    let not_found_err = Response::error(2, -32601, "Method not found");
    assert_eq!(not_found_err.error.as_ref().unwrap().code, -32601);
}
