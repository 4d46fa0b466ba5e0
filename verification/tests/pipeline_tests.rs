//! Exact results of the lexer, the parser, the declaration check and the
//! listing on small programs.

use centra_nf::handler::{cut_ok, diagnostics, fits, notification_action, MessageHandler, NotificationAction, RequestParams};
use centra_nf::ir::{find_undeclared, listing, lower};
use centra_nf::lexer::keyword_for;
use centra_nf::pairs::less_key;
use centra_nf::{
    compile, parse, tokenize, DataType, Division, Instruction, Opcode, Parser, ProcedureStatement, Token, Variable,
};

const FULL: &str = "IDENTIFICATION DIVISION.
PROGRAM-ID. App.
AUTHOR. Ann.
VERSION. v1.
ENVIRONMENT DIVISION.
OS \"Linux\".
ARCH \"x86\".
OS \"BSD\".
DATA DIVISION.
INPUT VIDEO-MP4.
OUTPUT CSV-TABLE.
PROCEDURE DIVISION.
COMPRESS VIDEO-MP4.
EXTRACT path VIDEO-MP4.
MERGE CSV-TABLE out.
TRANSCODE VIDEO-MP4 IMAGE-JPG.
";

#[test]
fn empty_source_is_just_eof() {
    assert_eq!(tokenize("").unwrap(), vec![Token::Eof]);
    assert_eq!(tokenize(" \t\r\n").unwrap(), vec![Token::Eof]);
}

#[test]
fn keywords_ignore_case_and_identifiers_keep_it() {
    let tokens = tokenize("identification Division pRoGrAm-Id MyApp 4").unwrap();
    assert_eq!(
        tokens,
        vec![
            Token::IdentificationDiv,
            Token::Division,
            Token::ProgramId,
            Token::Identifier("MyApp".to_string()),
            Token::Identifier("4".to_string()),
            Token::Eof,
        ]
    );
}

#[test]
fn string_keeps_its_inner_text_and_may_span_lines() {
    let tokens = tokenize("\"a b\nc\".").unwrap();
    assert_eq!(tokens, vec![Token::String("a b\nc".to_string()), Token::Period, Token::Eof]);
}

#[test]
fn unterminated_string_reports_where_the_text_ended() {
    assert_eq!(tokenize("OS \"Linux").unwrap_err(), "Unterminated string at line 1:10");
}

#[test]
fn unrecognized_character_reports_line_and_column() {
    assert_eq!(tokenize("A\n  @").unwrap_err(), "Unrecognized character '@' at line 2:3");
    assert_eq!(tokenize("COMPRESS é").unwrap_err(), "Unrecognized character 'é' at line 1:10");
}

#[test]
fn token_text_follows_the_display_of_the_language() {
    assert_eq!(Token::IdentificationDiv.to_string(), "IDENTIFICATION DIVISION");
    assert_eq!(Token::Period.to_string(), ".");
    assert_eq!(Token::Eof.to_string(), "Eof");
    assert_eq!(Token::VerifyIntegrity.to_string(), "VerifyIntegrity");
    assert_eq!(Token::Identifier("x".to_string()).to_string(), "IDENTIFIER(x)");
    assert_eq!(Token::String("y".to_string()).to_string(), "STRING(y)");
}

#[test]
fn data_types_and_divisions_have_their_source_spelling() {
    assert_eq!(DataType::VideoMp4.to_string(), "VIDEO-MP4");
    assert_eq!(DataType::ParquetTable.to_string(), "PARQUET-TABLE");
    assert_eq!(Division::Identification.to_string(), "IDENTIFICATION DIVISION");
    assert_eq!(Division::Procedure.to_string(), "PROCEDURE DIVISION");
}

#[test]
fn parse_reads_every_division() {
    let program = parse(tokenize(FULL).unwrap()).unwrap();
    assert_eq!(program.identification.program_id, "App");
    assert_eq!(program.identification.author, Some("Ann".to_string()));
    assert_eq!(program.identification.version, Some("v1".to_string()));
    assert_eq!(
        program.environment.config,
        vec![("ARCH".to_string(), "x86".to_string()), ("OS".to_string(), "BSD".to_string())]
    );
    assert_eq!(
        program.data.variables,
        vec![
            Variable { name: "VIDEO-MP4".to_string(), data_type: DataType::VideoMp4 },
            Variable { name: "CSV-TABLE".to_string(), data_type: DataType::CsvTable },
        ]
    );
    assert_eq!(
        program.procedure.statements,
        vec![
            ProcedureStatement::Compress { target: "VIDEO-MP4".to_string() },
            ProcedureStatement::Extract { target: "VIDEO-MP4".to_string(), path: "path".to_string() },
            ProcedureStatement::Merge { targets: vec!["CSV-TABLE".to_string()], output_name: "out".to_string() },
            ProcedureStatement::Transcode { target: "VIDEO-MP4".to_string(), output_type: DataType::ImageJpg },
        ]
    );
}

#[test]
fn parser_method_and_free_parse_agree() {
    let tokens = tokenize(FULL).unwrap();
    assert_eq!(Parser::new(tokens.clone()).parse(), parse(tokens));
}

#[test]
fn compile_lowers_each_statement_in_order() {
    let instructions = compile(FULL).unwrap();
    let texts: Vec<String> = instructions.iter().map(|i| i.to_string()).collect();
    assert_eq!(
        texts,
        vec!["COMPRESS VIDEO-MP4", "EXTRACT VIDEO-MP4 path", "MERGE CSV-TABLE out", "TRANSCODE VIDEO-MP4 IMAGE-JPG"]
    );
    assert_eq!(
        listing(&instructions),
        "COMPRESS VIDEO-MP4\nEXTRACT VIDEO-MP4 path\nMERGE CSV-TABLE out\nTRANSCODE VIDEO-MP4 IMAGE-JPG"
    );
    assert_eq!(
        instructions[0],
        Instruction { opcode: Opcode::Compress, operands: vec!["VIDEO-MP4".to_string()] }
    );
}

#[test]
fn listing_of_no_instructions_says_so() {
    let source = "IDENTIFICATION DIVISION. ENVIRONMENT DIVISION. DATA DIVISION. PROCEDURE DIVISION.";
    let instructions = compile(source).unwrap();
    assert!(instructions.is_empty());
    assert_eq!(listing(&instructions), "(empty program)");
}

#[test]
fn lowering_puts_buffers_first() {
    let s = ProcedureStatement::Aggregate { targets: vec!["a".to_string()], operation: "sum".to_string() };
    assert_eq!(lower(&s).to_string(), "AGGREGATE a sum");
    let s = ProcedureStatement::Convert { target: "a".to_string(), output_type: DataType::JsonObject };
    assert_eq!(lower(&s).to_string(), "CONVERT a JSON-OBJECT");
}

#[test]
fn first_undeclared_variable_is_reported() {
    let source = "IDENTIFICATION DIVISION. ENVIRONMENT DIVISION. DATA DIVISION. INPUT VIDEO-MP4.
PROCEDURE DIVISION. COMPRESS VIDEO-MP4. VALIDATE first schema. SPLIT second 4.";
    assert_eq!(compile(source).unwrap_err(), "Variable 'first' is not declared in DATA DIVISION");
    let program = parse(tokenize(source).unwrap()).unwrap();
    assert_eq!(find_undeclared(&program), Some("first".to_string()));
}

#[test]
fn parse_errors_name_what_was_expected() {
    let cases: Vec<(&str, &str)> = vec![
        (
            "DATA DIVISION.",
            "Division order error: Expected 'IDENTIFICATION DIVISION' but got 'DATA DIVISION'. Divisions must appear in order: IDENTIFICATION → ENVIRONMENT → DATA → PROCEDURE",
        ),
        ("IDENTIFICATION DIVISION. PROGRAM-ID X.", "Expected ., got IDENTIFIER(X)"),
        (
            "IDENTIFICATION DIVISION. PROGRAM-ID. X. DATA DIVISION. PROCEDURE DIVISION.",
            "Division order error: Expected 'ENVIRONMENT DIVISION' but got 'DATA DIVISION'. Divisions must appear in order: IDENTIFICATION → ENVIRONMENT → DATA → PROCEDURE",
        ),
        ("IDENTIFICATION DIVISION. PROGRAM-ID. X. AUTHOR. Y.", "Unexpected EOF in IDENTIFICATION DIVISION"),
        (
            "IDENTIFICATION DIVISION. DATA DIVISION. ENVIRONMENT DIVISION. DATA DIVISION. PROCEDURE DIVISION.",
            "Division order error: Expected 'ENVIRONMENT DIVISION' but got 'DATA DIVISION'. Divisions must appear in order: IDENTIFICATION → ENVIRONMENT → DATA → PROCEDURE",
        ),
        ("IDENTIFICATION DIVISION. ENVIRONMENT DIVISION. COMPRESS.", "Unexpected token in ENVIRONMENT: Compress"),
        ("IDENTIFICATION DIVISION. ENVIRONMENT DIVISION.", "Unexpected EOF in ENVIRONMENT DIVISION"),
        (
            "IDENTIFICATION DIVISION. ENVIRONMENT DIVISION. DATA DIVISION. foo.",
            "Expected INPUT or OUTPUT in DATA DIVISION, got IDENTIFIER(foo)",
        ),
        ("IDENTIFICATION DIVISION. ENVIRONMENT DIVISION. DATA DIVISION. INPUT .", "Expected data type, got ."),
        ("IDENTIFICATION DIVISION. ENVIRONMENT DIVISION. DATA DIVISION.", "Unexpected EOF in DATA DIVISION"),
        (
            "IDENTIFICATION DIVISION. ENVIRONMENT DIVISION. DATA DIVISION. PROCEDURE DIVISION. OS.",
            "Unknown procedure statement: Os",
        ),
        (
            "IDENTIFICATION DIVISION. ENVIRONMENT DIVISION. DATA DIVISION. PROCEDURE DIVISION. COMPRESS .",
            "Expected variable name or type, got .",
        ),
        (
            "IDENTIFICATION DIVISION. ENVIRONMENT DIVISION. DATA DIVISION. PROCEDURE DIVISION. TRANSCODE a b.",
            "Expected data type, got IDENTIFIER(b)",
        ),
        (
            "IDENTIFICATION DIVISION. ENVIRONMENT DIVISION. DATA DIVISION. PROCEDURE DIVISION. FILTER a \"c\".",
            "Expected identifier, got STRING(c)",
        ),
    ];
    for (source, expected) in cases {
        assert_eq!(compile(source).unwrap_err(), expected, "source: {}", source);
    }
}

#[test]
fn diagnostics_are_the_compile_error() {
    assert_eq!(diagnostics(&"DATA DIVISION.".to_string()).len(), 1);
    let ok = "IDENTIFICATION DIVISION. ENVIRONMENT DIVISION. DATA DIVISION. PROCEDURE DIVISION.".to_string();
    assert!(diagnostics(&ok).is_empty());
}

#[test]
fn only_exit_ends_the_server() {
    assert_eq!(notification_action("exit"), NotificationAction::Exit);
    assert_eq!(notification_action("initialized"), NotificationAction::Ignore);
}

#[test]
fn a_word_inside_a_character_cannot_be_cut() {
    let doc: Vec<char> = "é a".chars().collect();
    assert!(!cut_ok(&doc, 0, 1));
    assert!(!cut_ok(&doc, 0, 0));
    assert!(cut_ok(&doc, 0, 3));
    assert!(cut_ok(&doc, 5, 0));
    assert!(fits(&"é a".to_string()));

    let mut handler = MessageHandler::new();
    handler.set_document("u".to_string(), "é a".to_string());
    let at = |c: usize| {
        Some(RequestParams {
            uri: Some("u".to_string()),
            text: None,
            line: Some(0),
            character: Some(c),
            new_name: None,
            query: None,
            content_changes: None,
        })
    };
    assert!(!handler.accepts("textDocument/references", &at(1)));
    assert!(handler.accepts("textDocument/references", &at(3)));
    assert!(handler.accepts("textDocument/hover", &at(1)));
    assert!(handler.handle_accepted("textDocument/references", at(1)).is_none());
    let h = handler.handle_accepted("textDocument/references", at(3)).unwrap();
    assert!(h.result.is_ok());
    assert_eq!(handler.get_document("u"), Some("é a".to_string()));
}

#[test]
fn default_handler_has_no_documents() {
    assert_eq!(MessageHandler::default().get_document("u"), None);
}

#[test]
fn hover_after_change_reads_the_last_change() {
    let mut handler = MessageHandler::new();
    let p = |text: Option<&str>, changes: Option<Vec<Option<String>>>, line: Option<usize>| RequestParams {
        uri: Some("u".to_string()),
        text: text.map(|t| t.to_string()),
        line,
        character: line.map(|_| 0),
        new_name: None,
        query: None,
        content_changes: changes,
    };
    handler.handle_request("textDocument/didOpen", Some(p(Some("old"), None, None)));
    let changes = vec![Some("first".to_string()), Some("x\nsecond".to_string())];
    handler.handle_request("textDocument/didChange", Some(p(None, Some(changes), None)));
    let h = handler.handle_request("textDocument/hover", Some(p(None, None, Some(1))));
    match h.result {
        Ok(centra_nf::handler::Reply::Hover(t)) => {
            assert_eq!(t, "Line 2: `second`\n\n**CENTRA-NF Language**\nHover support available.")
        }
        other => panic!("unexpected {:?}", other),
    }
}

#[test]
fn unquoted_setting_is_rejected() {
    let source = "IDENTIFICATION DIVISION. ENVIRONMENT DIVISION. ARCH x86. DATA DIVISION. PROCEDURE DIVISION.";
    assert_eq!(compile(source).unwrap_err(), "Expected quoted string, got IDENTIFIER(x86)");
}

#[test]
fn keywords_follow_unicode_upper_case() {
    assert_eq!("oſ".to_uppercase(), "OS");
    assert_eq!(keyword_for(&"oſ".to_uppercase(), "oſ"), Token::Os);
    assert_eq!(keyword_for("OSX", "osx"), Token::Identifier("osx".to_string()));
    assert_eq!(keyword_for("DATA", "Data"), Token::DataDiv);
}

#[test]
fn tokens_of_joined_texts_are_joined() {
    let a = "IDENTIFICATION DIVISION.";
    let b = "OS \"x\" ok";
    let mut expected = tokenize(a).unwrap();
    expected.pop();
    expected.extend(tokenize(b).unwrap());
    assert_eq!(tokenize(&format!("{} {}", a, b)).unwrap(), expected);
}

#[test]
fn parsing_stops_at_the_first_eof() {
    let tokens = tokenize(FULL).unwrap();
    let mut longer = tokens.clone();
    longer.push(Token::Eof);
    longer.push(Token::Identifier("x".to_string()));
    assert_eq!(parse(longer), parse(tokens.clone()));
    let mut cut = tokens.clone();
    cut.pop();
    assert_eq!(parse(cut), parse(tokens));
}

#[test]
fn data_types_round_trip_through_their_spelling() {
    let all = [
        DataType::VideoMp4,
        DataType::ImageJpg,
        DataType::FinancialDecimal,
        DataType::AudioWav,
        DataType::CsvTable,
        DataType::BinaryBlob,
        DataType::JsonObject,
        DataType::XmlDocument,
        DataType::ParquetTable,
    ];
    for d in all {
        let spelling = d.to_string();
        let source = format!(
            "IDENTIFICATION DIVISION. ENVIRONMENT DIVISION. DATA DIVISION. INPUT {}. PROCEDURE DIVISION.",
            spelling.to_lowercase()
        );
        let program = parse(tokenize(&source).unwrap()).unwrap();
        assert_eq!(program.data.variables, vec![Variable { name: spelling.clone(), data_type: d }]);
    }
}

#[test]
fn settings_in_any_order_give_equal_programs() {
    let a = "IDENTIFICATION DIVISION. ENVIRONMENT DIVISION. OS \"L\". RUNTIME-VERSION \"1\". ARCH \"x\". DATA DIVISION. PROCEDURE DIVISION.";
    let b = "IDENTIFICATION DIVISION. ENVIRONMENT DIVISION. ARCH \"x\". OS \"L\". RUNTIME-VERSION \"1\". DATA DIVISION. PROCEDURE DIVISION.";
    let pa = parse(tokenize(a).unwrap()).unwrap();
    let pb = parse(tokenize(b).unwrap()).unwrap();
    assert_eq!(pa, pb);
    assert_eq!(
        pa.environment.config,
        vec![
            ("ARCH".to_string(), "x".to_string()),
            ("OS".to_string(), "L".to_string()),
            ("RUNTIME-VERSION".to_string(), "1".to_string()),
        ]
    );
}

#[test]
fn keys_are_ordered_by_their_characters() {
    assert!(less_key("ARCH", "OS"));
    assert!(!less_key("OS", "ARCH"));
    assert!(!less_key("OS", "OS"));
    assert!(less_key("OS", "OSX"));
    assert!(less_key("", "a"));
    assert!(less_key("Z", "a"));
}
