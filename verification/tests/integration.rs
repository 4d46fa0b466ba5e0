//! The full pipeline: source text to instructions.

use centra_nf::compile;


    #[test]
    fn test_pipeline_rejects_invalid_division_order() {
        let source = r#"
            ENVIRONMENT DIVISION.
            IDENTIFICATION DIVISION.
        "#;

        let result = compile(source);
        assert!(result.is_err());
        let error = result.unwrap_err();
        assert!(error.contains("Division order error"));
    }

    #[test]
    fn test_pipeline_rejects_unquoted_env_value() {
        let source = r#"
            IDENTIFICATION DIVISION.
                PROGRAM-ID. Test.
            ENVIRONMENT DIVISION.
                OS Linux.
            DATA DIVISION.
            PROCEDURE DIVISION.
        "#;

        let result = compile(source);
        assert!(result.is_err());
        let error = result.unwrap_err();
        assert!(error.contains("Expected quoted string"));
    }

    #[test]
    fn test_pipeline_determinism_compile_twice_same_result() {
        let source = r#"
            IDENTIFICATION DIVISION.
                PROGRAM-ID. Determinism.
            ENVIRONMENT DIVISION.
                OS "Linux".
            DATA DIVISION.
            PROCEDURE DIVISION.
        "#;

        let ir1 = compile(source).expect("First compile should succeed");
        let ir2 = compile(source).expect("Second compile should succeed");

        // Verify byte-for-byte identical IR
        // Same source → same AST → same IR (deterministically, even if empty)
        assert_eq!(
            ir1, ir2,
            "IR must be identical on repeated compilation of identical source"
        );
    }



    #[test]
    fn test_error_messages_are_explicit() {
        // Test that error messages cite what was expected vs received
        let source = r#"
            DATA DIVISION.
            IDENTIFICATION DIVISION.
        "#;

        let result = compile(source);
        assert!(result.is_err());
        let error = result.unwrap_err();

        // Should explain the requirement
        assert!(error.contains("expected") || error.contains("Expected"));
        assert!(error.contains("received") || error.contains("got"));
    }

    // === New Operations Tests (TRANSCODE, FILTER, AGGREGATE) ===

    #[test]
    fn test_transcode_operation_with_audio_type() {
        let source = r#"
            IDENTIFICATION DIVISION.
                PROGRAM-ID. TranscodeTest.
            ENVIRONMENT DIVISION.
                OS "Linux".
            DATA DIVISION.
                INPUT AUDIO-WAV.
            PROCEDURE DIVISION.
                TRANSCODE AUDIO-WAV CSV-TABLE.
        "#;

        let result = compile(source);
        assert!(result.is_ok(), "TRANSCODE operation should compile");
        let ir = result.unwrap();
        assert!(!ir.is_empty());
        assert!(ir
            .iter()
            .any(|instr| instr.to_string().contains("TRANSCODE")));
    }

    #[test]
    fn test_transcode_operation_with_video_type() {
        let source = r#"
            IDENTIFICATION DIVISION.
                PROGRAM-ID. TranscodeVideo.
            ENVIRONMENT DIVISION.
                OS "Linux".
            DATA DIVISION.
                INPUT VIDEO-MP4.
            PROCEDURE DIVISION.
                TRANSCODE VIDEO-MP4 IMAGE-JPG.
        "#;

        let result = compile(source);
        assert!(result.is_ok());
        let ir = result.unwrap();
        let instr_str = ir
            .iter()
            .map(|i| i.to_string())
            .collect::<Vec<_>>()
            .join("; ");
        assert!(instr_str.contains("TRANSCODE"));
    }

    #[test]
    fn test_filter_operation() {
        let source = r#"
            IDENTIFICATION DIVISION.
                PROGRAM-ID. FilterTest.
            ENVIRONMENT DIVISION.
                OS "Linux".
            DATA DIVISION.
                INPUT CSV-TABLE.
            PROCEDURE DIVISION.
                FILTER CSV-TABLE condition.
        "#;

        let result = compile(source);
        assert!(result.is_ok(), "FILTER operation should compile");
        let ir = result.unwrap();
        assert!(ir.iter().any(|instr| instr.to_string().contains("FILTER")));
    }

    #[test]
    fn test_aggregate_operation() {
        let source = r#"
            IDENTIFICATION DIVISION.
                PROGRAM-ID. AggregateTest.
            ENVIRONMENT DIVISION.
                OS "Linux".
            DATA DIVISION.
                INPUT CSV-TABLE.
            PROCEDURE DIVISION.
                AGGREGATE CSV-TABLE sum.
        "#;

        let result = compile(source);
        assert!(result.is_ok(), "AGGREGATE operation should compile");
        let ir = result.unwrap();
        assert!(ir
            .iter()
            .any(|instr| instr.to_string().contains("AGGREGATE")));
    }

    // === New Data Types Tests ===

    #[test]
    fn test_audio_wav_data_type() {
        let source = r#"
            IDENTIFICATION DIVISION.
                PROGRAM-ID. AudioTest.
            ENVIRONMENT DIVISION.
                OS "Linux".
            DATA DIVISION.
                INPUT AUDIO-WAV.
            PROCEDURE DIVISION.
        "#;

        let result = compile(source);
        assert!(result.is_ok(), "AUDIO-WAV type should be recognized");
    }

    #[test]
    fn test_csv_table_data_type() {
        let source = r#"
            IDENTIFICATION DIVISION.
                PROGRAM-ID. CsvTest.
            ENVIRONMENT DIVISION.
                OS "Linux".
            DATA DIVISION.
                OUTPUT CSV-TABLE.
            PROCEDURE DIVISION.
        "#;

        let result = compile(source);
        assert!(result.is_ok(), "CSV-TABLE type should be recognized");
    }

    #[test]
    fn test_binary_blob_data_type() {
        let source = r#"
            IDENTIFICATION DIVISION.
                PROGRAM-ID. BlobTest.
            ENVIRONMENT DIVISION.
                OS "Linux".
            DATA DIVISION.
                INPUT BINARY-BLOB.
            PROCEDURE DIVISION.
        "#;

        let result = compile(source);
        assert!(result.is_ok(), "BINARY-BLOB type should be recognized");
    }

    // === Negative Tests (Type Mismatches & Invalid Operations) ===

    #[test]
    fn test_transcode_with_undeclared_variable() {
        let source = r#"
            IDENTIFICATION DIVISION.
                PROGRAM-ID. BadTranscode.
            ENVIRONMENT DIVISION.
                OS "Linux".
            DATA DIVISION.
                INPUT VIDEO-MP4.
            PROCEDURE DIVISION.
                TRANSCODE UNDECLARED CSV-TABLE.
        "#;

        let result = compile(source);
        assert!(
            result.is_err(),
            "Should reject transcode with undeclared variable"
        );
        let error = result.unwrap_err();
        assert!(error.contains("not declared"));
    }

    #[test]
    fn test_filter_with_undeclared_variable() {
        let source = r#"
            IDENTIFICATION DIVISION.
                PROGRAM-ID. BadFilter.
            ENVIRONMENT DIVISION.
                OS "Linux".
            DATA DIVISION.
                INPUT CSV-TABLE.
            PROCEDURE DIVISION.
                FILTER NOTDECLARED cond.
        "#;

        let result = compile(source);
        assert!(
            result.is_err(),
            "Should reject filter with undeclared variable"
        );
    }

    #[test]
    fn test_aggregate_with_multiple_undeclared() {
        let source = r#"
            IDENTIFICATION DIVISION.
                PROGRAM-ID. BadAggregate.
            ENVIRONMENT DIVISION.
                OS "Linux".
            DATA DIVISION.
            PROCEDURE DIVISION.
                AGGREGATE UNKNOWN1 sum.
        "#;

        let result = compile(source);
        assert!(
            result.is_err(),
            "Should reject aggregate with undeclared variables"
        );
    }

    // === Determinism Tests for New Operations ===

    #[test]
    fn test_new_operations_determinism() {
        let source = r#"
            IDENTIFICATION DIVISION.
                PROGRAM-ID. DeterminismTest.
            ENVIRONMENT DIVISION.
                OS "Linux".
            DATA DIVISION.
                INPUT AUDIO-WAV.
                OUTPUT CSV-TABLE.
            PROCEDURE DIVISION.
                TRANSCODE AUDIO-WAV CSV-TABLE.
                FILTER CSV-TABLE condition.
                AGGREGATE CSV-TABLE sum.
        "#;

        let ir1 = compile(source).expect("First compile should succeed");
        let ir2 = compile(source).expect("Second compile should succeed");

        // Verify byte-for-byte identical IR
        assert_eq!(ir1, ir2, "IR must be identical on repeated compilation");
        assert!(ir1.len() > 0, "Should generate non-empty IR");
    }

    // === Extended Operations Tests (CONVERT, MERGE, SPLIT, VALIDATE, EXTRACT) ===

    #[test]
    fn test_convert_operation_with_json() {
        let source = r#"
            IDENTIFICATION DIVISION.
                PROGRAM-ID. ConvertTest.
            ENVIRONMENT DIVISION.
                OS "Linux".
            DATA DIVISION.
                INPUT CSV-TABLE.
            PROCEDURE DIVISION.
                CONVERT CSV-TABLE JSON-OBJECT.
        "#;

        let result = compile(source);
        assert!(result.is_ok(), "CONVERT operation should compile");
        let ir = result.unwrap();
        assert!(ir.iter().any(|instr| instr.to_string().contains("CONVERT")));
    }

    #[test]
    fn test_merge_operation() {
        let source = r#"
            IDENTIFICATION DIVISION.
                PROGRAM-ID. MergeTest.
            ENVIRONMENT DIVISION.
                OS "Linux".
            DATA DIVISION.
                INPUT JSON-OBJECT.
                OUTPUT XML-DOCUMENT.
            PROCEDURE DIVISION.
                MERGE JSON-OBJECT merged.
        "#;

        let result = compile(source);
        assert!(result.is_ok(), "MERGE operation should compile");
        let ir = result.unwrap();
        assert!(ir.iter().any(|instr| instr.to_string().contains("MERGE")));
    }

    #[test]
    fn test_split_operation() {
        let source = r#"
            IDENTIFICATION DIVISION.
                PROGRAM-ID. SplitTest.
            ENVIRONMENT DIVISION.
                OS "Linux".
            DATA DIVISION.
                INPUT PARQUET-TABLE.
            PROCEDURE DIVISION.
                SPLIT PARQUET-TABLE 4.
        "#;

        let result = compile(source);
        if result.is_err() {
            println!("Error: {}", result.clone().unwrap_err());
        }
        assert!(result.is_ok(), "SPLIT operation should compile");
        let ir = result.unwrap();
        assert!(ir.iter().any(|instr| instr.to_string().contains("SPLIT")));
    }

    #[test]
    fn test_validate_operation() {
        let source = r#"
            IDENTIFICATION DIVISION.
                PROGRAM-ID. ValidateTest.
            ENVIRONMENT DIVISION.
                OS "Linux".
            DATA DIVISION.
                INPUT JSON-OBJECT.
            PROCEDURE DIVISION.
                VALIDATE JSON-OBJECT schema.
        "#;

        let result = compile(source);
        assert!(result.is_ok(), "VALIDATE operation should compile");
        let ir = result.unwrap();
        assert!(ir
            .iter()
            .any(|instr| instr.to_string().contains("VALIDATE")));
    }

    #[test]
    fn test_extract_operation() {
        let source = r#"
            IDENTIFICATION DIVISION.
                PROGRAM-ID. ExtractTest.
            ENVIRONMENT DIVISION.
                OS "Linux".
            DATA DIVISION.
                INPUT JSON-OBJECT.
            PROCEDURE DIVISION.
                EXTRACT jsonpath JSON-OBJECT.
        "#;

        let result = compile(source);
        assert!(result.is_ok(), "EXTRACT operation should compile");
        let ir = result.unwrap();
        assert!(ir.iter().any(|instr| instr.to_string().contains("EXTRACT")));
    }

    // === New Data Types Recognition Tests ===

    #[test]
    fn test_json_object_data_type() {
        let source = r#"
            IDENTIFICATION DIVISION.
                PROGRAM-ID. JsonTest.
            ENVIRONMENT DIVISION.
                OS "Linux".
            DATA DIVISION.
                INPUT JSON-OBJECT.
            PROCEDURE DIVISION.
        "#;

        let result = compile(source);
        assert!(result.is_ok(), "JSON-OBJECT type should be recognized");
    }

    #[test]
    fn test_xml_document_data_type() {
        let source = r#"
            IDENTIFICATION DIVISION.
                PROGRAM-ID. XmlTest.
            ENVIRONMENT DIVISION.
                OS "Linux".
            DATA DIVISION.
                OUTPUT XML-DOCUMENT.
            PROCEDURE DIVISION.
        "#;

        let result = compile(source);
        assert!(result.is_ok(), "XML-DOCUMENT type should be recognized");
    }

    #[test]
    fn test_parquet_table_data_type() {
        let source = r#"
            IDENTIFICATION DIVISION.
                PROGRAM-ID. ParquetTest.
            ENVIRONMENT DIVISION.
                OS "Linux".
            DATA DIVISION.
                INPUT PARQUET-TABLE.
            PROCEDURE DIVISION.
        "#;

        let result = compile(source);
        assert!(result.is_ok(), "PARQUET-TABLE type should be recognized");
    }

    // === Negative Tests for Extended Operations ===

    #[test]
    fn test_convert_with_undeclared_variable() {
        let source = r#"
            IDENTIFICATION DIVISION.
                PROGRAM-ID. BadConvert.
            ENVIRONMENT DIVISION.
                OS "Linux".
            DATA DIVISION.
                INPUT JSON-OBJECT.
            PROCEDURE DIVISION.
                CONVERT UNDECLARED2 XML-DOCUMENT.
        "#;

        let result = compile(source);
        assert!(
            result.is_err(),
            "Should reject convert with undeclared variable"
        );
    }

    #[test]
    fn test_extract_with_undeclared_variable() {
        let source = r#"
            IDENTIFICATION DIVISION.
                PROGRAM-ID. BadExtract.
            ENVIRONMENT DIVISION.
                OS "Linux".
            DATA DIVISION.
                INPUT JSON-OBJECT.
            PROCEDURE DIVISION.
                EXTRACT path UNDECLARED3.
        "#;

        let result = compile(source);
        assert!(
            result.is_err(),
            "Should reject extract with undeclared variable"
        );
    }

    // === Extended Determinism Test ===

    #[test]
    fn test_extended_operations_determinism() {
        let source = r#"
            IDENTIFICATION DIVISION.
                PROGRAM-ID. ExtendedDetermTest.
            ENVIRONMENT DIVISION.
                OS "Linux".
            DATA DIVISION.
                INPUT JSON-OBJECT.
                OUTPUT XML-DOCUMENT.
            PROCEDURE DIVISION.
                CONVERT JSON-OBJECT XML-DOCUMENT.
                MERGE JSON-OBJECT merged.
                VALIDATE JSON-OBJECT schema.
                EXTRACT jsonpath JSON-OBJECT.
        "#;

        let ir1 = compile(source).expect("First compile should succeed");
        let ir2 = compile(source).expect("Second compile should succeed");

        assert_eq!(
            ir1, ir2,
            "Extended operations IR must be identical on repeated compilation"
        );
        assert!(ir1.len() >= 4, "Should generate multiple instructions");
    }
