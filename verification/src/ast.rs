//! Abstract syntax tree of a CENTRA-NF program, with a mathematical view of
//! each node in which every string is a `Seq<char>`.

use vstd::prelude::*;

use crate::pairs::{keys_sorted, pairs_map, pairs_view};
use crate::text::owned;

verus! {

/// A whole program: its four divisions, in the order in which they appear.
#[derive(Debug, Clone, PartialEq)]
pub struct Program {
    pub identification: IdentificationDivision,
    pub environment: EnvironmentDivision,
    pub data: DataDivision,
    pub procedure: ProcedureDivision,
}

/// The IDENTIFICATION DIVISION: the program's name, author and version.
#[derive(Debug, Clone, PartialEq)]
pub struct IdentificationDivision {
    pub program_id: String,
    pub author: Option<String>,
    pub version: Option<String>,
}

/// The ENVIRONMENT DIVISION: settings from a key to its quoted value.
///
/// The settings are kept as pairs in increasing order of key (see
/// `config_wf`), so no key occurs twice and the pairs stand for a map from
/// keys to values; two divisions with the same settings have the same
/// pairs, whatever order the settings were written in.
#[derive(Debug, Clone, PartialEq)]
pub struct EnvironmentDivision {
    pub config: Vec<(String, String)>,
}

/// The DATA DIVISION: the declared variables.
#[derive(Debug, Clone, PartialEq)]
pub struct DataDivision {
    pub variables: Vec<Variable>,
}

/// A declared variable and its type.
#[derive(Debug, Clone, PartialEq)]
pub struct Variable {
    pub name: String,
    pub data_type: DataType,
}

/// The data types of the language.
#[derive(Debug, Clone, Copy, PartialEq, Eq)]
pub enum DataType {
    VideoMp4,
    ImageJpg,
    FinancialDecimal,
    AudioWav,
    CsvTable,
    BinaryBlob,
    JsonObject,
    XmlDocument,
    ParquetTable,
}

/// The PROCEDURE DIVISION: the statements, in order.
#[derive(Debug, Clone, PartialEq)]
pub struct ProcedureDivision {
    pub statements: Vec<ProcedureStatement>,
}

/// A statement of the PROCEDURE DIVISION.
#[derive(Debug, Clone, PartialEq)]
pub enum ProcedureStatement {
    Compress { target: String },
    VerifyIntegrity { target: String },
    Transcode { target: String, output_type: DataType },
    Filter { target: String, condition: String },
    Aggregate { targets: Vec<String>, operation: String },
    Convert { target: String, output_type: DataType },
    Merge { targets: Vec<String>, output_name: String },
    Split { target: String, parts: String },
    Validate { target: String, schema: String },
    Extract { target: String, path: String },
}

/// The four divisions.
pub enum Division {
    Identification,
    Environment,
    Data,
    Procedure,
}

/// The spelling of a data type in source text.
pub open spec fn data_type_name(t: DataType) -> Seq<char> {
    match t {
        DataType::VideoMp4 => "VIDEO-MP4"@,
        DataType::ImageJpg => "IMAGE-JPG"@,
        DataType::FinancialDecimal => "FINANCIAL-DECIMAL"@,
        DataType::AudioWav => "AUDIO-WAV"@,
        DataType::CsvTable => "CSV-TABLE"@,
        DataType::BinaryBlob => "BINARY-BLOB"@,
        DataType::JsonObject => "JSON-OBJECT"@,
        DataType::XmlDocument => "XML-DOCUMENT"@,
        DataType::ParquetTable => "PARQUET-TABLE"@,
    }
}

impl DataType {
    /// The spelling of the data type in source text.
    pub fn to_string(&self) -> (s: String)
        ensures
            s@ == data_type_name(*self),
    {
        match self {
            DataType::VideoMp4 => owned("VIDEO-MP4"),
            DataType::ImageJpg => owned("IMAGE-JPG"),
            DataType::FinancialDecimal => owned("FINANCIAL-DECIMAL"),
            DataType::AudioWav => owned("AUDIO-WAV"),
            DataType::CsvTable => owned("CSV-TABLE"),
            DataType::BinaryBlob => owned("BINARY-BLOB"),
            DataType::JsonObject => owned("JSON-OBJECT"),
            DataType::XmlDocument => owned("XML-DOCUMENT"),
            DataType::ParquetTable => owned("PARQUET-TABLE"),
        }
    }
}

/// The heading of a division.
pub open spec fn division_name(d: Division) -> Seq<char> {
    match d {
        Division::Identification => "IDENTIFICATION DIVISION"@,
        Division::Environment => "ENVIRONMENT DIVISION"@,
        Division::Data => "DATA DIVISION"@,
        Division::Procedure => "PROCEDURE DIVISION"@,
    }
}

impl Division {
    /// The heading of the division.
    pub fn to_string(&self) -> (s: String)
        ensures
            s@ == division_name(*self),
    {
        match self {
            Division::Identification => owned("IDENTIFICATION DIVISION"),
            Division::Environment => owned("ENVIRONMENT DIVISION"),
            Division::Data => owned("DATA DIVISION"),
            Division::Procedure => owned("PROCEDURE DIVISION"),
        }
    }
}

/// The view of the IDENTIFICATION DIVISION.
pub struct IdentificationView {
    pub program_id: Seq<char>,
    pub author: Option<Seq<char>>,
    pub version: Option<Seq<char>>,
}

/// The view of a declared variable.
pub struct VariableView {
    pub name: Seq<char>,
    pub data_type: DataType,
}

/// The view of a statement.
pub enum StatementView {
    Compress { target: Seq<char> },
    VerifyIntegrity { target: Seq<char> },
    Transcode { target: Seq<char>, output_type: DataType },
    Filter { target: Seq<char>, condition: Seq<char> },
    Aggregate { targets: Seq<Seq<char>>, operation: Seq<char> },
    Convert { target: Seq<char>, output_type: DataType },
    Merge { targets: Seq<Seq<char>>, output_name: Seq<char> },
    Split { target: Seq<char>, parts: Seq<char> },
    Validate { target: Seq<char>, schema: Seq<char> },
    Extract { target: Seq<char>, path: Seq<char> },
}

/// The view of a program.
pub struct ProgramView {
    pub identification: IdentificationView,
    pub environment: Map<Seq<char>, Seq<char>>,
    pub data: Seq<VariableView>,
    pub procedure: Seq<StatementView>,
}

/// The text of an optional string.
pub open spec fn opt_view(o: Option<String>) -> Option<Seq<char>> {
    match o {
        Some(s) => Some(s@),
        None => None,
    }
}

/// The texts of a sequence of strings.
pub open spec fn strings_view(v: Seq<String>) -> Seq<Seq<char>> {
    v.map_values(|s: String| s@)
}

impl View for Variable {
    type V = VariableView;

    open spec fn view(&self) -> VariableView {
        VariableView { name: self.name@, data_type: self.data_type }
    }
}

impl View for IdentificationDivision {
    type V = IdentificationView;

    open spec fn view(&self) -> IdentificationView {
        IdentificationView {
            program_id: self.program_id@,
            author: opt_view(self.author),
            version: opt_view(self.version),
        }
    }
}

impl View for ProcedureStatement {
    type V = StatementView;

    open spec fn view(&self) -> StatementView {
        match self {
            ProcedureStatement::Compress { target } => StatementView::Compress { target: target@ },
            ProcedureStatement::VerifyIntegrity { target } => StatementView::VerifyIntegrity { target: target@ },
            ProcedureStatement::Transcode { target, output_type } => StatementView::Transcode {
                target: target@,
                output_type: *output_type,
            },
            ProcedureStatement::Filter { target, condition } => StatementView::Filter {
                target: target@,
                condition: condition@,
            },
            ProcedureStatement::Aggregate { targets, operation } => StatementView::Aggregate {
                targets: strings_view(targets@),
                operation: operation@,
            },
            ProcedureStatement::Convert { target, output_type } => StatementView::Convert {
                target: target@,
                output_type: *output_type,
            },
            ProcedureStatement::Merge { targets, output_name } => StatementView::Merge {
                targets: strings_view(targets@),
                output_name: output_name@,
            },
            ProcedureStatement::Split { target, parts } => StatementView::Split { target: target@, parts: parts@ },
            ProcedureStatement::Validate { target, schema } => StatementView::Validate {
                target: target@,
                schema: schema@,
            },
            ProcedureStatement::Extract { target, path } => StatementView::Extract { target: target@, path: path@ },
        }
    }
}

impl EnvironmentDivision {
    /// Well-formedness: the keys increase strictly from pair to pair.
    pub open spec fn config_wf(&self) -> bool {
        keys_sorted(pairs_view(self.config@))
    }
}

impl View for EnvironmentDivision {
    type V = Map<Seq<char>, Seq<char>>;

    open spec fn view(&self) -> Map<Seq<char>, Seq<char>> {
        pairs_map(pairs_view(self.config@))
    }
}

impl View for Program {
    type V = ProgramView;

    open spec fn view(&self) -> ProgramView {
        ProgramView {
            identification: self.identification@,
            environment: self.environment@,
            data: self.data.variables@.map_values(|v: Variable| v@),
            procedure: self.procedure.statements@.map_values(|s: ProcedureStatement| s@),
        }
    }
}

impl Program {
    /// Well-formedness: the environment settings have distinct keys.
    pub open spec fn wf(&self) -> bool {
        self.environment.config_wf()
    }
}

} // verus!
