//! A compiler front end for the CENTRA-NF language: a lexer, a parser that
//! enforces the order of the four divisions, a declaration check and a
//! lowering to instructions, and the request logic of its language server.

pub mod ast;
pub mod ir;
pub mod lexer;
pub mod pairs;
pub mod parser;
pub mod text;

pub use ast::{
    DataDivision, DataType, Division, EnvironmentDivision, IdentificationDivision, ProcedureDivision,
    ProcedureStatement, Program, Variable,
};
pub use ir::{compile, Instruction, Opcode};
pub use lexer::{tokenize, Token};
pub use parser::{parse, Parser};
pub mod laws;
pub mod handler;
