//! Parser: builds a `Program` from a token sequence, enforcing the order
//! IDENTIFICATION → ENVIRONMENT → DATA → PROCEDURE and failing on the first
//! deviation with a message that says what was expected and what was found.

use vstd::prelude::*;

use crate::ast::{
    data_type_name, opt_view, strings_view,
    DataDivision, DataType, EnvironmentDivision, IdentificationDivision, IdentificationView,
    ProcedureDivision, ProcedureStatement, Program, ProgramView, StatementView, Variable,
    VariableView,
};
use crate::pairs::{insert_pair, keys_sorted, pairs_map, pairs_view};
use crate::lexer::{token_text, token_views, variant_index, Token, TokenView};
use crate::text::{owned, push_str, string_of};

verus! {

// ---------------------------------------------------------------------------
// The grammar, stated over token views and positions.
// ---------------------------------------------------------------------------

/// The token at `pos`, or `Eof` past the end.
pub open spec fn cur(toks: Seq<TokenView>, pos: nat) -> TokenView {
    if pos < toks.len() {
        toks[pos as int]
    } else {
        TokenView::Eof
    }
}

/// The position after `pos`; the position stays at the end once there.
pub open spec fn next_pos(toks: Seq<TokenView>, pos: nat) -> nat {
    if pos < toks.len() {
        pos + 1
    } else {
        pos
    }
}

/// The message for a token that is not the one expected.
pub open spec fn expected_message(expected: TokenView, got: TokenView) -> Seq<char> {
    "Expected "@ + token_text(expected) + ", got "@ + token_text(got)
}

/// The message for a division that is not the one expected.
pub open spec fn division_order_message(name: Seq<char>, got: TokenView) -> Seq<char> {
    "Division order error: Expected '"@ + name + "' but got '"@ + token_text(got)
        + "'. Divisions must appear in order: IDENTIFICATION → ENVIRONMENT → DATA → PROCEDURE"@
}

/// A token of the variant of `expected` at `pos`; the position after it.
pub open spec fn expect_at(toks: Seq<TokenView>, pos: nat, expected: TokenView) -> Result<nat, Seq<char>> {
    if variant_index(cur(toks, pos)) == variant_index(expected) {
        Ok(next_pos(toks, pos))
    } else {
        Err(expected_message(expected, cur(toks, pos)))
    }
}

/// A division heading token at `pos`; the position after it.
pub open spec fn expect_division_at(toks: Seq<TokenView>, pos: nat, expected: TokenView, name: Seq<char>) -> Result<nat, Seq<char>> {
    if variant_index(cur(toks, pos)) == variant_index(expected) {
        Ok(next_pos(toks, pos))
    } else {
        Err(division_order_message(name, cur(toks, pos)))
    }
}

/// An identifier at `pos`: its text and the position after it.
pub open spec fn ident_at(toks: Seq<TokenView>, pos: nat) -> Result<(Seq<char>, nat), Seq<char>> {
    match cur(toks, pos) {
        TokenView::Identifier(name) => Ok((name, next_pos(toks, pos))),
        t => Err("Expected identifier, got "@ + token_text(t)),
    }
}

/// A quoted string at `pos`: its text and the position after it.
pub open spec fn string_at(toks: Seq<TokenView>, pos: nat) -> Result<(Seq<char>, nat), Seq<char>> {
    match cur(toks, pos) {
        TokenView::String(value) => Ok((value, next_pos(toks, pos))),
        t => Err("Expected quoted string, got "@ + token_text(t)),
    }
}

/// The data type that a token names, if it names one.
pub open spec fn token_data_type(t: TokenView) -> Option<DataType> {
    match t {
        TokenView::VideoMp4 => Some(DataType::VideoMp4),
        TokenView::ImageJpg => Some(DataType::ImageJpg),
        TokenView::FinancialDecimal => Some(DataType::FinancialDecimal),
        TokenView::AudioWav => Some(DataType::AudioWav),
        TokenView::CsvTable => Some(DataType::CsvTable),
        TokenView::BinaryBlob => Some(DataType::BinaryBlob),
        TokenView::JsonObject => Some(DataType::JsonObject),
        TokenView::XmlDocument => Some(DataType::XmlDocument),
        TokenView::ParquetTable => Some(DataType::ParquetTable),
        _ => None,
    }
}

/// A data type at `pos` and the position after it.
pub open spec fn data_type_at(toks: Seq<TokenView>, pos: nat) -> Result<(DataType, nat), Seq<char>> {
    match token_data_type(cur(toks, pos)) {
        Some(t) => Ok((t, next_pos(toks, pos))),
        None => Err("Expected data type, got "@ + token_text(cur(toks, pos))),
    }
}

/// A variable at `pos`, named by an identifier or by a data type's spelling,
/// and the position after it.
pub open spec fn var_or_type_at(toks: Seq<TokenView>, pos: nat) -> Result<(Seq<char>, nat), Seq<char>> {
    match cur(toks, pos) {
        TokenView::Identifier(name) => Ok((name, next_pos(toks, pos))),
        t => match token_data_type(t) {
            Some(d) => Ok((data_type_name(d), next_pos(toks, pos))),
            None => Err("Expected variable name or type, got "@ + token_text(t)),
        },
    }
}

/// The rest of a `PROGRAM-ID`, `AUTHOR` or `VERSION` entry whose keyword is
/// at `pos`: a period, an identifier, a period.
pub open spec fn header_entry(toks: Seq<TokenView>, pos: nat) -> Result<(Seq<char>, nat), Seq<char>> {
    match expect_at(toks, pos + 1, TokenView::Period) {
        Err(e) => Err(e),
        Ok(p1) => match ident_at(toks, p1) {
            Err(e) => Err(e),
            Ok((name, p2)) => match expect_at(toks, p2, TokenView::Period) {
                Err(e) => Err(e),
                Ok(p3) => Ok((name, p3)),
            },
        },
    }
}

pub proof fn lemma_header_entry(toks: Seq<TokenView>, pos: nat)
    requires
        pos < toks.len(),
    ensures
        header_entry(toks, pos) matches Ok((_, p)) ==> pos < p <= toks.len(),
{
}

/// Whether a token is one of the four division headings.
pub open spec fn is_heading(t: TokenView) -> bool {
    t is IdentificationDiv || t is EnvironmentDiv || t is DataDiv || t is ProcedureDiv
}

/// The entries of the IDENTIFICATION DIVISION from `pos` up to the
/// ENVIRONMENT heading: `PROGRAM-ID`, `AUTHOR` and `VERSION` entries set
/// their field (a later entry replaces an earlier one), any other division
/// heading is a division order error, other tokens are skipped, and the end
/// of input is an error.
pub open spec fn identification_body(toks: Seq<TokenView>, pos: nat, id: IdentificationView) -> Result<(IdentificationView, nat), Seq<char>>
    decreases toks.len() - pos,
{
    let c = cur(toks, pos);
    if c is EnvironmentDiv {
        Ok((id, pos))
    } else if c is ProgramId || c is Author || c is Version {
        match header_entry(toks, pos) {
            Err(e) => Err(e),
            Ok((name, p)) => {
                proof {
                    lemma_header_entry(toks, pos);
                }
                let id2 = if c is ProgramId {
                    IdentificationView { program_id: name, author: id.author, version: id.version }
                } else if c is Author {
                    IdentificationView { program_id: id.program_id, author: Some(name), version: id.version }
                } else {
                    IdentificationView { program_id: id.program_id, author: id.author, version: Some(name) }
                };
                identification_body(toks, p, id2)
            },
        }
    } else if c is Eof {
        Err("Unexpected EOF in IDENTIFICATION DIVISION"@)
    } else if is_heading(c) {
        Err(division_order_message("ENVIRONMENT DIVISION"@, c))
    } else {
        identification_body(toks, pos + 1, id)
    }
}

/// The IDENTIFICATION DIVISION at `pos`.
pub open spec fn identification_at(toks: Seq<TokenView>, pos: nat) -> Result<(IdentificationView, nat), Seq<char>> {
    match expect_division_at(toks, pos, TokenView::IdentificationDiv, "IDENTIFICATION DIVISION"@) {
        Err(e) => Err(e),
        Ok(p1) => match expect_at(toks, p1, TokenView::Division) {
            Err(e) => Err(e),
            Ok(p2) => match expect_at(toks, p2, TokenView::Period) {
                Err(e) => Err(e),
                Ok(p3) => identification_body(
                    toks,
                    p3,
                    IdentificationView { program_id: Seq::empty(), author: None, version: None },
                ),
            },
        },
    }
}

/// The setting key that a token names, if it names one.
pub open spec fn setting_key(t: TokenView) -> Option<Seq<char>> {
    match t {
        TokenView::Os => Some("OS"@),
        TokenView::Arch => Some("ARCH"@),
        TokenView::RuntimeVersion => Some("RUNTIME-VERSION"@),
        _ => None,
    }
}

/// The rest of a setting whose key is at `pos`: a quoted value and a period.
pub open spec fn setting_value(toks: Seq<TokenView>, pos: nat) -> Result<(Seq<char>, nat), Seq<char>> {
    match string_at(toks, pos + 1) {
        Err(e) => Err(e),
        Ok((value, p1)) => match expect_at(toks, p1, TokenView::Period) {
            Err(e) => Err(e),
            Ok(p2) => Ok((value, p2)),
        },
    }
}

pub proof fn lemma_setting_value(toks: Seq<TokenView>, pos: nat)
    requires
        pos < toks.len(),
    ensures
        setting_value(toks, pos) matches Ok((_, p)) ==> pos < p <= toks.len(),
{
}

/// The settings of the ENVIRONMENT DIVISION from `pos` up to the DATA
/// heading, added to `config`: each is `OS`, `ARCH` or `RUNTIME-VERSION`,
/// a quoted value and a period, and a later value of a key replaces an
/// earlier one; any other token is an error.
pub open spec fn environment_body(toks: Seq<TokenView>, pos: nat, config: Map<Seq<char>, Seq<char>>) -> Result<(Map<Seq<char>, Seq<char>>, nat), Seq<char>>
    decreases toks.len() - pos,
{
    let c = cur(toks, pos);
    if c is DataDiv {
        Ok((config, pos))
    } else if setting_key(c) is Some {
        match setting_value(toks, pos) {
            Err(e) => Err(e),
            Ok((value, p)) => {
                proof {
                    lemma_setting_value(toks, pos);
                }
                environment_body(toks, p, config.insert(setting_key(c)->0, value))
            },
        }
    } else if c is Eof {
        Err("Unexpected EOF in ENVIRONMENT DIVISION"@)
    } else {
        Err("Unexpected token in ENVIRONMENT: "@ + token_text(c))
    }
}

/// The ENVIRONMENT DIVISION at `pos`.
pub open spec fn environment_at(toks: Seq<TokenView>, pos: nat) -> Result<(Map<Seq<char>, Seq<char>>, nat), Seq<char>> {
    match expect_division_at(toks, pos, TokenView::EnvironmentDiv, "ENVIRONMENT DIVISION"@) {
        Err(e) => Err(e),
        Ok(p1) => match expect_at(toks, p1, TokenView::Division) {
            Err(e) => Err(e),
            Ok(p2) => match expect_at(toks, p2, TokenView::Period) {
                Err(e) => Err(e),
                Ok(p3) => environment_body(toks, p3, Map::empty()),
            },
        },
    }
}

/// The rest of a declaration whose `INPUT` or `OUTPUT` is at `pos`: a data
/// type and a period.
pub open spec fn declaration(toks: Seq<TokenView>, pos: nat) -> Result<(DataType, nat), Seq<char>> {
    match data_type_at(toks, pos + 1) {
        Err(e) => Err(e),
        Ok((t, p1)) => match expect_at(toks, p1, TokenView::Period) {
            Err(e) => Err(e),
            Ok(p2) => Ok((t, p2)),
        },
    }
}

pub proof fn lemma_declaration(toks: Seq<TokenView>, pos: nat)
    requires
        pos < toks.len(),
    ensures
        declaration(toks, pos) matches Ok((_, p)) ==> pos < p <= toks.len(),
{
}

/// The declarations of the DATA DIVISION from `pos` up to the PROCEDURE
/// heading, appended to `vars`: each is `INPUT` or `OUTPUT`, a data type and
/// a period, and declares a variable named by the type's spelling.
pub open spec fn data_body(toks: Seq<TokenView>, pos: nat, vars: Seq<VariableView>) -> Result<(Seq<VariableView>, nat), Seq<char>>
    decreases toks.len() - pos,
{
    let c = cur(toks, pos);
    if c is ProcedureDiv {
        Ok((vars, pos))
    } else if c is Input || c is Output {
        match declaration(toks, pos) {
            Err(e) => Err(e),
            Ok((t, p)) => {
                proof {
                    lemma_declaration(toks, pos);
                }
                data_body(toks, p, vars.push(VariableView { name: data_type_name(t), data_type: t }))
            },
        }
    } else if c is Eof {
        Err("Unexpected EOF in DATA DIVISION"@)
    } else {
        Err("Expected INPUT or OUTPUT in DATA DIVISION, got "@ + token_text(c))
    }
}

/// The DATA DIVISION at `pos`.
pub open spec fn data_at(toks: Seq<TokenView>, pos: nat) -> Result<(Seq<VariableView>, nat), Seq<char>> {
    match expect_division_at(toks, pos, TokenView::DataDiv, "DATA DIVISION"@) {
        Err(e) => Err(e),
        Ok(p1) => match expect_at(toks, p1, TokenView::Division) {
            Err(e) => Err(e),
            Ok(p2) => match expect_at(toks, p2, TokenView::Period) {
                Err(e) => Err(e),
                Ok(p3) => data_body(toks, p3, Seq::empty()),
            },
        },
    }
}

/// A variable and a period at `pos`.
pub open spec fn target_period(toks: Seq<TokenView>, pos: nat) -> Result<(Seq<char>, nat), Seq<char>> {
    match var_or_type_at(toks, pos) {
        Err(e) => Err(e),
        Ok((target, p1)) => match expect_at(toks, p1, TokenView::Period) {
            Err(e) => Err(e),
            Ok(p2) => Ok((target, p2)),
        },
    }
}

/// A variable, a data type and a period at `pos`.
pub open spec fn target_type_period(toks: Seq<TokenView>, pos: nat) -> Result<(Seq<char>, DataType, nat), Seq<char>> {
    match var_or_type_at(toks, pos) {
        Err(e) => Err(e),
        Ok((target, p1)) => match data_type_at(toks, p1) {
            Err(e) => Err(e),
            Ok((t, p2)) => match expect_at(toks, p2, TokenView::Period) {
                Err(e) => Err(e),
                Ok(p3) => Ok((target, t, p3)),
            },
        },
    }
}

/// A variable, an identifier and a period at `pos`.
pub open spec fn target_word_period(toks: Seq<TokenView>, pos: nat) -> Result<(Seq<char>, Seq<char>, nat), Seq<char>> {
    match var_or_type_at(toks, pos) {
        Err(e) => Err(e),
        Ok((target, p1)) => match ident_at(toks, p1) {
            Err(e) => Err(e),
            Ok((word, p2)) => match expect_at(toks, p2, TokenView::Period) {
                Err(e) => Err(e),
                Ok(p3) => Ok((target, word, p3)),
            },
        },
    }
}

/// An identifier, a variable and a period at `pos`.
pub open spec fn word_target_period(toks: Seq<TokenView>, pos: nat) -> Result<(Seq<char>, Seq<char>, nat), Seq<char>> {
    match ident_at(toks, pos) {
        Err(e) => Err(e),
        Ok((word, p1)) => match var_or_type_at(toks, p1) {
            Err(e) => Err(e),
            Ok((target, p2)) => match expect_at(toks, p2, TokenView::Period) {
                Err(e) => Err(e),
                Ok(p3) => Ok((target, word, p3)),
            },
        },
    }
}

/// The statement whose keyword is at `pos`, and the position after it.
pub open spec fn statement_at(toks: Seq<TokenView>, pos: nat) -> Result<(StatementView, nat), Seq<char>> {
    let c = cur(toks, pos);
    let p = pos + 1;
    match c {
        TokenView::Compress => match target_period(toks, p) {
            Err(e) => Err(e),
            Ok((target, q)) => Ok((StatementView::Compress { target }, q)),
        },
        TokenView::VerifyIntegrity => match target_period(toks, p) {
            Err(e) => Err(e),
            Ok((target, q)) => Ok((StatementView::VerifyIntegrity { target }, q)),
        },
        TokenView::Transcode => match target_type_period(toks, p) {
            Err(e) => Err(e),
            Ok((target, output_type, q)) => Ok((StatementView::Transcode { target, output_type }, q)),
        },
        TokenView::Filter => match target_word_period(toks, p) {
            Err(e) => Err(e),
            Ok((target, condition, q)) => Ok((StatementView::Filter { target, condition }, q)),
        },
        TokenView::Aggregate => match target_word_period(toks, p) {
            Err(e) => Err(e),
            Ok((target, operation, q)) => Ok((StatementView::Aggregate { targets: seq![target], operation }, q)),
        },
        TokenView::Convert => match target_type_period(toks, p) {
            Err(e) => Err(e),
            Ok((target, output_type, q)) => Ok((StatementView::Convert { target, output_type }, q)),
        },
        TokenView::Merge => match target_word_period(toks, p) {
            Err(e) => Err(e),
            Ok((target, output_name, q)) => Ok((StatementView::Merge { targets: seq![target], output_name }, q)),
        },
        TokenView::Split => match target_word_period(toks, p) {
            Err(e) => Err(e),
            Ok((target, parts, q)) => Ok((StatementView::Split { target, parts }, q)),
        },
        TokenView::Validate => match target_word_period(toks, p) {
            Err(e) => Err(e),
            Ok((target, schema, q)) => Ok((StatementView::Validate { target, schema }, q)),
        },
        TokenView::Extract => match word_target_period(toks, p) {
            Err(e) => Err(e),
            Ok((target, path, q)) => Ok((StatementView::Extract { target, path }, q)),
        },
        _ => Err("Unknown procedure statement: "@ + token_text(c)),
    }
}

pub proof fn lemma_statement_at(toks: Seq<TokenView>, pos: nat)
    requires
        pos <= toks.len(),
    ensures
        statement_at(toks, pos) matches Ok((_, p)) ==> pos < p <= toks.len(),
{
}

/// The statements of the PROCEDURE DIVISION from `pos` to the end of the
/// tokens, appended to `stmts`.
pub open spec fn procedure_body(toks: Seq<TokenView>, pos: nat, stmts: Seq<StatementView>) -> Result<(Seq<StatementView>, nat), Seq<char>>
    decreases toks.len() - pos,
{
    if cur(toks, pos) is Eof {
        Ok((stmts, pos))
    } else {
        match statement_at(toks, pos) {
            Err(e) => Err(e),
            Ok((s, p)) => {
                proof {
                    lemma_statement_at(toks, pos);
                }
                procedure_body(toks, p, stmts.push(s))
            },
        }
    }
}

/// The PROCEDURE DIVISION at `pos`.
pub open spec fn procedure_at(toks: Seq<TokenView>, pos: nat) -> Result<(Seq<StatementView>, nat), Seq<char>> {
    match expect_division_at(toks, pos, TokenView::ProcedureDiv, "PROCEDURE DIVISION"@) {
        Err(e) => Err(e),
        Ok(p1) => match expect_at(toks, p1, TokenView::Division) {
            Err(e) => Err(e),
            Ok(p2) => match expect_at(toks, p2, TokenView::Period) {
                Err(e) => Err(e),
                Ok(p3) => procedure_body(toks, p3, Seq::empty()),
            },
        },
    }
}

/// A whole program from `pos`: the four divisions in order, then the end
/// of the tokens.
pub open spec fn parse_from(toks: Seq<TokenView>, pos: nat) -> Result<ProgramView, Seq<char>> {
    match identification_at(toks, pos) {
        Err(e) => Err(e),
        Ok((identification, p1)) => match environment_at(toks, p1) {
            Err(e) => Err(e),
            Ok((environment, p2)) => match data_at(toks, p2) {
                Err(e) => Err(e),
                Ok((data, p3)) => match procedure_at(toks, p3) {
                    Err(e) => Err(e),
                    Ok((procedure, p4)) => if !(cur(toks, p4) is Eof) {
                        Err("Expected EOF after PROCEDURE DIVISION"@)
                    } else {
                        Ok(ProgramView { identification, environment, data, procedure })
                    },
                },
            },
        },
    }
}

/// The program that a token sequence spells, or the message of the first error.
pub open spec fn parse_tokens(toks: Seq<TokenView>) -> Result<ProgramView, Seq<char>> {
    parse_from(toks, 0)
}

// ---------------------------------------------------------------------------
// The parser.
// ---------------------------------------------------------------------------

/// A recursive-descent parser over a token sequence, with a cursor.
pub struct Parser {
    tokens: Vec<Token>,
    position: usize,
}

/// Appends how `t` is written to `v`.
fn push_token(v: &mut Vec<char>, t: &Token)
    ensures
        final(v)@ == old(v)@ + token_text(t@),
{
    let s = t.to_string();
    push_str(v, s.as_str());
}

/// The division order message for `t` found where the division
/// `division_name` was expected.
fn order_error(division_name: &str, t: &Token) -> (m: String)
    ensures
        m@ == division_order_message(division_name@, t@),
{
    let mut v: Vec<char> = Vec::new();
    push_str(&mut v, "Division order error: Expected '");
    push_str(&mut v, division_name);
    push_str(&mut v, "' but got '");
    push_token(&mut v, t);
    push_str(&mut v, "'. Divisions must appear in order: IDENTIFICATION → ENVIRONMENT → DATA → PROCEDURE");
    string_of(&v)
}

/// The message `prefix` followed by how `t` is written.
fn message_with(prefix: &str, t: &Token) -> (m: String)
    ensures
        m@ == prefix@ + token_text(t@),
{
    let mut v: Vec<char> = Vec::new();
    push_str(&mut v, prefix);
    push_token(&mut v, t);
    string_of(&v)
}

fn data_type_of(t: &Token) -> (r: Option<DataType>)
    ensures
        r == token_data_type(t@),
{
    match t {
        Token::VideoMp4 => Some(DataType::VideoMp4),
        Token::ImageJpg => Some(DataType::ImageJpg),
        Token::FinancialDecimal => Some(DataType::FinancialDecimal),
        Token::AudioWav => Some(DataType::AudioWav),
        Token::CsvTable => Some(DataType::CsvTable),
        Token::BinaryBlob => Some(DataType::BinaryBlob),
        Token::JsonObject => Some(DataType::JsonObject),
        Token::XmlDocument => Some(DataType::XmlDocument),
        Token::ParquetTable => Some(DataType::ParquetTable),
        _ => None,
    }
}

impl Parser {
    /// The views of the parser's tokens.
    pub closed spec fn token_seq(&self) -> Seq<TokenView> {
        token_views(self.tokens@)
    }

    /// The parser's cursor.
    pub closed spec fn cursor(&self) -> nat {
        self.position as nat
    }

    #[verifier::type_invariant]
    closed spec fn cursor_in_range(&self) -> bool {
        self.position <= self.tokens.len()
    }

    /// A parser at the start of `tokens`.
    pub fn new(tokens: Vec<Token>) -> (p: Parser)
        ensures
            p.token_seq() == token_views(tokens@),
            p.cursor() == 0,
    {
        Parser { tokens, position: 0 }
    }

    fn current(&self) -> (t: &Token)
        ensures
            t@ == cur(self.token_seq(), self.cursor()),
    {
        if self.position < self.tokens.len() {
            &self.tokens[self.position]
        } else {
            &Token::Eof
        }
    }

    fn at(&self, t: &Token) -> (b: bool)
        ensures
            b == (variant_index(cur(self.token_seq(), self.cursor())) == variant_index(t@)),
    {
        self.current().same_variant(t)
    }

    fn advance(&mut self)
        ensures
            final(self).token_seq() == old(self).token_seq(),
            final(self).cursor() == next_pos(old(self).token_seq(), old(self).cursor()),
    {
        if self.position < self.tokens.len() {
            self.position = self.position + 1;
        }
    }

    fn expect(&mut self, expected: Token) -> (r: Result<(), String>)
        ensures
            final(self).token_seq() == old(self).token_seq(),
            r is Err ==> final(self).cursor() == old(self).cursor(),
            match expect_at(old(self).token_seq(), old(self).cursor(), expected@) {
                Ok(p) => r is Ok && final(self).cursor() == p,
                Err(e) => r is Err && r->Err_0@ == e,
            },
    {
        if self.at(&expected) {
            self.advance();
            Ok(())
        } else {
            let mut v: Vec<char> = Vec::new();
            push_str(&mut v, "Expected ");
            push_token(&mut v, &expected);
            push_str(&mut v, ", got ");
            push_token(&mut v, self.current());
            Err(string_of(&v))
        }
    }

    fn expect_division(&mut self, expected: Token, division_name: &str) -> (r: Result<(), String>)
        ensures
            final(self).token_seq() == old(self).token_seq(),
            r is Err ==> final(self).cursor() == old(self).cursor(),
            match expect_division_at(old(self).token_seq(), old(self).cursor(), expected@, division_name@) {
                Ok(p) => r is Ok && final(self).cursor() == p,
                Err(e) => r is Err && r->Err_0@ == e,
            },
    {
        if self.at(&expected) {
            self.advance();
            Ok(())
        } else {
            Err(order_error(division_name, self.current()))
        }
    }

    fn expect_identifier(&mut self) -> (r: Result<String, String>)
        ensures
            final(self).token_seq() == old(self).token_seq(),
            r is Err ==> final(self).cursor() == old(self).cursor(),
            match ident_at(old(self).token_seq(), old(self).cursor()) {
                Ok((name, p)) => r is Ok && r->Ok_0@ == name && final(self).cursor() == p,
                Err(e) => r is Err && r->Err_0@ == e,
            },
    {
        match self.current() {
            Token::Identifier(name) => {
                let result = name.clone();
                self.advance();
                Ok(result)
            },
            t => Err(message_with("Expected identifier, got ", t)),
        }
    }

    fn expect_string(&mut self) -> (r: Result<String, String>)
        ensures
            final(self).token_seq() == old(self).token_seq(),
            r is Err ==> final(self).cursor() == old(self).cursor(),
            match string_at(old(self).token_seq(), old(self).cursor()) {
                Ok((value, p)) => r is Ok && r->Ok_0@ == value && final(self).cursor() == p,
                Err(e) => r is Err && r->Err_0@ == e,
            },
    {
        match self.current() {
            Token::String(value) => {
                let result = value.clone();
                self.advance();
                Ok(result)
            },
            t => Err(message_with("Expected quoted string, got ", t)),
        }
    }

    fn parse_data_type(&mut self) -> (r: Result<DataType, String>)
        ensures
            final(self).token_seq() == old(self).token_seq(),
            r is Err ==> final(self).cursor() == old(self).cursor(),
            match data_type_at(old(self).token_seq(), old(self).cursor()) {
                Ok((t, p)) => r == Ok::<DataType, String>(t) && final(self).cursor() == p,
                Err(e) => r is Err && r->Err_0@ == e,
            },
    {
        match data_type_of(self.current()) {
            Some(t) => {
                self.advance();
                Ok(t)
            },
            None => Err(message_with("Expected data type, got ", self.current())),
        }
    }

    fn expect_variable_or_type(&mut self) -> (r: Result<String, String>)
        ensures
            final(self).token_seq() == old(self).token_seq(),
            r is Err ==> final(self).cursor() == old(self).cursor(),
            match var_or_type_at(old(self).token_seq(), old(self).cursor()) {
                Ok((name, p)) => r is Ok && r->Ok_0@ == name && final(self).cursor() == p,
                Err(e) => r is Err && r->Err_0@ == e,
            },
    {
        match self.current() {
            Token::Identifier(name) => {
                let result = name.clone();
                self.advance();
                Ok(result)
            },
            t => match data_type_of(t) {
                Some(d) => {
                    self.advance();
                    Ok(d.to_string())
                },
                None => Err(message_with("Expected variable name or type, got ", self.current())),
            },
        }
    }
}

impl Parser {
    fn header_entry(&mut self) -> (r: Result<String, String>)
        requires
            old(self).cursor() < old(self).token_seq().len(),
        ensures
            final(self).token_seq() == old(self).token_seq(),
            match header_entry(old(self).token_seq(), old(self).cursor()) {
                Ok((name, p)) => r is Ok && r->Ok_0@ == name && final(self).cursor() == p,
                Err(e) => r is Err && r->Err_0@ == e,
            },
    {
        self.advance();
        match self.expect(Token::Period) {
            Ok(()) => {},
            Err(e) => return Err(e),
        }
        let name = match self.expect_identifier() {
            Ok(n) => n,
            Err(e) => return Err(e),
        };
        match self.expect(Token::Period) {
            Ok(()) => {},
            Err(e) => return Err(e),
        }
        Ok(name)
    }

    fn division_heading(&mut self, expected: Token, division_name: &str) -> (r: Result<(), String>)
        ensures
            final(self).token_seq() == old(self).token_seq(),
            match expect_division_at(old(self).token_seq(), old(self).cursor(), expected@, division_name@) {
                Err(e) => r is Err && r->Err_0@ == e && final(self).cursor() == old(self).cursor(),
                Ok(p1) => match expect_at(old(self).token_seq(), p1, TokenView::Division) {
                    Err(e) => r is Err && r->Err_0@ == e,
                    Ok(p2) => match expect_at(old(self).token_seq(), p2, TokenView::Period) {
                        Err(e) => r is Err && r->Err_0@ == e,
                        Ok(p3) => r is Ok && final(self).cursor() == p3,
                    },
                },
            },
    {
        match self.expect_division(expected, division_name) {
            Ok(()) => {},
            Err(e) => return Err(e),
        }
        match self.expect(Token::Division) {
            Ok(()) => {},
            Err(e) => return Err(e),
        }
        self.expect(Token::Period)
    }

    fn parse_identification(&mut self) -> (r: Result<IdentificationDivision, String>)
        ensures
            final(self).token_seq() == old(self).token_seq(),
            expect_division_at(old(self).token_seq(), old(self).cursor(), TokenView::IdentificationDiv, "IDENTIFICATION DIVISION"@) is Err
                ==> final(self).cursor() == old(self).cursor(),
            match identification_at(old(self).token_seq(), old(self).cursor()) {
                Ok((id, p)) => r is Ok && r->Ok_0@ == id && final(self).cursor() == p,
                Err(e) => r is Err && r->Err_0@ == e,
            },
    {
        let ghost toks = self.token_seq();
        match self.division_heading(Token::IdentificationDiv, "IDENTIFICATION DIVISION") {
            Ok(()) => {},
            Err(e) => return Err(e),
        }
        let mut program_id = String::new();
        let mut author: Option<String> = None;
        let mut version: Option<String> = None;
        while !self.at(&Token::EnvironmentDiv)
            invariant
                self.token_seq() == toks,
                expect_division_at(toks, old(self).cursor(), TokenView::IdentificationDiv, "IDENTIFICATION DIVISION"@) is Ok,
                toks == old(self).token_seq(),
                identification_at(toks, old(self).cursor()) == identification_body(
                    toks,
                    self.cursor(),
                    IdentificationView { program_id: program_id@, author: opt_view(author), version: opt_view(version) },
                ),
            decreases self.token_seq().len() - self.cursor(),
        {
            proof {
                use_type_invariant(&*self);
            }
            match self.current() {
                Token::ProgramId => {
                    match self.header_entry() {
                        Ok(n) => program_id = n,
                        Err(e) => return Err(e),
                    }
                },
                Token::Author => {
                    match self.header_entry() {
                        Ok(n) => author = Some(n),
                        Err(e) => return Err(e),
                    }
                },
                Token::Version => {
                    match self.header_entry() {
                        Ok(n) => version = Some(n),
                        Err(e) => return Err(e),
                    }
                },
                Token::Eof => {
                    return Err(owned("Unexpected EOF in IDENTIFICATION DIVISION"));
                },
                Token::IdentificationDiv | Token::DataDiv | Token::ProcedureDiv => {
                    return Err(order_error("ENVIRONMENT DIVISION", self.current()));
                },
                _ => {
                    self.advance();
                },
            }
            proof {
                use_type_invariant(&*self);
            }
        }
        Ok(IdentificationDivision { program_id, author, version })
    }
}

impl Parser {
    fn parse_environment(&mut self) -> (r: Result<EnvironmentDivision, String>)
        ensures
            final(self).token_seq() == old(self).token_seq(),
            expect_division_at(old(self).token_seq(), old(self).cursor(), TokenView::EnvironmentDiv, "ENVIRONMENT DIVISION"@) is Err
                ==> final(self).cursor() == old(self).cursor(),
            match environment_at(old(self).token_seq(), old(self).cursor()) {
                Ok((config, p)) => r is Ok && r->Ok_0.config_wf() && r->Ok_0@ == config && final(self).cursor() == p,
                Err(e) => r is Err && r->Err_0@ == e,
            },
    {
        let ghost toks = self.token_seq();
        match self.division_heading(Token::EnvironmentDiv, "ENVIRONMENT DIVISION") {
            Ok(()) => {},
            Err(e) => return Err(e),
        }
        let mut config: Vec<(String, String)> = Vec::new();
        assert(pairs_map(pairs_view(config@)) =~= Map::empty());
        while !self.at(&Token::DataDiv)
            invariant
                self.token_seq() == toks,
                expect_division_at(toks, old(self).cursor(), TokenView::EnvironmentDiv, "ENVIRONMENT DIVISION"@) is Ok,
                toks == old(self).token_seq(),
                keys_sorted(pairs_view(config@)),
                environment_at(toks, old(self).cursor()) == environment_body(
                    toks,
                    self.cursor(),
                    pairs_map(pairs_view(config@)),
                ),
            decreases self.token_seq().len() - self.cursor(),
        {
            proof {
                use_type_invariant(&*self);
            }
            let key = match self.current() {
                Token::Os => owned("OS"),
                Token::Arch => owned("ARCH"),
                Token::RuntimeVersion => owned("RUNTIME-VERSION"),
                Token::Eof => {
                    return Err(owned("Unexpected EOF in ENVIRONMENT DIVISION"));
                },
                t => {
                    return Err(message_with("Unexpected token in ENVIRONMENT: ", t));
                },
            };
            self.advance();
            let value = match self.expect_string() {
                Ok(v) => v,
                Err(e) => return Err(e),
            };
            insert_pair(&mut config, key, value);
            match self.expect(Token::Period) {
                Ok(()) => {},
                Err(e) => return Err(e),
            }
            proof {
                use_type_invariant(&*self);
            }
        }
        Ok(EnvironmentDivision { config })
    }

    fn parse_data(&mut self) -> (r: Result<DataDivision, String>)
        ensures
            final(self).token_seq() == old(self).token_seq(),
            expect_division_at(old(self).token_seq(), old(self).cursor(), TokenView::DataDiv, "DATA DIVISION"@) is Err
                ==> final(self).cursor() == old(self).cursor(),
            match data_at(old(self).token_seq(), old(self).cursor()) {
                Ok((vars, p)) => r is Ok && r->Ok_0.variables@.map_values(|v: Variable| v@) == vars
                    && final(self).cursor() == p,
                Err(e) => r is Err && r->Err_0@ == e,
            },
    {
        let ghost toks = self.token_seq();
        match self.division_heading(Token::DataDiv, "DATA DIVISION") {
            Ok(()) => {},
            Err(e) => return Err(e),
        }
        let mut variables: Vec<Variable> = Vec::new();
        assert(variables@.map_values(|v: Variable| v@) =~= Seq::<VariableView>::empty());
        while !self.at(&Token::ProcedureDiv)
            invariant
                self.token_seq() == toks,
                expect_division_at(toks, old(self).cursor(), TokenView::DataDiv, "DATA DIVISION"@) is Ok,
                toks == old(self).token_seq(),
                data_at(toks, old(self).cursor()) == data_body(
                    toks,
                    self.cursor(),
                    variables@.map_values(|v: Variable| v@),
                ),
            decreases self.token_seq().len() - self.cursor(),
        {
            proof {
                use_type_invariant(&*self);
            }
            match self.current() {
                Token::Input | Token::Output => {},
                Token::Eof => {
                    return Err(owned("Unexpected EOF in DATA DIVISION"));
                },
                t => {
                    return Err(message_with("Expected INPUT or OUTPUT in DATA DIVISION, got ", t));
                },
            }
            self.advance();
            let data_type = match self.parse_data_type() {
                Ok(t) => t,
                Err(e) => return Err(e),
            };
            match self.expect(Token::Period) {
                Ok(()) => {},
                Err(e) => return Err(e),
            }
            let name = data_type.to_string();
            let ghost before = variables@.map_values(|v: Variable| v@);
            variables.push(Variable { name, data_type });
            assert(variables@.map_values(|v: Variable| v@) =~= before.push(
                VariableView { name: data_type_name(data_type), data_type },
            ));
            proof {
                use_type_invariant(&*self);
            }
        }
        Ok(DataDivision { variables })
    }
}

impl Parser {
    fn target_period(&mut self) -> (r: Result<String, String>)
        ensures
            final(self).token_seq() == old(self).token_seq(),
            match target_period(old(self).token_seq(), old(self).cursor()) {
                Ok((t, p)) => r is Ok && r->Ok_0@ == t && final(self).cursor() == p,
                Err(e) => r is Err && r->Err_0@ == e,
            },
    {
        let target = match self.expect_variable_or_type() {
            Ok(t) => t,
            Err(e) => return Err(e),
        };
        match self.expect(Token::Period) {
            Ok(()) => {},
            Err(e) => return Err(e),
        }
        Ok(target)
    }

    fn target_type_period(&mut self) -> (r: Result<(String, DataType), String>)
        ensures
            final(self).token_seq() == old(self).token_seq(),
            match target_type_period(old(self).token_seq(), old(self).cursor()) {
                Ok((t, d, p)) => r is Ok && r->Ok_0.0@ == t && r->Ok_0.1 == d && final(self).cursor() == p,
                Err(e) => r is Err && r->Err_0@ == e,
            },
    {
        let target = match self.expect_variable_or_type() {
            Ok(t) => t,
            Err(e) => return Err(e),
        };
        let output_type = match self.parse_data_type() {
            Ok(t) => t,
            Err(e) => return Err(e),
        };
        match self.expect(Token::Period) {
            Ok(()) => {},
            Err(e) => return Err(e),
        }
        Ok((target, output_type))
    }

    fn target_word_period(&mut self) -> (r: Result<(String, String), String>)
        ensures
            final(self).token_seq() == old(self).token_seq(),
            match target_word_period(old(self).token_seq(), old(self).cursor()) {
                Ok((t, w, p)) => r is Ok && r->Ok_0.0@ == t && r->Ok_0.1@ == w && final(self).cursor() == p,
                Err(e) => r is Err && r->Err_0@ == e,
            },
    {
        let target = match self.expect_variable_or_type() {
            Ok(t) => t,
            Err(e) => return Err(e),
        };
        let word = match self.expect_identifier() {
            Ok(w) => w,
            Err(e) => return Err(e),
        };
        match self.expect(Token::Period) {
            Ok(()) => {},
            Err(e) => return Err(e),
        }
        Ok((target, word))
    }

    fn word_target_period(&mut self) -> (r: Result<(String, String), String>)
        ensures
            final(self).token_seq() == old(self).token_seq(),
            match word_target_period(old(self).token_seq(), old(self).cursor()) {
                Ok((t, w, p)) => r is Ok && r->Ok_0.0@ == t && r->Ok_0.1@ == w && final(self).cursor() == p,
                Err(e) => r is Err && r->Err_0@ == e,
            },
    {
        let word = match self.expect_identifier() {
            Ok(w) => w,
            Err(e) => return Err(e),
        };
        let target = match self.expect_variable_or_type() {
            Ok(t) => t,
            Err(e) => return Err(e),
        };
        match self.expect(Token::Period) {
            Ok(()) => {},
            Err(e) => return Err(e),
        }
        Ok((target, word))
    }

    fn parse_statement(&mut self) -> (r: Result<ProcedureStatement, String>)
        requires
            old(self).cursor() < old(self).token_seq().len(),
        ensures
            final(self).token_seq() == old(self).token_seq(),
            match statement_at(old(self).token_seq(), old(self).cursor()) {
                Ok((st, p)) => r is Ok && r->Ok_0@ == st && final(self).cursor() == p,
                Err(e) => r is Err && r->Err_0@ == e,
            },
    {
        match self.current() {
            Token::Compress => {
                self.advance();
                match self.target_period() {
                    Ok(target) => Ok(ProcedureStatement::Compress { target }),
                    Err(e) => Err(e),
                }
            },
            Token::VerifyIntegrity => {
                self.advance();
                match self.target_period() {
                    Ok(target) => Ok(ProcedureStatement::VerifyIntegrity { target }),
                    Err(e) => Err(e),
                }
            },
            Token::Transcode => {
                self.advance();
                match self.target_type_period() {
                    Ok((target, output_type)) => Ok(ProcedureStatement::Transcode { target, output_type }),
                    Err(e) => Err(e),
                }
            },
            Token::Filter => {
                self.advance();
                match self.target_word_period() {
                    Ok((target, condition)) => Ok(ProcedureStatement::Filter { target, condition }),
                    Err(e) => Err(e),
                }
            },
            Token::Aggregate => {
                self.advance();
                match self.target_word_period() {
                    Ok((target, operation)) => {
                        let targets = vec![target];
                        assert(strings_view(targets@) =~= seq![targets@[0]@]);
                        Ok(ProcedureStatement::Aggregate { targets, operation })
                    },
                    Err(e) => Err(e),
                }
            },
            Token::Convert => {
                self.advance();
                match self.target_type_period() {
                    Ok((target, output_type)) => Ok(ProcedureStatement::Convert { target, output_type }),
                    Err(e) => Err(e),
                }
            },
            Token::Merge => {
                self.advance();
                match self.target_word_period() {
                    Ok((target, output_name)) => {
                        let targets = vec![target];
                        assert(strings_view(targets@) =~= seq![targets@[0]@]);
                        Ok(ProcedureStatement::Merge { targets, output_name })
                    },
                    Err(e) => Err(e),
                }
            },
            Token::Split => {
                self.advance();
                match self.target_word_period() {
                    Ok((target, parts)) => Ok(ProcedureStatement::Split { target, parts }),
                    Err(e) => Err(e),
                }
            },
            Token::Validate => {
                self.advance();
                match self.target_word_period() {
                    Ok((target, schema)) => Ok(ProcedureStatement::Validate { target, schema }),
                    Err(e) => Err(e),
                }
            },
            Token::Extract => {
                self.advance();
                match self.word_target_period() {
                    Ok((target, path)) => Ok(ProcedureStatement::Extract { target, path }),
                    Err(e) => Err(e),
                }
            },
            t => Err(message_with("Unknown procedure statement: ", t)),
        }
    }

    fn parse_procedure(&mut self) -> (r: Result<ProcedureDivision, String>)
        ensures
            final(self).token_seq() == old(self).token_seq(),
            expect_division_at(old(self).token_seq(), old(self).cursor(), TokenView::ProcedureDiv, "PROCEDURE DIVISION"@) is Err
                ==> final(self).cursor() == old(self).cursor(),
            match procedure_at(old(self).token_seq(), old(self).cursor()) {
                Ok((stmts, p)) => r is Ok && r->Ok_0.statements@.map_values(|s: ProcedureStatement| s@) == stmts
                    && final(self).cursor() == p,
                Err(e) => r is Err && r->Err_0@ == e,
            },
    {
        let ghost toks = self.token_seq();
        match self.division_heading(Token::ProcedureDiv, "PROCEDURE DIVISION") {
            Ok(()) => {},
            Err(e) => return Err(e),
        }
        let mut statements: Vec<ProcedureStatement> = Vec::new();
        assert(statements@.map_values(|s: ProcedureStatement| s@) =~= Seq::<StatementView>::empty());
        while !self.at(&Token::Eof)
            invariant
                self.token_seq() == toks,
                expect_division_at(toks, old(self).cursor(), TokenView::ProcedureDiv, "PROCEDURE DIVISION"@) is Ok,
                toks == old(self).token_seq(),
                procedure_at(toks, old(self).cursor()) == procedure_body(
                    toks,
                    self.cursor(),
                    statements@.map_values(|s: ProcedureStatement| s@),
                ),
            decreases self.token_seq().len() - self.cursor(),
        {
            proof {
                use_type_invariant(&*self);
            }
            let stmt = match self.parse_statement() {
                Ok(s) => s,
                Err(e) => return Err(e),
            };
            let ghost before = statements@.map_values(|s: ProcedureStatement| s@);
            let ghost sv = stmt@;
            statements.push(stmt);
            assert(statements@.map_values(|s: ProcedureStatement| s@) =~= before.push(sv));
            proof {
                use_type_invariant(&*self);
            }
        }
        Ok(ProcedureDivision { statements })
    }

    /// Parses a whole program from the cursor on: the four divisions in the
    /// order IDENTIFICATION, ENVIRONMENT, DATA, PROCEDURE, up to the end of
    /// the tokens.
    pub fn parse(self) -> (r: Result<Program, String>)
        ensures
            match parse_from(self.token_seq(), self.cursor()) {
                Ok(prog) => r is Ok && r->Ok_0.wf() && r->Ok_0@ == prog,
                Err(e) => r is Err && r->Err_0@ == e,
            },
    {
        let mut parser = self;
        parser.run()
    }

    fn run(&mut self) -> (r: Result<Program, String>)
        ensures
            match parse_from(old(self).token_seq(), old(self).cursor()) {
                Ok(prog) => r is Ok && r->Ok_0.wf() && r->Ok_0@ == prog,
                Err(e) => r is Err && r->Err_0@ == e,
            },
    {
        let identification = match self.parse_identification() {
            Ok(d) => d,
            Err(e) => return Err(e),
        };
        let environment = match self.parse_environment() {
            Ok(d) => d,
            Err(e) => return Err(e),
        };
        let data = match self.parse_data() {
            Ok(d) => d,
            Err(e) => return Err(e),
        };
        let procedure = match self.parse_procedure() {
            Ok(d) => d,
            Err(e) => return Err(e),
        };
        if !self.at(&Token::Eof) {
            return Err(owned("Expected EOF after PROCEDURE DIVISION"));
        }
        Ok(Program { identification, environment, data, procedure })
    }
}

/// Parses a token sequence into a program (see `parse_tokens`).
pub fn parse(tokens: Vec<Token>) -> (r: Result<Program, String>)
    ensures
        match parse_tokens(token_views(tokens@)) {
            Ok(prog) => r is Ok && r->Ok_0.wf() && r->Ok_0@ == prog,
            Err(e) => r is Err && r->Err_0@ == e,
        },
{
    Parser::new(tokens).parse()
}

} // verus!
