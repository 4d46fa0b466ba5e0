//! Intermediate representation and the whole compilation pipeline: source
//! text → tokens → program → declaration check → instructions.

use vstd::prelude::*;

use crate::ast::{data_type_name, strings_view, ProcedureStatement, Program, StatementView, Variable, VariableView};
use crate::lexer::{lex, tokenize};
use crate::parser::{parse, parse_tokens};
use crate::text::{owned, push_str, string_of};

verus! {

/// The operation of an instruction.
#[derive(Debug, Clone, Copy, PartialEq, Eq)]
pub enum Opcode {
    Compress,
    VerifyIntegrity,
    Transcode,
    Filter,
    Aggregate,
    Convert,
    Merge,
    Split,
    Validate,
    Extract,
}

/// An instruction: an operation and its operands, the buffers it reads
/// first and then its parameters.
#[derive(Debug, Clone, PartialEq)]
pub struct Instruction {
    pub opcode: Opcode,
    pub operands: Vec<String>,
}

/// The view of an instruction.
pub struct InstructionView {
    pub opcode: Opcode,
    pub operands: Seq<Seq<char>>,
}

impl View for Instruction {
    type V = InstructionView;

    open spec fn view(&self) -> InstructionView {
        InstructionView { opcode: self.opcode, operands: strings_view(self.operands@) }
    }
}

/// The views of a sequence of instructions.
pub open spec fn instruction_views(v: Seq<Instruction>) -> Seq<InstructionView> {
    v.map_values(|i: Instruction| i@)
}

/// The mnemonic of an operation.
pub open spec fn opcode_name(op: Opcode) -> Seq<char> {
    match op {
        Opcode::Compress => "COMPRESS"@,
        Opcode::VerifyIntegrity => "VERIFY-INTEGRITY"@,
        Opcode::Transcode => "TRANSCODE"@,
        Opcode::Filter => "FILTER"@,
        Opcode::Aggregate => "AGGREGATE"@,
        Opcode::Convert => "CONVERT"@,
        Opcode::Merge => "MERGE"@,
        Opcode::Split => "SPLIT"@,
        Opcode::Validate => "VALIDATE"@,
        Opcode::Extract => "EXTRACT"@,
    }
}

/// The variables that a statement reads.
pub open spec fn statement_targets(s: StatementView) -> Seq<Seq<char>> {
    match s {
        StatementView::Compress { target } => seq![target],
        StatementView::VerifyIntegrity { target } => seq![target],
        StatementView::Transcode { target, .. } => seq![target],
        StatementView::Filter { target, .. } => seq![target],
        StatementView::Aggregate { targets, .. } => targets,
        StatementView::Convert { target, .. } => seq![target],
        StatementView::Merge { targets, .. } => targets,
        StatementView::Split { target, .. } => seq![target],
        StatementView::Validate { target, .. } => seq![target],
        StatementView::Extract { target, .. } => seq![target],
    }
}

/// The instruction of a statement: its operation, then the variables it
/// reads, then its other operands in the order of the statement's fields.
pub open spec fn lower_statement(s: StatementView) -> InstructionView {
    match s {
        StatementView::Compress { target } => InstructionView { opcode: Opcode::Compress, operands: seq![target] },
        StatementView::VerifyIntegrity { target } => InstructionView {
            opcode: Opcode::VerifyIntegrity,
            operands: seq![target],
        },
        StatementView::Transcode { target, output_type } => InstructionView {
            opcode: Opcode::Transcode,
            operands: seq![target, data_type_name(output_type)],
        },
        StatementView::Filter { target, condition } => InstructionView {
            opcode: Opcode::Filter,
            operands: seq![target, condition],
        },
        StatementView::Aggregate { targets, operation } => InstructionView {
            opcode: Opcode::Aggregate,
            operands: targets.push(operation),
        },
        StatementView::Convert { target, output_type } => InstructionView {
            opcode: Opcode::Convert,
            operands: seq![target, data_type_name(output_type)],
        },
        StatementView::Merge { targets, output_name } => InstructionView {
            opcode: Opcode::Merge,
            operands: targets.push(output_name),
        },
        StatementView::Split { target, parts } => InstructionView { opcode: Opcode::Split, operands: seq![target, parts] },
        StatementView::Validate { target, schema } => InstructionView {
            opcode: Opcode::Validate,
            operands: seq![target, schema],
        },
        StatementView::Extract { target, path } => InstructionView {
            opcode: Opcode::Extract,
            operands: seq![target, path],
        },
    }
}

/// Whether a variable of the given name is declared.
pub open spec fn is_declared(vars: Seq<VariableView>, name: Seq<char>) -> bool {
    exists|i: int| 0 <= i < vars.len() && #[trigger] vars[i].name == name
}

/// The first of `names` that is not declared, if any.
pub open spec fn first_undeclared_name(vars: Seq<VariableView>, names: Seq<Seq<char>>) -> Option<Seq<char>>
    decreases names.len(),
{
    if names.len() == 0 {
        None
    } else if !is_declared(vars, names[0]) {
        Some(names[0])
    } else {
        first_undeclared_name(vars, names.drop_first())
    }
}

/// The first variable, in statement order, that a statement reads without
/// its being declared, if any.
pub open spec fn first_undeclared(vars: Seq<VariableView>, stmts: Seq<StatementView>) -> Option<Seq<char>>
    decreases stmts.len(),
{
    if stmts.len() == 0 {
        None
    } else {
        match first_undeclared_name(vars, statement_targets(stmts[0])) {
            Some(n) => Some(n),
            None => first_undeclared(vars, stmts.drop_first()),
        }
    }
}

/// The message for a variable that is read without being declared.
pub open spec fn undeclared_message(name: Seq<char>) -> Seq<char> {
    "Variable '"@ + name + "' is not declared in DATA DIVISION"@
}

/// The instructions of a parsed program, or the message for its first
/// undeclared variable.
pub open spec fn lower_program(vars: Seq<VariableView>, stmts: Seq<StatementView>) -> Result<Seq<InstructionView>, Seq<char>> {
    match first_undeclared(vars, stmts) {
        Some(n) => Err(undeclared_message(n)),
        None => Ok(stmts.map_values(|s: StatementView| lower_statement(s))),
    }
}

/// The instructions of a source text, or the message of the first error
/// of the lexer, the parser or the declaration check, in that order.
pub open spec fn compile_source(s: Seq<char>) -> Result<Seq<InstructionView>, Seq<char>> {
    match lex(s) {
        Err(e) => Err(e),
        Ok(toks) => match parse_tokens(toks) {
            Err(e) => Err(e),
            Ok(prog) => lower_program(prog.data, prog.procedure),
        },
    }
}

impl Opcode {
    /// The mnemonic of the operation.
    pub fn name(&self) -> (s: String)
        ensures
            s@ == opcode_name(*self),
    {
        match self {
            Opcode::Compress => owned("COMPRESS"),
            Opcode::VerifyIntegrity => owned("VERIFY-INTEGRITY"),
            Opcode::Transcode => owned("TRANSCODE"),
            Opcode::Filter => owned("FILTER"),
            Opcode::Aggregate => owned("AGGREGATE"),
            Opcode::Convert => owned("CONVERT"),
            Opcode::Merge => owned("MERGE"),
            Opcode::Split => owned("SPLIT"),
            Opcode::Validate => owned("VALIDATE"),
            Opcode::Extract => owned("EXTRACT"),
        }
    }
}

/// The text of an instruction: its mnemonic followed by each operand, each
/// preceded by a space.
pub open spec fn instruction_text(i: InstructionView) -> Seq<char> {
    opcode_name(i.opcode) + operands_text(i.operands)
}

/// Each operand preceded by a space.
pub open spec fn operands_text(ops: Seq<Seq<char>>) -> Seq<char>
    decreases ops.len(),
{
    if ops.len() == 0 {
        Seq::empty()
    } else {
        operands_text(ops.drop_last()) + " "@ + ops.last()
    }
}

impl Instruction {
    /// The text of the instruction (see `instruction_text`).
    pub fn to_string(&self) -> (s: String)
        ensures
            s@ == instruction_text(self@),
    {
        let mut v: Vec<char> = Vec::new();
        let name = self.opcode.name();
        push_str(&mut v, name.as_str());
        let n = self.operands.len();
        let mut i: usize = 0;
        while i < n
            invariant
                n == self.operands@.len(),
                i <= n,
                v@ == opcode_name(self.opcode) + operands_text(strings_view(self.operands@).take(i as int)),
            decreases n - i,
        {
            let ghost before = v@;
            push_str(&mut v, " ");
            push_str(&mut v, self.operands[i].as_str());
            proof {
                let ops = strings_view(self.operands@);
                assert(ops.take(i + 1).drop_last() =~= ops.take(i as int));
                assert(v@ =~= opcode_name(self.opcode) + operands_text(ops.take(i + 1)));
            }
            i = i + 1;
        }
        assert(strings_view(self.operands@).take(n as int) =~= strings_view(self.operands@));
        string_of(&v)
    }
}

fn single(s: String) -> (v: Vec<String>)
    ensures
        strings_view(v@) == seq![s@],
{
    let v = vec![s];
    assert(strings_view(v@) =~= seq![s@]);
    v
}

fn pair(a: String, b: String) -> (v: Vec<String>)
    ensures
        strings_view(v@) == seq![a@, b@],
{
    let v = vec![a, b];
    assert(strings_view(v@) =~= seq![a@, b@]);
    v
}

fn clone_strings(v: &Vec<String>) -> (r: Vec<String>)
    ensures
        strings_view(r@) == strings_view(v@),
{
    let mut r: Vec<String> = Vec::new();
    let n = v.len();
    let mut i: usize = 0;
    while i < n
        invariant
            n == v@.len(),
            i <= n,
            strings_view(r@) == strings_view(v@).take(i as int),
        decreases n - i,
    {
        let c = v[i].clone();
        let ghost before = strings_view(r@);
        r.push(c);
        assert(strings_view(r@) =~= before.push(c@));
        assert(strings_view(r@) =~= strings_view(v@).take(i + 1));
        i = i + 1;
    }
    assert(strings_view(v@).take(n as int) =~= strings_view(v@));
    r
}

/// Lowers one statement to its instruction.
pub fn lower(s: &ProcedureStatement) -> (i: Instruction)
    ensures
        i@ == lower_statement(s@),
{
    match s {
        ProcedureStatement::Compress { target } => Instruction { opcode: Opcode::Compress, operands: single(target.clone()) },
        ProcedureStatement::VerifyIntegrity { target } => Instruction {
            opcode: Opcode::VerifyIntegrity,
            operands: single(target.clone()),
        },
        ProcedureStatement::Transcode { target, output_type } => Instruction {
            opcode: Opcode::Transcode,
            operands: pair(target.clone(), output_type.to_string()),
        },
        ProcedureStatement::Filter { target, condition } => Instruction {
            opcode: Opcode::Filter,
            operands: pair(target.clone(), condition.clone()),
        },
        ProcedureStatement::Aggregate { targets, operation } => {
            let mut ops = clone_strings(targets);
            let ghost before = strings_view(ops@);
            ops.push(operation.clone());
            assert(strings_view(ops@) =~= before.push(operation@));
            Instruction { opcode: Opcode::Aggregate, operands: ops }
        },
        ProcedureStatement::Convert { target, output_type } => Instruction {
            opcode: Opcode::Convert,
            operands: pair(target.clone(), output_type.to_string()),
        },
        ProcedureStatement::Merge { targets, output_name } => {
            let mut ops = clone_strings(targets);
            let ghost before = strings_view(ops@);
            ops.push(output_name.clone());
            assert(strings_view(ops@) =~= before.push(output_name@));
            Instruction { opcode: Opcode::Merge, operands: ops }
        },
        ProcedureStatement::Split { target, parts } => Instruction {
            opcode: Opcode::Split,
            operands: pair(target.clone(), parts.clone()),
        },
        ProcedureStatement::Validate { target, schema } => Instruction {
            opcode: Opcode::Validate,
            operands: pair(target.clone(), schema.clone()),
        },
        ProcedureStatement::Extract { target, path } => Instruction {
            opcode: Opcode::Extract,
            operands: pair(target.clone(), path.clone()),
        },
    }
}

/// The views of declared variables.
pub open spec fn variable_views(v: Seq<Variable>) -> Seq<VariableView> {
    v.map_values(|x: Variable| x@)
}

/// The views of statements.
pub open spec fn statement_views(v: Seq<ProcedureStatement>) -> Seq<StatementView> {
    v.map_values(|x: ProcedureStatement| x@)
}

fn is_declared_name(vars: &Vec<Variable>, name: &String) -> (b: bool)
    ensures
        b == is_declared(variable_views(vars@), name@),
{
    let n = vars.len();
    let mut i: usize = 0;
    while i < n
        invariant
            n == vars@.len(),
            i <= n,
            forall|k: int| 0 <= k < i ==> vars@[k].name@ != name@,
        decreases n - i,
    {
        if vars[i].name == *name {
            assert(variable_views(vars@)[i as int].name == name@);
            return true;
        }
        i = i + 1;
    }
    assert forall|k: int| 0 <= k < n implies #[trigger] variable_views(vars@)[k].name != name@ by {
        assert(vars@[k].name@ != name@);
    }
    false
}

fn first_undeclared_of(vars: &Vec<Variable>, names: &Vec<String>) -> (r: Option<String>)
    ensures
        crate::ast::opt_view(r) == first_undeclared_name(variable_views(vars@), strings_view(names@)),
{
    let ghost vv = variable_views(vars@);
    let ghost nv = strings_view(names@);
    let n = names.len();
    let mut i: usize = 0;
    assert(nv.skip(0) =~= nv);
    while i < n
        invariant
            n == names@.len(),
            nv == strings_view(names@),
            vv == variable_views(vars@),
            i <= n,
            first_undeclared_name(vv, nv) == first_undeclared_name(vv, nv.skip(i as int)),
        decreases n - i,
    {
        assert(nv.skip(i as int)[0] == names@[i as int]@);
        if !is_declared_name(vars, &names[i]) {
            return Some(names[i].clone());
        }
        assert(nv.skip(i as int).drop_first() =~= nv.skip(i + 1));
        i = i + 1;
    }
    assert(nv.skip(n as int).len() == 0);
    None
}

fn targets_of(s: &ProcedureStatement) -> (v: Vec<String>)
    ensures
        strings_view(v@) == statement_targets(s@),
{
    match s {
        ProcedureStatement::Compress { target } => single(target.clone()),
        ProcedureStatement::VerifyIntegrity { target } => single(target.clone()),
        ProcedureStatement::Transcode { target, .. } => single(target.clone()),
        ProcedureStatement::Filter { target, .. } => single(target.clone()),
        ProcedureStatement::Aggregate { targets, .. } => clone_strings(targets),
        ProcedureStatement::Convert { target, .. } => single(target.clone()),
        ProcedureStatement::Merge { targets, .. } => clone_strings(targets),
        ProcedureStatement::Split { target, .. } => single(target.clone()),
        ProcedureStatement::Validate { target, .. } => single(target.clone()),
        ProcedureStatement::Extract { target, .. } => single(target.clone()),
    }
}

/// The first variable, in statement order, that the program reads without
/// declaring it.
pub fn find_undeclared(program: &Program) -> (r: Option<String>)
    ensures
        crate::ast::opt_view(r) == first_undeclared(
            variable_views(program.data.variables@),
            statement_views(program.procedure.statements@),
        ),
{
    let vars = &program.data.variables;
    let stmts = &program.procedure.statements;
    let ghost vv = variable_views(vars@);
    let ghost sv = statement_views(stmts@);
    let n = stmts.len();
    let mut i: usize = 0;
    assert(sv.skip(0) =~= sv);
    while i < n
        invariant
            n == stmts@.len(),
            sv == statement_views(stmts@),
            vv == variable_views(vars@),
            vv == variable_views(program.data.variables@),
            sv == statement_views(program.procedure.statements@),
            i <= n,
            first_undeclared(vv, sv) == first_undeclared(vv, sv.skip(i as int)),
        decreases n - i,
    {
        assert(sv.skip(i as int)[0] == stmts@[i as int]@);
        let targets = targets_of(&stmts[i]);
        match first_undeclared_of(vars, &targets) {
            Some(name) => {
                assert(statement_targets(sv.skip(i as int)[0]) == strings_view(targets@));
                assert(sv.skip(i as int).len() > 0);
                assert(first_undeclared(vv, sv.skip(i as int)) == Some(name@));
                return Some(name);
            },
            None => {},
        }
        assert(sv.skip(i as int).drop_first() =~= sv.skip(i + 1));
        i = i + 1;
    }
    assert(sv.skip(n as int).len() == 0);
    None
}

/// Checks a parsed program and lowers each statement to one instruction, in
/// order; fails on the first variable that a statement reads without its
/// being declared.
pub fn lower_checked(program: &Program) -> (r: Result<Vec<Instruction>, String>)
    ensures
        match lower_program(variable_views(program.data.variables@), statement_views(program.procedure.statements@)) {
            Ok(is) => r is Ok && instruction_views(r->Ok_0@) == is,
            Err(e) => r is Err && r->Err_0@ == e,
        },
{
    match find_undeclared(program) {
        Some(name) => {
            let mut v: Vec<char> = Vec::new();
            push_str(&mut v, "Variable '");
            push_str(&mut v, name.as_str());
            push_str(&mut v, "' is not declared in DATA DIVISION");
            return Err(string_of(&v));
        },
        None => {},
    }
    let stmts = &program.procedure.statements;
    let ghost sv = statement_views(stmts@);
    let mut out: Vec<Instruction> = Vec::new();
    let n = stmts.len();
    let mut i: usize = 0;
    while i < n
        invariant
            n == stmts@.len(),
            sv == statement_views(stmts@),
            sv == statement_views(program.procedure.statements@),
            i <= n,
            instruction_views(out@) == sv.take(i as int).map_values(|s: StatementView| lower_statement(s)),
        decreases n - i,
    {
        let ins = lower(&stmts[i]);
        let ghost before = instruction_views(out@);
        out.push(ins);
        assert(instruction_views(out@) =~= before.push(ins@));
        assert(sv.take(i + 1) =~= sv.take(i as int).push(sv[i as int]));
        assert(sv.take(i + 1).map_values(|s: StatementView| lower_statement(s)) =~= sv.take(i as int).map_values(
            |s: StatementView| lower_statement(s),
        ).push(lower_statement(sv[i as int])));
        i = i + 1;
    }
    assert(sv.take(n as int) =~= sv);
    Ok(out)
}

/// Compiles CENTRA-NF source to instructions: tokenizes, parses, checks
/// that every variable a statement reads is declared, and lowers each
/// statement to one instruction (see `compile_source`).
pub fn compile(source: &str) -> (r: Result<Vec<Instruction>, String>)
    requires
        source@.len() < usize::MAX,
    ensures
        match compile_source(source@) {
            Ok(is) => r is Ok && instruction_views(r->Ok_0@) == is,
            Err(e) => r is Err && r->Err_0@ == e,
        },
{
    let tokens = match tokenize(source) {
        Ok(t) => t,
        Err(e) => return Err(e),
    };
    let program = match parse(tokens) {
        Ok(p) => p,
        Err(e) => return Err(e),
    };
    lower_checked(&program)
}

/// Texts joined with a line feed between each two.
pub open spec fn joined_lines(ts: Seq<Seq<char>>) -> Seq<char>
    decreases ts.len(),
{
    if ts.len() == 0 {
        Seq::empty()
    } else if ts.len() == 1 {
        ts[0]
    } else {
        joined_lines(ts.drop_last()) + "\n"@ + ts.last()
    }
}

/// The listing of a program's instructions: one instruction per line, or
/// `(empty program)` when there is none.
pub open spec fn listing_text(is: Seq<InstructionView>) -> Seq<char> {
    if is.len() == 0 {
        "(empty program)"@
    } else {
        joined_lines(is.map_values(|i: InstructionView| instruction_text(i)))
    }
}

/// The listing of a program's instructions (see `listing_text`).
pub fn listing(instructions: &Vec<Instruction>) -> (s: String)
    ensures
        s@ == listing_text(instruction_views(instructions@)),
{
    let n = instructions.len();
    if n == 0 {
        return owned("(empty program)");
    }
    let ghost texts = instruction_views(instructions@).map_values(|i: InstructionView| instruction_text(i));
    let mut v: Vec<char> = Vec::new();
    let mut k: usize = 0;
    assert(texts.take(0) =~= Seq::<Seq<char>>::empty());
    while k < n
        invariant
            n == instructions@.len(),
            n > 0,
            k <= n,
            texts == instruction_views(instructions@).map_values(|i: InstructionView| instruction_text(i)),
            v@ == joined_lines(texts.take(k as int)),
        decreases n - k,
    {
        let t = instructions[k].to_string();
        assert(texts[k as int] == t@);
        assert(texts.take(k + 1).drop_last() =~= texts.take(k as int));
        if k > 0 {
            push_str(&mut v, "\n");
        }
        push_str(&mut v, t.as_str());
        assert(v@ =~= joined_lines(texts.take(k + 1)));
        k = k + 1;
    }
    assert(texts.take(n as int) =~= texts);
    string_of(&v)
}

} // verus!
