//! The library's own model of a parsed program: an ordered sequence of
//! statements, each carrying a 1-based source line, recursively containing the
//! nested statements and expressions that the rules walk.
//!
//! The tree is immutable; rules receive read-only access and never mutate it.
//! Statement and expression forms that no rule reads are collapsed into the
//! `Other` variants, which still occupy their position in a body.

use vstd::prelude::*;

verus! {

/// One name introduced by an import statement, possibly aliased.
pub struct ImportAlias {
    pub name: String,
    pub asname: Option<String>,
}

/// One formal parameter of a function definition; only its optional
/// annotation expression matters to the rules.
pub struct Param {
    pub annotation: Option<Expression>,
}

/// An expression, reduced to the forms the rules walk.
pub enum Expression {
    Name { id: String },
    Attribute { value: Box<Expression>, attr: String },
    Call { func: Box<Expression>, args: Vec<Expression>, keywords: Vec<Expression> },
    BinOp { left: Box<Expression>, right: Box<Expression> },
    BoolOp { values: Vec<Expression> },
    IfExp { test: Box<Expression>, body: Box<Expression>, orelse: Box<Expression> },
    Lambda { body: Box<Expression> },
    Subscript { value: Box<Expression>, slice: Box<Expression> },
    Other,
}

/// A statement with its 1-based source line, reduced to the forms the rules
/// walk.
#[allow(inconsistent_fields)]
pub enum Statement {
    FunctionDef { name: String, params: Vec<Param>, body: Vec<Statement>, line: usize },
    ClassDef { name: String, body: Vec<Statement>, line: usize },
    Assign { targets: Vec<Expression>, value: Expression, line: usize },
    AnnAssign { target: Expression, annotation: Expression, value: Option<Expression>, line: usize },
    Return { value: Option<Expression>, line: usize },
    If { test: Expression, body: Vec<Statement>, orelse: Vec<Statement>, line: usize },
    While { test: Expression, body: Vec<Statement>, orelse: Vec<Statement>, line: usize },
    For { target: Expression, iter: Expression, body: Vec<Statement>, orelse: Vec<Statement>, line: usize },
    Import { names: Vec<ImportAlias>, line: usize },
    ImportFrom { module: Option<String>, names: Vec<ImportAlias>, line: usize },
    Expression { value: Expression, line: usize },
    Other,
}

/// A whole parsed file: its top-level statements in source order.
pub struct Program {
    pub body: Vec<Statement>,
}

/// What parsing one file yields: a tree, or the parser's error message.
pub enum ParseOutcome {
    Parsed(Program),
    Failed(String),
}

/// Every statement of the tree carries a 1-based line, as the parser's
/// locations guarantee.
pub open spec fn wf_stmt(s: Statement) -> bool
    decreases s,
{
    match s {
        Statement::FunctionDef { body, line, .. } => line >= 1 && wf_stmts(body@),
        Statement::ClassDef { body, line, .. } => line >= 1 && wf_stmts(body@),
        Statement::Assign { line, .. } => line >= 1,
        Statement::AnnAssign { line, .. } => line >= 1,
        Statement::Return { line, .. } => line >= 1,
        Statement::If { body, orelse, line, .. } => line >= 1 && wf_stmts(body@) && wf_stmts(orelse@),
        Statement::While { body, orelse, line, .. } => line >= 1 && wf_stmts(body@) && wf_stmts(
            orelse@,
        ),
        Statement::For { body, orelse, line, .. } => line >= 1 && wf_stmts(body@) && wf_stmts(orelse@),
        Statement::Import { line, .. } => line >= 1,
        Statement::ImportFrom { line, .. } => line >= 1,
        Statement::Expression { line, .. } => line >= 1,
        Statement::Other => true,
    }
}

/// See [`wf_stmt`], over a whole body.
pub open spec fn wf_stmts(ss: Seq<Statement>) -> bool
    decreases ss,
{
    if ss.len() == 0 {
        true
    } else {
        wf_stmt(ss[0]) && wf_stmts(ss.drop_first())
    }
}

/// See [`wf_stmt`], over a whole program.
pub open spec fn wf_program(p: Program) -> bool {
    wf_stmts(p.body@)
}

} // verus!
