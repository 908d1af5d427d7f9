//! The boundary with the syntax tree provider. Parsing itself is done by the
//! `rustpython-parser` crate; what it returns for a given text is named by the
//! uninterpreted function [`parse_of`], and a small family of trusted
//! converters turns the parser's located tree into the library's own
//! [`Program`], moving names, lines and nested bodies one for one.

use vstd::prelude::*;

use crate::syntax::{ImportAlias, Expression, Param, ParseOutcome, Program, Statement};
use rustpython_parser::ast;
use rustpython_parser::ast::located::Located;
use rustpython_parser::source_code::SourceRange;
use rustpython_parser::Parse;

verus! {

// The parser's node types, declared opaquely so that the converters below can
// take them in their signatures; no field of them is visible to verification.
#[verifier::external_type_specification]
#[verifier::external_body]
#[verifier::reject_recursive_types(R)]
pub struct ExAstStmt<R>(ast::Stmt<R>);

#[verifier::external_type_specification]
#[verifier::external_body]
#[verifier::reject_recursive_types(R)]
pub struct ExAstExpr<R>(ast::Expr<R>);

#[verifier::external_type_specification]
#[verifier::external_body]
#[verifier::reject_recursive_types(R)]
pub struct ExAstKeyword<R>(ast::Keyword<R>);

#[verifier::external_type_specification]
#[verifier::external_body]
#[verifier::reject_recursive_types(R)]
pub struct ExAstAlias<R>(ast::Alias<R>);

#[verifier::external_type_specification]
#[verifier::external_body]
#[verifier::reject_recursive_types(R)]
pub struct ExAstArguments<R>(ast::Arguments<R>);

#[verifier::external_type_specification]
#[verifier::external_body]
pub struct ExSourceRange(SourceRange);

/// The name for what the parser returns on a given text: parsing is a
/// function of the source characters alone.
pub uninterp spec fn parse_of(source: Seq<char>) -> ParseOutcome;

/// The largest source, in characters, that is handed to the parser: its
/// byte offsets and row numbers are 32-bit, and a character is at most four
/// bytes.
pub const MAX_SOURCE_LEN: usize = 0x4000_0000;

/// Relies on rustpython_parser's module parser (`Parse` for `ast::Suite`) and
/// on `LinearLocator`, which folds byte ranges into one-indexed row/column
/// locations: the outcome is a function of the source text alone (the path
/// label only fills an error field that the error's message does not show),
/// and every row is a `OneIndexed`, so at least 1.
#[verifier::external_body]
fn parse_ext(source: &str) -> (r: ParseOutcome)
    requires
        source@.len() < MAX_SOURCE_LEN,
    ensures
        r == parse_of(source@),
        r matches ParseOutcome::Parsed(p) ==> crate::syntax::wf_program(p),
{
    match ast::Suite::parse(source, "<source>") {
        Ok(suite) => {
            let mut locator = rustpython_parser::source_code::LinearLocator::new(source);
            let folded = ast::fold::Foldable::fold(suite, &mut locator);
            let located: Vec<ast::Stmt<SourceRange>> = match folded { Ok(l) => l, Err(e) => match e {} };
            ParseOutcome::Parsed(Program { body: conv_suite(located) })
        },
        Err(e) => ParseOutcome::Failed(format!("{}", e)),
    }
}

/// Moves a body: each statement in order.
#[verifier::external_body]
fn conv_suite(stmts: Vec<ast::Stmt<SourceRange>>) -> Vec<Statement> {
    stmts.into_iter().map(conv_stmt).collect()
}

/// Moves one statement, with the 1-based row of its start location; the
/// statement forms no rule reads collapse to `Other`.
#[verifier::external_body]
fn conv_stmt(s: ast::Stmt<SourceRange>) -> Statement {
    let line = s.location().row.to_usize();
    match s {
        ast::Stmt::FunctionDef(f) => Statement::FunctionDef { name: f.name.as_str().to_owned(), params: conv_params(f.args), body: conv_suite(f.body), line },
        ast::Stmt::ClassDef(c) => Statement::ClassDef { name: c.name.as_str().to_owned(), body: conv_suite(c.body), line },
        other => conv_stmt_assigns(other, line),
    }
}

/// Moves assignment and return forms, fields one for one.
#[verifier::external_body]
fn conv_stmt_assigns(s: ast::Stmt<SourceRange>, line: usize) -> Statement {
    match s {
        ast::Stmt::Assign(a) => Statement::Assign { targets: conv_exprs(a.targets), value: conv_expr(*a.value), line },
        ast::Stmt::AnnAssign(a) => Statement::AnnAssign { target: conv_expr(*a.target), annotation: conv_expr(*a.annotation), value: conv_opt_expr(a.value), line },
        ast::Stmt::Return(r) => Statement::Return { value: conv_opt_expr(r.value), line },
        other => conv_stmt_blocks(other, line),
    }
}

/// Moves branch, loop and expression-statement forms, fields one for one.
#[verifier::external_body]
fn conv_stmt_blocks(s: ast::Stmt<SourceRange>, line: usize) -> Statement {
    match s {
        ast::Stmt::If(i) => Statement::If { test: conv_expr(*i.test), body: conv_suite(i.body), orelse: conv_suite(i.orelse), line },
        ast::Stmt::While(w) => Statement::While { test: conv_expr(*w.test), body: conv_suite(w.body), orelse: conv_suite(w.orelse), line },
        ast::Stmt::Expr(e) => Statement::Expression { value: conv_expr(*e.value), line },
        other => conv_stmt_rest(other, line),
    }
}

/// Moves loop and import forms, fields one for one; anything else is
/// `Other`.
#[verifier::external_body]
fn conv_stmt_rest(s: ast::Stmt<SourceRange>, line: usize) -> Statement {
    match s {
        ast::Stmt::For(f) => Statement::For { target: conv_expr(*f.target), iter: conv_expr(*f.iter), body: conv_suite(f.body), orelse: conv_suite(f.orelse), line },
        ast::Stmt::Import(i) => Statement::Import { names: conv_aliases(i.names), line },
        ast::Stmt::ImportFrom(i) => Statement::ImportFrom { module: i.module.map(|m| m.as_str().to_owned()), names: conv_aliases(i.names), line },
        _ => Statement::Other,
    }
}

/// Moves one expression; the expression forms no rule reads collapse to
/// `Other`.
#[verifier::external_body]
fn conv_expr(e: ast::Expr<SourceRange>) -> Expression {
    match e {
        ast::Expr::Name(n) => Expression::Name { id: n.id.as_str().to_owned() },
        ast::Expr::Attribute(a) => Expression::Attribute { value: Box::new(conv_expr(*a.value)), attr: a.attr.as_str().to_owned() },
        ast::Expr::Call(c) => Expression::Call { func: Box::new(conv_expr(*c.func)), args: conv_exprs(c.args), keywords: conv_keywords(c.keywords) },
        other => conv_expr_ops(other),
    }
}

/// Moves operator and subscript forms, fields one for one.
#[verifier::external_body]
fn conv_expr_ops(e: ast::Expr<SourceRange>) -> Expression {
    match e {
        ast::Expr::BinOp(b) => Expression::BinOp { left: Box::new(conv_expr(*b.left)), right: Box::new(conv_expr(*b.right)) },
        ast::Expr::BoolOp(b) => Expression::BoolOp { values: conv_exprs(b.values) },
        ast::Expr::Subscript(s) => Expression::Subscript { value: Box::new(conv_expr(*s.value)), slice: Box::new(conv_expr(*s.slice)) },
        other => conv_expr_rest(other),
    }
}

/// Moves conditional-expression and lambda forms, fields one for one.
#[verifier::external_body]
fn conv_expr_rest(e: ast::Expr<SourceRange>) -> Expression {
    match e {
        ast::Expr::IfExp(i) => Expression::IfExp { test: Box::new(conv_expr(*i.test)), body: Box::new(conv_expr(*i.body)), orelse: Box::new(conv_expr(*i.orelse)) },
        ast::Expr::Lambda(l) => Expression::Lambda { body: Box::new(conv_expr(*l.body)) },
        _ => Expression::Other,
    }
}

/// Moves a list of expressions, each in order.
#[verifier::external_body]
fn conv_exprs(es: Vec<ast::Expr<SourceRange>>) -> Vec<Expression> {
    es.into_iter().map(conv_expr).collect()
}

/// Moves an optional expression.
#[verifier::external_body]
fn conv_opt_expr(e: Option<Box<ast::Expr<SourceRange>>>) -> Option<Expression> {
    e.map(|b| conv_expr(*b))
}

/// Moves each keyword argument's value expression, in order.
#[verifier::external_body]
fn conv_keywords(ks: Vec<ast::Keyword<SourceRange>>) -> Vec<Expression> {
    ks.into_iter().map(|k| conv_expr(k.value)).collect()
}

/// Moves each import alias: its dotted name and optional alias.
#[verifier::external_body]
fn conv_aliases(ns: Vec<ast::Alias<SourceRange>>) -> Vec<ImportAlias> {
    ns.into_iter().map(|a: ast::Alias<SourceRange>| ImportAlias { name: a.name.as_str().to_owned(), asname: a.asname.map(|x| x.as_str().to_owned()) }).collect()
}

/// Moves each positional parameter's optional annotation, in order.
#[verifier::external_body]
fn conv_params(args: Box<ast::Arguments<SourceRange>>) -> Vec<Param> {
    args.args.into_iter().map(|a| Param { annotation: a.def.annotation.map(|b| conv_expr(*b)) }).collect()
}

/// Parse one file's text into the library's tree, or the parser's error
/// message.
pub fn parse_source(source: &str) -> (r: ParseOutcome)
    requires
        source@.len() < MAX_SOURCE_LEN,
    ensures
        r == parse_of(source@),
        r matches ParseOutcome::Parsed(p) ==> crate::syntax::wf_program(p),
{
    parse_ext(source)
}

} // verus!
