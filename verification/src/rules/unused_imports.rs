//! The unused-import checker. Two file-scoped passes: collect every name
//! bound by a top-level import statement, collect every identifier and
//! attribute name used in expressions reachable from statement bodies, then
//! report each binding whose name is never used.
//!
//! An aliased import counts as used only through its alias. An unaliased
//! import counts as used through its full dotted name, its base module name,
//! or any recorded dotted usage of the base module — so `import os.path` is
//! considered used merely by referencing `os`, a deliberate precision/recall
//! tradeoff.

use vstd::prelude::*;

use crate::linter::{diag_views, warn_at, Diagnostic, DiagnosticLevel, DiagnosticView};
use crate::strutil::{first_ch, str_eq, str_starts_with};
use crate::syntax::{ImportAlias, Expression, Param, Program, Statement};

verus! {

/// The unused-import checker. It holds no state: the same value may check any
/// number of files.
pub struct UnusedImports;

/// The model of one import binding: the name as written, its optional alias,
/// and the 1-based line of the import statement.
pub struct BindingView {
    pub name: Seq<char>,
    pub asname: Option<Seq<char>>,
    pub line: int,
}

/// One import binding as collected from the tree.
pub struct Binding {
    pub name: String,
    pub asname: Option<String>,
    pub line: usize,
}

pub open spec fn opt_str_view(o: Option<String>) -> Option<Seq<char>> {
    match o {
        Some(s) => Some(s@),
        None => None,
    }
}

impl View for Binding {
    type V = BindingView;

    open spec fn view(&self) -> BindingView {
        BindingView { name: self.name@, asname: opt_str_view(self.asname), line: self.line as int }
    }
}

pub open spec fn binding_views(bs: Seq<Binding>) -> Seq<BindingView> {
    bs.map_values(|b: Binding| b@)
}

pub open spec fn str_views(ss: Seq<String>) -> Seq<Seq<char>> {
    ss.map_values(|s: String| s@)
}

// ---------------------------------------------------------------------------
// Pass one: bindings.
// ---------------------------------------------------------------------------
pub open spec fn alias_binding(a: ImportAlias, line: int) -> BindingView {
    BindingView { name: a.name@, asname: opt_str_view(a.asname), line: line }
}

pub open spec fn aliases_bindings(ns: Seq<ImportAlias>, line: int) -> Seq<BindingView> {
    ns.map_values(|a: ImportAlias| alias_binding(a, line))
}

/// The bindings introduced by one top-level statement: `import` always,
/// `from M import ...` only when a module is named.
pub open spec fn stmt_bindings(s: Statement) -> Seq<BindingView> {
    match s {
        Statement::Import { names, line } => aliases_bindings(names@, line as int),
        Statement::ImportFrom { module, names, line } => if module is Some {
            aliases_bindings(names@, line as int)
        } else {
            Seq::empty()
        },
        _ => Seq::empty(),
    }
}

/// The bindings of the first `k` top-level statements, in source order.
pub open spec fn bindings_prefix(ss: Seq<Statement>, k: int) -> Seq<BindingView>
    decreases k,
{
    if k <= 0 || k > ss.len() {
        Seq::empty()
    } else {
        bindings_prefix(ss, k - 1) + stmt_bindings(ss[k - 1])
    }
}

/// All bindings of a file: its top-level import statements only.
pub open spec fn bindings_of(ss: Seq<Statement>) -> Seq<BindingView> {
    bindings_prefix(ss, ss.len() as int)
}

// ---------------------------------------------------------------------------
// Pass two: used names.
// ---------------------------------------------------------------------------
/// The names recorded while walking one expression: every bare identifier,
/// every attribute name, and for attribute access on a bare name the dotted
/// form `base.attr` as well.
pub open spec fn used_expr(e: Expression) -> Seq<Seq<char>>
    decreases e,
{
    match e {
        Expression::Name { id } => seq![id@],
        Expression::Attribute { value, attr } => used_expr(*value) + seq![attr@] + (match *value {
            Expression::Name { id } => seq![id@ + seq!['.'] + attr@],
            _ => Seq::empty(),
        }),
        Expression::Call { func, args, .. } => used_expr(*func) + used_exprs(args@),
        Expression::BinOp { left, right } => used_expr(*left) + used_expr(*right),
        Expression::Subscript { value, slice } => used_expr(*value) + used_expr(*slice),
        _ => Seq::empty(),
    }
}

pub open spec fn used_exprs(es: Seq<Expression>) -> Seq<Seq<char>>
    decreases es,
{
    if es.len() == 0 {
        Seq::empty()
    } else {
        used_expr(es[0]) + used_exprs(es.drop_first())
    }
}

/// The names recorded from the annotations of a parameter list.
pub open spec fn used_params(ps: Seq<Param>) -> Seq<Seq<char>>
    decreases ps,
{
    if ps.len() == 0 {
        Seq::empty()
    } else {
        (match ps[0].annotation {
            Some(a) => used_expr(a),
            None => Seq::empty(),
        }) + used_params(ps.drop_first())
    }
}

/// The names recorded while walking one statement's expressions: parameter
/// annotations and bodies of function definitions, assignment targets and
/// values, annotated assignments, return values, and bare expression
/// statements.
pub open spec fn used_stmt(s: Statement) -> Seq<Seq<char>>
    decreases s,
{
    match s {
        Statement::FunctionDef { params, body, .. } => used_params(params@) + used_stmts(body@),
        Statement::Assign { targets, value, .. } => used_exprs(targets@) + used_expr(value),
        Statement::AnnAssign { target, annotation, value, .. } => used_expr(target) + used_expr(
            annotation,
        ) + (match value {
            Some(v) => used_expr(v),
            None => Seq::empty(),
        }),
        Statement::Return { value, .. } => match value {
            Some(v) => used_expr(v),
            None => Seq::empty(),
        },
        Statement::Expression { value, .. } => used_expr(value),
        _ => Seq::empty(),
    }
}

pub open spec fn used_stmts(ss: Seq<Statement>) -> Seq<Seq<char>>
    decreases ss,
{
    if ss.len() == 0 {
        Seq::empty()
    } else {
        used_stmt(ss[0]) + used_stmts(ss.drop_first())
    }
}

// ---------------------------------------------------------------------------
// The decision.
// ---------------------------------------------------------------------------
pub open spec fn seq_contains(ss: Seq<Seq<char>>, x: Seq<char>) -> bool {
    exists|i: int| 0 <= i < ss.len() && ss[i] == x
}

/// The base module name: the dotted name up to its first dot.
pub open spec fn base_of(name: Seq<char>) -> Seq<char> {
    name.take(first_ch(name, '.'))
}

/// Whether a binding is used: through its alias when aliased; otherwise
/// through its full name, its base name, or any dotted usage of the base.
pub open spec fn binding_used(b: BindingView, used: Seq<Seq<char>>) -> bool {
    match b.asname {
        Some(alias) => seq_contains(used, alias),
        None => seq_contains(used, b.name) || seq_contains(used, base_of(b.name)) || exists|i: int|
            0 <= i < used.len() && (base_of(b.name) + seq!['.']).is_prefix_of(#[trigger] used[i]),
    }
}

/// How an unused binding is named in its message: `name` or `name as alias`.
pub open spec fn display_name(b: BindingView) -> Seq<char> {
    match b.asname {
        Some(alias) => b.name + " as "@ + alias,
        None => b.name,
    }
}

pub open spec fn msg_unused(b: BindingView) -> Seq<char> {
    "Unused import '"@ + display_name(b) + "'"@
}

/// The diagnostics for the bindings from index `k` on, in binding order.
pub open spec fn unused_prefix(bs: Seq<BindingView>, used: Seq<Seq<char>>, k: int) -> Seq<
    DiagnosticView,
>
    decreases k,
{
    if k <= 0 || k > bs.len() {
        Seq::empty()
    } else {
        unused_prefix(bs, used, k - 1) + (if !binding_used(bs[k - 1], used) {
            seq![warn_at(msg_unused(bs[k - 1]), bs[k - 1].line, 1)]
        } else {
            Seq::empty()
        })
    }
}

/// All unused-import diagnostics of a file.
pub open spec fn unused_diags(ss: Seq<Statement>) -> Seq<DiagnosticView> {
    let bs = bindings_of(ss);
    unused_prefix(bs, used_stmts(ss), bs.len() as int)
}

// ---------------------------------------------------------------------------
// Executable passes.
// ---------------------------------------------------------------------------
/// Collect the bindings of every top-level import statement.
fn collect_bindings(stmts: &Vec<Statement>) -> (bs: Vec<Binding>)
    ensures
        binding_views(bs@) == bindings_of(stmts@),
{
    let mut bs: Vec<Binding> = Vec::new();
    let n = stmts.len();
    let mut k: usize = 0;
    proof {
        assert(binding_views(bs@) =~= bindings_prefix(stmts@, 0));
    }
    while k < n
        invariant
            n == stmts@.len(),
            k <= n,
            binding_views(bs@) == bindings_prefix(stmts@, k as int),
        decreases n - k,
    {
        match &stmts[k] {
            Statement::Import { names, line } => {
                push_aliases(&mut bs, names, *line);
            },
            Statement::ImportFrom { module, names, line } => {
                if module.is_some() {
                    push_aliases(&mut bs, names, *line);
                }
            },
            _ => {},
        }
        proof {
            assert(binding_views(bs@) =~= bindings_prefix(stmts@, k + 1));
        }
        k = k + 1;
    }
    bs
}

/// Append one binding per alias of one import statement.
fn push_aliases(bs: &mut Vec<Binding>, names: &Vec<ImportAlias>, line: usize)
    ensures
        binding_views(final(bs)@) == binding_views(old(bs)@) + aliases_bindings(
            names@,
            line as int,
        ),
{
    let ghost start = binding_views(bs@);
    let n = names.len();
    let mut k: usize = 0;
    while k < n
        invariant
            n == names@.len(),
            k <= n,
            binding_views(bs@) == start + aliases_bindings(names@, line as int).take(k as int),
        decreases n - k,
    {
        let a = &names[k];
        let asname = match &a.asname {
            Some(s) => Some(s.clone()),
            None => None,
        };
        let b = Binding { name: a.name.clone(), asname, line };
        proof {
            assert(b@ == alias_binding(names@[k as int], line as int));
            assert(binding_views(bs@.push(b)) =~= binding_views(bs@).push(b@));
            assert(aliases_bindings(names@, line as int).take(k + 1) =~= aliases_bindings(
                names@,
                line as int,
            ).take(k as int).push(b@));
        }
        bs.push(b);
        proof {
            assert(binding_views(bs@) =~= start + aliases_bindings(names@, line as int).take(
                k + 1,
            ));
        }
        k = k + 1;
    }
    proof {
        assert(aliases_bindings(names@, line as int).take(n as int) =~= aliases_bindings(
            names@,
            line as int,
        ));
    }
}

/// Record every used name reachable from one expression.
fn collect_used_expr(e: &Expression, used: &mut Vec<String>)
    ensures
        str_views(final(used)@) == str_views(old(used)@) + used_expr(*e),
    decreases e,
{
    let ghost start = str_views(used@);
    match e {
        Expression::Name { id } => {
            let s = id.clone();
            proof {
                assert(str_views(used@.push(s)) =~= str_views(used@).push(s@));
            }
            used.push(s);
        },
        Expression::Attribute { value, attr } => {
            collect_used_expr(value, used);
            let s = attr.clone();
            proof {
                assert(str_views(used@.push(s)) =~= str_views(used@).push(s@));
            }
            used.push(s);
            match &**value {
                Expression::Name { id } => {
                    let mut dotted = id.clone();
                    dotted.append(".");
                    dotted.append(attr.as_str());
                    proof {
                        reveal_strlit(".");
                        assert(dotted@ =~= id@ + seq!['.'] + attr@);
                        assert(str_views(used@.push(dotted)) =~= str_views(used@).push(dotted@));
                    }
                    used.push(dotted);
                },
                _ => {},
            }
            proof {
                assert(str_views(used@) =~= start + used_expr(*e));
            }
        },
        Expression::Call { func, args, .. } => {
            collect_used_expr(func, used);
            collect_used_exprs(args, used);
            proof {
                assert(str_views(used@) =~= start + used_expr(*e));
            }
        },
        Expression::BinOp { left, right } => {
            collect_used_expr(left, used);
            collect_used_expr(right, used);
            proof {
                assert(str_views(used@) =~= start + used_expr(*e));
            }
        },
        Expression::Subscript { value, slice } => {
            collect_used_expr(value, used);
            collect_used_expr(slice, used);
            proof {
                assert(str_views(used@) =~= start + used_expr(*e));
            }
        },
        _ => {},
    }
    proof {
        assert(str_views(used@) =~= start + used_expr(*e));
    }
}

fn collect_used_exprs(es: &Vec<Expression>, used: &mut Vec<String>)
    ensures
        str_views(final(used)@) == str_views(old(used)@) + used_exprs(es@),
    decreases es,
{
    let ghost start = str_views(used@);
    let n = es.len();
    let mut k: usize = 0;
    proof {
        assert(used_exprs_prefix(es@, 0) =~= Seq::<Seq<char>>::empty());
    }
    while k < n
        invariant
            n == es@.len(),
            k <= n,
            str_views(used@) == start + used_exprs_prefix(es@, k as int),
        decreases n - k,
    {
        collect_used_expr(&es[k], used);
        proof {
            lemma_used_exprs_prefix_step(es@, k as int);
        }
        k = k + 1;
    }
    proof {
        lemma_used_exprs_prefix_all(es@);
    }
}

/// Record the used names of every parameter annotation.
fn collect_used_params(ps: &Vec<Param>, used: &mut Vec<String>)
    ensures
        str_views(final(used)@) == str_views(old(used)@) + used_params(ps@),
    decreases ps,
{
    let ghost start = str_views(used@);
    let n = ps.len();
    let mut k: usize = 0;
    proof {
        assert(used_params_prefix(ps@, 0) =~= Seq::<Seq<char>>::empty());
    }
    while k < n
        invariant
            n == ps@.len(),
            k <= n,
            str_views(used@) == start + used_params_prefix(ps@, k as int),
        decreases n - k,
    {
        match &ps[k].annotation {
            Some(a) => {
                collect_used_expr(a, used);
            },
            None => {},
        }
        proof {
            lemma_used_params_prefix_step(ps@, k as int);
            assert(str_views(used@) =~= start + used_params_prefix(ps@, k + 1));
        }
        k = k + 1;
    }
    proof {
        lemma_used_params_prefix_all(ps@);
    }
}

/// Record every used name reachable from one statement.
fn collect_used_stmt(s: &Statement, used: &mut Vec<String>)
    ensures
        str_views(final(used)@) == str_views(old(used)@) + used_stmt(*s),
    decreases s,
{
    let ghost start = str_views(used@);
    match s {
        Statement::FunctionDef { params, body, .. } => {
            collect_used_params(params, used);
            collect_used_stmts(body, used);
            proof {
                assert(str_views(used@) =~= start + used_stmt(*s));
            }
        },
        Statement::Assign { targets, value, .. } => {
            collect_used_exprs(targets, used);
            collect_used_expr(value, used);
            proof {
                assert(str_views(used@) =~= start + used_stmt(*s));
            }
        },
        Statement::AnnAssign { target, annotation, value, .. } => {
            collect_used_expr(target, used);
            collect_used_expr(annotation, used);
            match value {
                Some(v) => {
                    collect_used_expr(v, used);
                },
                None => {},
            }
            proof {
                assert(str_views(used@) =~= start + used_stmt(*s));
            }
        },
        Statement::Return { value, .. } => {
            match value {
                Some(v) => {
                    collect_used_expr(v, used);
                },
                None => {},
            }
            proof {
                assert(str_views(used@) =~= start + used_stmt(*s));
            }
        },
        Statement::Expression { value, .. } => {
            collect_used_expr(value, used);
        },
        _ => {},
    }
    proof {
        assert(str_views(used@) =~= start + used_stmt(*s));
    }
}

fn collect_used_stmts(ss: &Vec<Statement>, used: &mut Vec<String>)
    ensures
        str_views(final(used)@) == str_views(old(used)@) + used_stmts(ss@),
    decreases ss,
{
    let ghost start = str_views(used@);
    let n = ss.len();
    let mut k: usize = 0;
    proof {
        assert(used_stmts_prefix(ss@, 0) =~= Seq::<Seq<char>>::empty());
    }
    while k < n
        invariant
            n == ss@.len(),
            k <= n,
            str_views(used@) == start + used_stmts_prefix(ss@, k as int),
        decreases n - k,
    {
        collect_used_stmt(&ss[k], used);
        proof {
            lemma_used_stmts_prefix_step(ss@, k as int);
        }
        k = k + 1;
    }
    proof {
        lemma_used_stmts_prefix_all(ss@);
    }
}

/// Whether some recorded name equals `x`.
fn contains_str(used: &Vec<String>, x: &str) -> (b: bool)
    ensures
        b == seq_contains(str_views(used@), x@),
{
    let n = used.len();
    let mut k: usize = 0;
    while k < n
        invariant
            n == used@.len(),
            k <= n,
            forall|i: int| 0 <= i < k ==> (#[trigger] str_views(used@)[i]) != x@,
        decreases n - k,
    {
        if str_eq(used[k].as_str(), x) {
            proof {
                assert(str_views(used@)[k as int] == x@);
            }
            return true;
        }
        k = k + 1;
    }
    proof {
        assert(forall|i: int|
            0 <= i < str_views(used@).len() ==> (#[trigger] str_views(used@)[i]) != x@);
    }
    false
}

/// Whether some recorded name starts with `prefix`.
fn contains_prefixed(used: &Vec<String>, prefix: &str) -> (b: bool)
    ensures
        b == exists|i: int|
            0 <= i < str_views(used@).len() && prefix@.is_prefix_of(#[trigger] str_views(used@)[i]),
{
    let n = used.len();
    let mut k: usize = 0;
    while k < n
        invariant
            n == used@.len(),
            k <= n,
            forall|i: int| 0 <= i < k ==> !prefix@.is_prefix_of(#[trigger] str_views(used@)[i]),
        decreases n - k,
    {
        if str_starts_with(used[k].as_str(), prefix) {
            proof {
                assert(prefix@.is_prefix_of(str_views(used@)[k as int]));
            }
            return true;
        }
        k = k + 1;
    }
    false
}

/// The index of the first `.` in `s`, or its length if absent.
fn str_find_dot(s: &str) -> (j: usize)
    ensures
        j == first_ch(s@, '.'),
        j <= s@.len(),
{
    let n = s.unicode_len();
    let mut j: usize = 0;
    while j < n
        invariant
            n == s@.len(),
            j <= n,
            forall|k: int| 0 <= k < j ==> s@[k] != '.',
        decreases n - j,
    {
        if s.get_char(j) == '.' {
            proof {
                crate::strutil::lemma_first_ch_unique(s@, '.', j as int);
            }
            return j;
        }
        j = j + 1;
    }
    proof {
        crate::strutil::lemma_first_ch_unique(s@, '.', j as int);
    }
    j
}

impl UnusedImports {
    /// The rule capability: collect bindings and used names, then report
    /// every binding that is not used; the raw text is not used.
    pub fn check(&self, tree: &Program, _source: &str) -> (r: Vec<Diagnostic>)
        ensures
            diag_views(r@) == unused_diags(tree.body@),
    {
        let bindings = collect_bindings(&tree.body);
        let mut used: Vec<String> = Vec::new();
        collect_used_stmts(&tree.body, &mut used);
        proof {
            assert(str_views(used@) =~= used_stmts(tree.body@));
        }
        let ghost bs = binding_views(bindings@);
        let ghost us = str_views(used@);

        let mut out: Vec<Diagnostic> = Vec::new();
        let n = bindings.len();
        let mut k: usize = 0;
        proof {
            assert(diag_views(out@) =~= unused_prefix(bs, us, 0));
        }
        while k < n
            invariant
                n == bindings@.len(),
                bs == binding_views(bindings@),
                us == str_views(used@),
                k <= n,
                diag_views(out@) == unused_prefix(bs, us, k as int),
            decreases n - k,
        {
            let b = &bindings[k];
            proof {
                assert(bs[k as int] == b@);
            }
            let is_used = match &b.asname {
                Some(alias) => contains_str(&used, alias.as_str()),
                None => {
                    if contains_str(&used, b.name.as_str()) {
                        true
                    } else {
                        let dot = str_find_dot(b.name.as_str());
                        let base = b.name.as_str().substring_char(0, dot);
                        proof {
                            assert(base@ =~= base_of(b.name@));
                        }
                        if contains_str(&used, base) {
                            true
                        } else {
                            let mut base_dot = base.to_owned();
                            base_dot.append(".");
                            proof {
                                reveal_strlit(".");
                                assert(base_dot@ =~= base_of(b.name@) + seq!['.']);
                            }
                            contains_prefixed(&used, base_dot.as_str())
                        }
                    }
                },
            };
            proof {
                assert(is_used == binding_used(b@, us));
            }
            if !is_used {
                let mut m = "Unused import '".to_owned();
                m.append(b.name.as_str());
                match &b.asname {
                    Some(alias) => {
                        m.append(" as ");
                        m.append(alias.as_str());
                    },
                    None => {},
                }
                m.append("'");
                proof {
                    assert(m@ =~= msg_unused(b@));
                }
                let d = Diagnostic {
                    level: DiagnosticLevel::Warning,
                    message: m,
                    line: b.line,
                    column: 1,
                    path: String::new(),
                };
                proof {
                    crate::linter::lemma_diag_views_push(out@, d);
                }
                out.push(d);
            }
            proof {
                assert(diag_views(out@) =~= unused_prefix(bs, us, k + 1));
            }
            k = k + 1;
        }
        out
    }
}

// ---------------------------------------------------------------------------
// Prefix forms of the collection passes, to state loop invariants.
// ---------------------------------------------------------------------------
pub open spec fn used_exprs_prefix(es: Seq<Expression>, k: int) -> Seq<Seq<char>>
    decreases k,
{
    if k <= 0 || k > es.len() {
        Seq::empty()
    } else {
        used_exprs_prefix(es, k - 1) + used_expr(es[k - 1])
    }
}

proof fn lemma_used_exprs_prefix_step(es: Seq<Expression>, k: int)
    requires
        0 <= k < es.len(),
    ensures
        used_exprs_prefix(es, k + 1) == used_exprs_prefix(es, k) + used_expr(es[k]),
{
}

proof fn lemma_used_exprs_prefix_all(es: Seq<Expression>)
    ensures
        used_exprs_prefix(es, es.len() as int) == used_exprs(es),
    decreases es.len(),
{
    if es.len() > 0 {
        lemma_used_exprs_prefix_all(es.drop_first());
        lemma_used_exprs_prefix_shift(es, es.len() as int - 1);
        assert(used_exprs(es) =~= used_expr(es[0]) + used_exprs(es.drop_first()));
    } else {
        assert(used_exprs_prefix(es, 0) =~= used_exprs(es));
    }
}

proof fn lemma_used_exprs_prefix_shift(es: Seq<Expression>, k: int)
    requires
        es.len() > 0,
        0 <= k <= es.len() - 1,
    ensures
        used_exprs_prefix(es, k + 1) == used_expr(es[0]) + used_exprs_prefix(es.drop_first(), k),
    decreases k,
{
    if k == 0 {
        assert(used_exprs_prefix(es, 0) =~= Seq::<Seq<char>>::empty());
        assert(used_exprs_prefix(es.drop_first(), 0) =~= Seq::<Seq<char>>::empty());
        assert(used_exprs_prefix(es, 1) =~= used_expr(es[0]) + used_exprs_prefix(
            es.drop_first(),
            0,
        ));
    } else {
        lemma_used_exprs_prefix_shift(es, k - 1);
        assert(es.drop_first()[k - 1] == es[k]);
        assert(used_exprs_prefix(es, k + 1) =~= used_expr(es[0]) + used_exprs_prefix(
            es.drop_first(),
            k,
        ));
    }
}

pub open spec fn used_params_prefix(ps: Seq<Param>, k: int) -> Seq<Seq<char>>
    decreases k,
{
    if k <= 0 || k > ps.len() {
        Seq::empty()
    } else {
        used_params_prefix(ps, k - 1) + (match ps[k - 1].annotation {
            Some(a) => used_expr(a),
            None => Seq::empty(),
        })
    }
}

proof fn lemma_used_params_prefix_step(ps: Seq<Param>, k: int)
    requires
        0 <= k < ps.len(),
    ensures
        used_params_prefix(ps, k + 1) == used_params_prefix(ps, k) + (match ps[k].annotation {
            Some(a) => used_expr(a),
            None => Seq::<Seq<char>>::empty(),
        }),
{
}

proof fn lemma_used_params_prefix_all(ps: Seq<Param>)
    ensures
        used_params_prefix(ps, ps.len() as int) == used_params(ps),
    decreases ps.len(),
{
    if ps.len() > 0 {
        lemma_used_params_prefix_all(ps.drop_first());
        lemma_used_params_prefix_shift(ps, ps.len() as int - 1);
        assert(used_params(ps) =~= (match ps[0].annotation {
            Some(a) => used_expr(a),
            None => Seq::<Seq<char>>::empty(),
        }) + used_params(ps.drop_first()));
    } else {
        assert(used_params_prefix(ps, 0) =~= used_params(ps));
    }
}

proof fn lemma_used_params_prefix_shift(ps: Seq<Param>, k: int)
    requires
        ps.len() > 0,
        0 <= k <= ps.len() - 1,
    ensures
        used_params_prefix(ps, k + 1) == (match ps[0].annotation {
            Some(a) => used_expr(a),
            None => Seq::<Seq<char>>::empty(),
        }) + used_params_prefix(ps.drop_first(), k),
    decreases k,
{
    if k == 0 {
        assert(used_params_prefix(ps, 0) =~= Seq::<Seq<char>>::empty());
        assert(used_params_prefix(ps.drop_first(), 0) =~= Seq::<Seq<char>>::empty());
        assert(used_params_prefix(ps, 1) =~= (match ps[0].annotation {
            Some(a) => used_expr(a),
            None => Seq::<Seq<char>>::empty(),
        }) + used_params_prefix(ps.drop_first(), 0));
    } else {
        lemma_used_params_prefix_shift(ps, k - 1);
        assert(ps.drop_first()[k - 1] == ps[k]);
        assert(used_params_prefix(ps, k + 1) =~= (match ps[0].annotation {
            Some(a) => used_expr(a),
            None => Seq::<Seq<char>>::empty(),
        }) + used_params_prefix(ps.drop_first(), k));
    }
}

pub open spec fn used_stmts_prefix(ss: Seq<Statement>, k: int) -> Seq<Seq<char>>
    decreases k,
{
    if k <= 0 || k > ss.len() {
        Seq::empty()
    } else {
        used_stmts_prefix(ss, k - 1) + used_stmt(ss[k - 1])
    }
}

proof fn lemma_used_stmts_prefix_step(ss: Seq<Statement>, k: int)
    requires
        0 <= k < ss.len(),
    ensures
        used_stmts_prefix(ss, k + 1) == used_stmts_prefix(ss, k) + used_stmt(ss[k]),
{
}

proof fn lemma_used_stmts_prefix_all(ss: Seq<Statement>)
    ensures
        used_stmts_prefix(ss, ss.len() as int) == used_stmts(ss),
    decreases ss.len(),
{
    if ss.len() > 0 {
        lemma_used_stmts_prefix_all(ss.drop_first());
        lemma_used_stmts_prefix_shift(ss, ss.len() as int - 1);
        assert(used_stmts(ss) =~= used_stmt(ss[0]) + used_stmts(ss.drop_first()));
    } else {
        assert(used_stmts_prefix(ss, 0) =~= used_stmts(ss));
    }
}

proof fn lemma_used_stmts_prefix_shift(ss: Seq<Statement>, k: int)
    requires
        ss.len() > 0,
        0 <= k <= ss.len() - 1,
    ensures
        used_stmts_prefix(ss, k + 1) == used_stmt(ss[0]) + used_stmts_prefix(ss.drop_first(), k),
    decreases k,
{
    if k == 0 {
        assert(used_stmts_prefix(ss, 0) =~= Seq::<Seq<char>>::empty());
        assert(used_stmts_prefix(ss.drop_first(), 0) =~= Seq::<Seq<char>>::empty());
        assert(used_stmts_prefix(ss, 1) =~= used_stmt(ss[0]) + used_stmts_prefix(
            ss.drop_first(),
            0,
        ));
    } else {
        lemma_used_stmts_prefix_shift(ss, k - 1);
        assert(ss.drop_first()[k - 1] == ss[k]);
        assert(used_stmts_prefix(ss, k + 1) =~= used_stmt(ss[0]) + used_stmts_prefix(
            ss.drop_first(),
            k,
        ));
    }
}

} // verus!
