//! Properties of the rule engine that hold for every input, stated over the
//! same specification functions the executable functions are proved against:
//! style checking is independent of whether the text parses, rules are
//! functions of their inputs, every reported position is 1-based, a parse
//! failure yields exactly one error-level diagnostic, and linting many files
//! yields exactly the union of linting each alone.

use vstd::prelude::*;

use vstd::multiset::Multiset;
use vstd::seq_lib::lemma_multiset_commutative;

use crate::linter::{
    lint_core, lint_views, msg_syntax_error, stamp, syntax_error_diag, text_rules_prefix,
    tree_rules_prefix, DiagnosticView,
};
use crate::parse::parse_of;
use crate::rules::line_length::{
    indent_diags, length_diags, line_diags, style_from, tab_diags, trailing_diags,
};
use crate::rules::naming_conventions::{naming_expr, naming_exprs, naming_stmt, naming_stmts};
use crate::rules::unused_imports::{bindings_of, bindings_prefix, stmt_bindings, unused_prefix};
use crate::rules::Rule;
use crate::strutil::{lemma_first_ch, lemma_trim_end};
use crate::syntax::{wf_program, wf_stmt, wf_stmts, Expression, ParseOutcome, Statement};

verus! {

// ---------------------------------------------------------------------------
// Helper facts.
// ---------------------------------------------------------------------------
pub proof fn lemma_stamp_concat(a: Seq<DiagnosticView>, b: Seq<DiagnosticView>, path: Seq<char>)
    ensures
        stamp(a + b, path) == stamp(a, path) + stamp(b, path),
{
    assert(stamp(a + b, path) =~= stamp(a, path) + stamp(b, path));
}

// ---------------------------------------------------------------------------
// Style checking does not depend on the parse outcome.
// ---------------------------------------------------------------------------
/// For one text and rule list, the style prefix of the output is the same
/// whatever parsing yielded: the first diagnostics are always exactly the
/// stamped text-rule diagnostics, so they are identical whether or not the
/// tree rules also ran.
pub proof fn lemma_style_independent_of_parse(
    o1: ParseOutcome,
    o2: ParseOutcome,
    text: Seq<char>,
    rules: Seq<Rule>,
    path: Seq<char>,
)
    ensures
        lint_views(o1, text, rules, path).take(
            text_rules_prefix(rules, text, rules.len() as int).len() as int,
        ) == lint_views(o2, text, rules, path).take(
            text_rules_prefix(rules, text, rules.len() as int).len() as int,
        ),
{
    lemma_lint_style_prefix(o1, text, rules, path);
    lemma_lint_style_prefix(o2, text, rules, path);
}

/// The first diagnostics of any lint run are the stamped text-rule
/// diagnostics.
pub proof fn lemma_lint_style_prefix(
    outcome: ParseOutcome,
    text: Seq<char>,
    rules: Seq<Rule>,
    path: Seq<char>,
)
    ensures
        lint_views(outcome, text, rules, path).take(
            text_rules_prefix(rules, text, rules.len() as int).len() as int,
        ) == stamp(text_rules_prefix(rules, text, rules.len() as int), path),
{
    let tp = text_rules_prefix(rules, text, rules.len() as int);
    let rest = match outcome {
        ParseOutcome::Parsed(p) => tree_rules_prefix(rules, p.body@, text, rules.len() as int),
        ParseOutcome::Failed(m) => seq![syntax_error_diag(m@)],
    };
    lemma_stamp_concat(tp, rest, path);
    assert(lint_views(outcome, text, rules, path).take(stamp(tp, path).len() as int) =~= stamp(
        tp,
        path,
    ));
}

// ---------------------------------------------------------------------------
// Rules are functions of their inputs: running one twice on the same
// (tree, text) pair yields identical diagnostic sequences.
// ---------------------------------------------------------------------------
/// Every rule's contract pins its output to `Rule::diags_spec` of the tree
/// and text alone, so two results of the same rule on the same pair are one
/// sequence.
pub proof fn lemma_rule_idempotent(
    r1: Seq<DiagnosticView>,
    r2: Seq<DiagnosticView>,
    rule: Rule,
    tree: Seq<Statement>,
    text: Seq<char>,
)
    requires
        r1 == rule.diags_spec(tree, text),
        r2 == rule.diags_spec(tree, text),
    ensures
        r1 == r2,
{
}

/// The same, for a whole lint run of one file.
pub proof fn lemma_lint_idempotent(
    r1: Seq<DiagnosticView>,
    r2: Seq<DiagnosticView>,
    outcome: ParseOutcome,
    text: Seq<char>,
    rules: Seq<Rule>,
    path: Seq<char>,
)
    requires
        r1 == lint_views(outcome, text, rules, path),
        r2 == lint_views(outcome, text, rules, path),
    ensures
        r1 == r2,
{
}

// ---------------------------------------------------------------------------
// Every reported position is 1-based.
// ---------------------------------------------------------------------------
/// Whether every diagnostic of `ds` sits at a 1-based position.
pub open spec fn all_positive(ds: Seq<DiagnosticView>) -> bool {
    forall|i: int| 0 <= i < ds.len() ==> (#[trigger] ds[i]).line >= 1 && ds[i].column >= 1
}

proof fn lemma_line_diags_positive(line: Seq<char>, ln: int, max: int)
    requires
        ln >= 1,
        max >= 0,
    ensures
        all_positive(line_diags(line, ln, max)),
{
    lemma_first_ch(line, '\t');
    lemma_trim_end(line);
    assert forall|i: int| 0 <= i < line_diags(line, ln, max).len() implies (#[trigger] line_diags(
        line,
        ln,
        max,
    )[i]).line >= 1 && line_diags(line, ln, max)[i].column >= 1 by {
        let d = line_diags(line, ln, max)[i];
        assert(length_diags(line, ln, max).len() <= 1);
        assert(indent_diags(line, ln).len() <= 1);
        assert(tab_diags(line, ln).len() <= 1);
        assert(trailing_diags(line, ln).len() <= 1);
    }
}

proof fn lemma_style_from_positive(lines: Seq<Seq<char>>, k: int, max: int)
    requires
        max >= 0,
        k >= 0,
    ensures
        all_positive(style_from(lines, k, max)),
    decreases lines.len() - k,
{
    if 0 <= k < lines.len() {
        lemma_line_diags_positive(lines[k], k + 1, max);
        lemma_style_from_positive(lines, k + 1, max);
        assert forall|i: int| 0 <= i < style_from(lines, k, max).len() implies (
        #[trigger] style_from(lines, k, max)[i]).line >= 1 && style_from(lines, k, max)[i].column
            >= 1 by {
            let a = line_diags(lines[k], k + 1, max);
            let b = style_from(lines, k + 1, max);
            if i < a.len() {
                assert(style_from(lines, k, max)[i] == a[i]);
            } else {
                assert(style_from(lines, k, max)[i] == b[i - a.len()]);
            }
        }
    }
}

/// Expressions alone never produce naming diagnostics; the walk through them
/// only reaches nested blocks.
pub proof fn lemma_naming_expr_empty(e: Expression)
    ensures
        naming_expr(e) == Seq::<DiagnosticView>::empty(),
    decreases e,
{
    match e {
        Expression::Lambda { body } => {
            lemma_naming_expr_empty(*body);
        },
        Expression::Call { func, args, keywords } => {
            lemma_naming_expr_empty(*func);
            lemma_naming_exprs_empty(args@);
            lemma_naming_exprs_empty(keywords@);
            assert(naming_expr(e) =~= Seq::<DiagnosticView>::empty());
        },
        Expression::IfExp { test, body, orelse } => {
            lemma_naming_expr_empty(*test);
            lemma_naming_expr_empty(*body);
            lemma_naming_expr_empty(*orelse);
            assert(naming_expr(e) =~= Seq::<DiagnosticView>::empty());
        },
        Expression::BoolOp { values } => {
            lemma_naming_exprs_empty(values@);
        },
        Expression::BinOp { left, right } => {
            lemma_naming_expr_empty(*left);
            lemma_naming_expr_empty(*right);
            assert(naming_expr(e) =~= Seq::<DiagnosticView>::empty());
        },
        _ => {},
    }
}

proof fn lemma_naming_exprs_empty(es: Seq<Expression>)
    ensures
        naming_exprs(es) == Seq::<DiagnosticView>::empty(),
    decreases es,
{
    if es.len() > 0 {
        lemma_naming_expr_empty(es[0]);
        lemma_naming_exprs_empty(es.drop_first());
        assert(naming_exprs(es) =~= Seq::<DiagnosticView>::empty());
    }
}

/// Every naming diagnostic of a well-formed tree sits at a 1-based position,
/// and is a warning.
proof fn lemma_naming_stmt_shape(s: Statement)
    requires
        wf_stmt(s),
    ensures
        all_positive(naming_stmt(s)),
        all_warnings(naming_stmt(s)),
    decreases s,
{
    match s {
        Statement::FunctionDef { body, .. } => {
            lemma_naming_stmts_shape(body@);
        },
        Statement::ClassDef { body, .. } => {
            lemma_naming_stmts_shape(body@);
        },
        Statement::Assign { targets, value, line, .. } => {
            lemma_targets_shape(targets@, line as int);
            lemma_naming_expr_empty(value);
        },
        Statement::If { test, body, orelse, .. } => {
            lemma_naming_expr_empty(test);
            lemma_naming_stmts_shape(body@);
            lemma_naming_stmts_shape(orelse@);
        },
        Statement::While { test, body, orelse, .. } => {
            lemma_naming_expr_empty(test);
            lemma_naming_stmts_shape(body@);
            lemma_naming_stmts_shape(orelse@);
        },
        Statement::For { target, iter, body, orelse, .. } => {
            lemma_naming_expr_empty(target);
            lemma_naming_expr_empty(iter);
            lemma_naming_stmts_shape(body@);
            lemma_naming_stmts_shape(orelse@);
        },
        Statement::Expression { value, .. } => {
            lemma_naming_expr_empty(value);
        },
        _ => {},
    }
}

proof fn lemma_targets_shape(ts: Seq<Expression>, line: int)
    requires
        line >= 1,
    ensures
        all_positive(crate::rules::naming_conventions::targets_diags(ts, line)),
        all_warnings(crate::rules::naming_conventions::targets_diags(ts, line)),
    decreases ts.len(),
{
    if ts.len() > 0 {
        lemma_targets_shape(ts.drop_first(), line);
    }
}

proof fn lemma_naming_stmts_shape(ss: Seq<Statement>)
    requires
        wf_stmts(ss),
    ensures
        all_positive(naming_stmts(ss)),
        all_warnings(naming_stmts(ss)),
    decreases ss,
{
    if ss.len() > 0 {
        lemma_naming_stmt_shape(ss[0]);
        lemma_naming_stmts_shape(ss.drop_first());
    }
}

/// Every binding collected from a well-formed tree carries a 1-based line.
proof fn lemma_bindings_positive(ss: Seq<Statement>, k: int)
    requires
        wf_stmts(ss),
        0 <= k <= ss.len(),
    ensures
        forall|i: int|
            0 <= i < bindings_prefix(ss, k).len() ==> (#[trigger] bindings_prefix(ss, k)[i]).line
                >= 1,
    decreases k,
{
    if k > 0 {
        lemma_bindings_positive(ss, k - 1);
        lemma_wf_stmts_index(ss, k - 1);
        let s = ss[k - 1];
        assert forall|i: int|
            0 <= i < stmt_bindings(s).len() implies (#[trigger] stmt_bindings(s)[i]).line
            >= 1 by {}
    }
}

proof fn lemma_wf_stmts_index(ss: Seq<Statement>, k: int)
    requires
        wf_stmts(ss),
        0 <= k < ss.len(),
    ensures
        wf_stmt(ss[k]),
    decreases k,
{
    if k > 0 {
        lemma_wf_stmts_index(ss.drop_first(), k - 1);
        assert(ss.drop_first()[k - 1] == ss[k]);
    }
}

proof fn lemma_unused_shape(bs: Seq<crate::rules::unused_imports::BindingView>, used: Seq<
    Seq<char>,
>, k: int)
    requires
        forall|i: int| 0 <= i < bs.len() ==> (#[trigger] bs[i]).line >= 1,
        0 <= k <= bs.len(),
    ensures
        all_positive(unused_prefix(bs, used, k)),
        all_warnings(unused_prefix(bs, used, k)),
    decreases k,
{
    if k > 0 {
        lemma_unused_shape(bs, used, k - 1);
    }
}

/// Whether every diagnostic of `ds` is a warning.
pub open spec fn all_warnings(ds: Seq<DiagnosticView>) -> bool {
    forall|i: int| 0 <= i < ds.len() ==> (#[trigger] ds[i]).level is Warning
}

proof fn lemma_style_warnings(lines: Seq<Seq<char>>, k: int, max: int)
    ensures
        all_warnings(style_from(lines, k, max)),
    decreases lines.len() - k,
{
    if 0 <= k < lines.len() {
        lemma_style_warnings(lines, k + 1, max);
        assert forall|i: int| 0 <= i < style_from(lines, k, max).len() implies (
        #[trigger] style_from(lines, k, max)[i]).level is Warning by {
            let a = line_diags(lines[k], k + 1, max);
            let b = style_from(lines, k + 1, max);
            assert(length_diags(lines[k], k + 1, max).len() <= 1);
            assert(indent_diags(lines[k], k + 1).len() <= 1);
            assert(tab_diags(lines[k], k + 1).len() <= 1);
            assert(trailing_diags(lines[k], k + 1).len() <= 1);
            if i < a.len() {
                assert(style_from(lines, k, max)[i] == a[i]);
            } else {
                assert(style_from(lines, k, max)[i] == b[i - a.len()]);
            }
        }
    }
}

proof fn lemma_shape_concat(a: Seq<DiagnosticView>, b: Seq<DiagnosticView>)
    requires
        all_positive(a),
        all_warnings(a),
        all_positive(b),
        all_warnings(b),
    ensures
        all_positive(a + b),
        all_warnings(a + b),
{
    assert forall|i: int|
        0 <= i < (a + b).len() implies (#[trigger] (a + b)[i]).line >= 1 && (a + b)[i].column >= 1
        && (a + b)[i].level is Warning by {
        if i < a.len() {
            assert((a + b)[i] == a[i]);
        } else {
            assert((a + b)[i] == b[i - a.len()]);
        }
    }
}

/// What a rule reports from the raw text alone is a warning at a 1-based
/// position, for any text.
proof fn lemma_rule_text_shape(rule: Rule, text: Seq<char>)
    ensures
        all_positive(rule.text_diags_spec(text)),
        all_warnings(rule.text_diags_spec(text)),
{
    match rule {
        Rule::LineLength(ll) => {
            crate::rules::line_length::lemma_max_spec_nonneg(ll);
            lemma_style_from_positive(
                crate::rules::line_length::spec_lines(text),
                0,
                ll.max_spec(),
            );
            lemma_style_warnings(crate::rules::line_length::spec_lines(text), 0, ll.max_spec());
        },
        _ => {},
    }
}

/// What a rule reports from a well-formed tree is a warning at a 1-based
/// position.
proof fn lemma_rule_tree_shape(rule: Rule, tree: Seq<Statement>, text: Seq<char>)
    requires
        wf_stmts(tree),
    ensures
        all_positive(rule.tree_diags_spec(tree)),
        all_warnings(rule.tree_diags_spec(tree)),
{
    match rule {
        Rule::UnusedImports(_) => {
            lemma_bindings_positive(tree, tree.len() as int);
            lemma_unused_shape(
                bindings_of(tree),
                crate::rules::unused_imports::used_stmts(tree),
                bindings_of(tree).len() as int,
            );
        },
        Rule::NamingConventions(_) => {
            lemma_naming_stmts_shape(tree);
        },
        Rule::LineLength(_) => {},
    }
}

proof fn lemma_text_prefix_shape(rules: Seq<Rule>, text: Seq<char>, k: int)
    ensures
        all_positive(text_rules_prefix(rules, text, k)),
        all_warnings(text_rules_prefix(rules, text, k)),
    decreases k,
{
    if 0 < k <= rules.len() {
        lemma_text_prefix_shape(rules, text, k - 1);
        lemma_rule_text_shape(rules[k - 1], text);
        lemma_shape_concat(
            text_rules_prefix(rules, text, k - 1),
            rules[k - 1].text_diags_spec(text),
        );
    }
}

proof fn lemma_tree_prefix_shape(rules: Seq<Rule>, tree: Seq<Statement>, text: Seq<char>, k: int)
    requires
        wf_stmts(tree),
    ensures
        all_positive(tree_rules_prefix(rules, tree, text, k)),
        all_warnings(tree_rules_prefix(rules, tree, text, k)),
    decreases k,
{
    if 0 < k <= rules.len() {
        lemma_tree_prefix_shape(rules, tree, text, k - 1);
        let step: Seq<DiagnosticView> = if rules[k - 1].is_text_rule() {
            Seq::empty()
        } else {
            rules[k - 1].diags_spec(tree, text)
        };
        lemma_rule_text_shape(rules[k - 1], text);
        lemma_rule_tree_shape(rules[k - 1], tree, text);
        if !rules[k - 1].is_text_rule() {
            lemma_shape_concat(
                rules[k - 1].text_diags_spec(text),
                rules[k - 1].tree_diags_spec(tree),
            );
        }
        lemma_shape_concat(tree_rules_prefix(rules, tree, text, k - 1), step);
    }
}

/// The shape of the whole unstamped output: 1-based positions throughout, and
/// every diagnostic a warning except the one syntax error of a failed parse.
proof fn lemma_core_shape(outcome: ParseOutcome, text: Seq<char>, rules: Seq<Rule>)
    requires
        outcome matches ParseOutcome::Parsed(p) ==> wf_program(p),
    ensures
        all_positive(lint_core(outcome, text, rules)),
        outcome is Parsed ==> all_warnings(lint_core(outcome, text, rules)),
{
    lemma_text_prefix_shape(rules, text, rules.len() as int);
    let tp = text_rules_prefix(rules, text, rules.len() as int);
    match outcome {
        ParseOutcome::Parsed(p) => {
            lemma_tree_prefix_shape(rules, p.body@, text, rules.len() as int);
            lemma_shape_concat(tp, tree_rules_prefix(rules, p.body@, text, rules.len() as int));
        },
        ParseOutcome::Failed(m) => {
            let rest = seq![syntax_error_diag(m@)];
            assert forall|i: int|
                0 <= i < lint_core(outcome, text, rules).len() implies (#[trigger] lint_core(
                outcome,
                text,
                rules,
            )[i]).line >= 1 && lint_core(outcome, text, rules)[i].column >= 1 by {
                if i < tp.len() {
                    assert(lint_core(outcome, text, rules)[i] == tp[i]);
                } else {
                    assert(lint_core(outcome, text, rules)[i] == rest[i - tp.len()]);
                }
            }
        },
    }
}

/// For every file whose tree (if any) came from the parser, and for any rule
/// list, every returned diagnostic sits at a 1-based line and column.
pub proof fn lemma_positions_positive(
    outcome: ParseOutcome,
    text: Seq<char>,
    rules: Seq<Rule>,
    path: Seq<char>,
)
    requires
        outcome matches ParseOutcome::Parsed(p) ==> wf_program(p),
    ensures
        all_positive(lint_views(outcome, text, rules, path)),
{
    lemma_core_shape(outcome, text, rules);
    let core = lint_core(outcome, text, rules);
    assert forall|i: int|
        0 <= i < lint_views(outcome, text, rules, path).len() implies (#[trigger] lint_views(
        outcome,
        text,
        rules,
        path,
    )[i]).line >= 1 && lint_views(outcome, text, rules, path)[i].column >= 1 by {
        assert(lint_views(outcome, text, rules, path)[i].line == core[i].line);
        assert(lint_views(outcome, text, rules, path)[i].column == core[i].column);
    }
}

// ---------------------------------------------------------------------------
// A parse failure yields exactly one error-level diagnostic, after the style
// diagnostics, and no tree-rule diagnostics.
// ---------------------------------------------------------------------------
/// The whole output for a file that failed to parse, for any rule list: the
/// stamped text-rule diagnostics — all warnings — followed by exactly one
/// error whose message embeds the parser's text; nothing else.
pub proof fn lemma_syntax_error_output(
    m: String,
    text: Seq<char>,
    rules: Seq<Rule>,
    path: Seq<char>,
)
    ensures
        ({
            let tp = text_rules_prefix(rules, text, rules.len() as int);
            let out = lint_views(ParseOutcome::Failed(m), text, rules, path);
            &&& out.len() == tp.len() + 1
            &&& out.take(out.len() - 1) == stamp(tp, path)
            &&& out.last().level is Error
            &&& out.last().message == msg_syntax_error(m@)
            &&& all_warnings(out.take(out.len() - 1))
        }),
{
    let outcome = ParseOutcome::Failed(m);
    let tp = text_rules_prefix(rules, text, rules.len() as int);
    let out = lint_views(outcome, text, rules, path);
    lemma_stamp_concat(tp, seq![syntax_error_diag(m@)], path);
    assert(out.take(out.len() - 1) =~= stamp(tp, path));
    assert(out.last() == stamp(seq![syntax_error_diag(m@)], path)[0]);
    lemma_text_prefix_shape(rules, text, rules.len() as int);
    assert forall|i: int|
        0 <= i < stamp(tp, path).len() implies (#[trigger] stamp(tp, path)[i]).level
        is Warning by {
        assert(stamp(tp, path)[i].level == tp[i].level);
    }
}

/// The whole output of a file that parsed holds no error-level diagnostic at
/// all, for any rule list: syntax errors are the only errors.
pub proof fn lemma_parsed_all_warnings(
    p: crate::syntax::Program,
    text: Seq<char>,
    rules: Seq<Rule>,
    path: Seq<char>,
)
    requires
        wf_program(p),
    ensures
        all_warnings(lint_views(ParseOutcome::Parsed(p), text, rules, path)),
{
    let outcome = ParseOutcome::Parsed(p);
    lemma_core_shape(outcome, text, rules);
    let core = lint_core(outcome, text, rules);
    assert forall|i: int|
        0 <= i < lint_views(outcome, text, rules, path).len() implies (#[trigger] lint_views(
        outcome,
        text,
        rules,
        path,
    )[i]).level is Warning by {
        assert(lint_views(outcome, text, rules, path)[i].level == core[i].level);
    }
}

// ---------------------------------------------------------------------------
// Linting many files yields exactly the union of linting each alone.
// ---------------------------------------------------------------------------
/// One lint job: a file's text and its path.
pub struct LintJob {
    pub source: Seq<char>,
    pub path: Seq<char>,
}

/// What one job reports: the file is parsed and linted on its own, reading
/// nothing but its own text and path.
pub open spec fn job_views(job: LintJob, rules: Seq<Rule>) -> Seq<DiagnosticView> {
    lint_views(parse_of(job.source), job.source, rules, job.path)
}

/// The concatenated output of a sequence of jobs processed one after another.
pub open spec fn jobs_views(jobs: Seq<LintJob>, rules: Seq<Rule>) -> Seq<DiagnosticView>
    decreases jobs.len(),
{
    if jobs.len() == 0 {
        Seq::empty()
    } else {
        job_views(jobs[0], rules) + jobs_views(jobs.drop_first(), rules)
    }
}

/// The union, as a multiset, of each job's own output.
pub open spec fn jobs_multiset(jobs: Seq<LintJob>, rules: Seq<Rule>) -> Multiset<DiagnosticView>
    decreases jobs.len(),
{
    if jobs.len() == 0 {
        Multiset::empty()
    } else {
        job_views(jobs[0], rules).to_multiset().add(jobs_multiset(jobs.drop_first(), rules))
    }
}

/// Processing any number of independent files, in any interleaving that
/// concatenates per-file outputs, yields a diagnostic multiset equal to the
/// union of the diagnostics of processing each file alone: each job's output
/// is a function of its own text and path only, and concatenation only
/// reorders whole outputs.
pub proof fn lemma_process_multiset(jobs: Seq<LintJob>, rules: Seq<Rule>)
    ensures
        jobs_views(jobs, rules).to_multiset() == jobs_multiset(jobs, rules),
    decreases jobs.len(),
{
    if jobs.len() == 0 {
        broadcast use vstd::seq_lib::group_to_multiset_ensures;

        let s = jobs_views(jobs, rules);
        assert(s =~= Seq::<DiagnosticView>::empty());
        assert forall|a: DiagnosticView| s.to_multiset().count(a) == 0 by {
            assert(!s.contains(a));
        }
        assert(s.to_multiset() =~= Multiset::<DiagnosticView>::empty());
    } else {
        lemma_process_multiset(jobs.drop_first(), rules);
        lemma_multiset_commutative(job_views(jobs[0], rules), jobs_views(jobs.drop_first(), rules));
    }
}

} // verus!
