//! The diagnostic model and the lint orchestrator: the uniform result type
//! every rule produces, and the driver that runs every rule over one file's
//! source text and parse outcome, merges the results and stamps them with the
//! file's path.

use vstd::prelude::*;

use crate::config::Config;
use crate::rules::Rule;
use crate::syntax::{ParseOutcome, Statement};

verus! {

/// How severe a reported issue is: errors are fatal (syntax errors), warnings
/// are style or convention issues.
#[derive(Debug, Clone, Copy, PartialEq, Eq, Structural)]
pub enum DiagnosticLevel {
    Error,
    Warning,
}

/// A single reported issue: severity, human-readable message, 1-based source
/// position, and the path of the file it was found in.
///
/// Rules always create diagnostics with an empty `path`; the orchestrator
/// stamps the real path exactly once before a diagnostic leaves the library.
#[derive(Debug)]
pub struct Diagnostic {
    pub level: DiagnosticLevel,
    pub message: String,
    pub line: usize,
    pub column: usize,
    pub path: String,
}

/// The mathematical model of a [`Diagnostic`]: the same fields over `Seq` and
/// `int`.
pub struct DiagnosticView {
    pub level: DiagnosticLevel,
    pub message: Seq<char>,
    pub line: int,
    pub column: int,
    pub path: Seq<char>,
}

impl View for Diagnostic {
    type V = DiagnosticView;

    open spec fn view(&self) -> DiagnosticView {
        DiagnosticView {
            level: self.level,
            message: self.message@,
            line: self.line as int,
            column: self.column as int,
            path: self.path@,
        }
    }
}

/// The views of a sequence of diagnostics, in order.
pub open spec fn diag_views(ds: Seq<Diagnostic>) -> Seq<DiagnosticView> {
    ds.map_values(|d: Diagnostic| d@)
}

/// A warning at `line`:`column` with no path yet, as every rule creates them.
pub open spec fn warn_at(message: Seq<char>, line: int, column: int) -> DiagnosticView {
    DiagnosticView {
        level: DiagnosticLevel::Warning,
        message: message,
        line: line,
        column: column,
        path: Seq::empty(),
    }
}

pub proof fn lemma_diag_views_push(ds: Seq<Diagnostic>, d: Diagnostic)
    ensures
        diag_views(ds.push(d)) == diag_views(ds).push(d@),
{
    assert(diag_views(ds.push(d)) =~= diag_views(ds).push(d@));
}

pub proof fn lemma_diag_views_concat(a: Seq<Diagnostic>, b: Seq<Diagnostic>)
    ensures
        diag_views(a + b) == diag_views(a) + diag_views(b),
{
    assert(diag_views(a + b) =~= diag_views(a) + diag_views(b));
}

// ---------------------------------------------------------------------------
// The orchestrator.
// ---------------------------------------------------------------------------
/// The message of the one diagnostic a parse failure produces.
pub open spec fn msg_syntax_error(parser_msg: Seq<char>) -> Seq<char> {
    "Syntax error: "@ + parser_msg
}

/// The diagnostic a parse failure produces: an error, at line 1 column 1 (the
/// parser's own position is not propagated).
pub open spec fn syntax_error_diag(parser_msg: Seq<char>) -> DiagnosticView {
    DiagnosticView {
        level: DiagnosticLevel::Error,
        message: msg_syntax_error(parser_msg),
        line: 1,
        column: 1,
        path: Seq::empty(),
    }
}

/// Every diagnostic with its `path` field set to `path`: what the
/// orchestrator does, exactly once, before diagnostics leave the library.
pub open spec fn stamp(ds: Seq<DiagnosticView>, path: Seq<char>) -> Seq<DiagnosticView> {
    ds.map_values(
        |d: DiagnosticView|
            DiagnosticView {
                level: d.level,
                message: d.message,
                line: d.line,
                column: d.column,
                path: path,
            },
    )
}

/// The diagnostics of the text rules among the first `k` rules, in
/// registration order.
pub open spec fn text_rules_prefix(rules: Seq<Rule>, text: Seq<char>, k: int) -> Seq<
    DiagnosticView,
>
    decreases k,
{
    if k <= 0 || k > rules.len() {
        Seq::empty()
    } else {
        text_rules_prefix(rules, text, k - 1) + rules[k - 1].text_diags_spec(text)
    }
}

/// The diagnostics of the tree rules among the first `k` rules, in
/// registration order.
pub open spec fn tree_rules_prefix(
    rules: Seq<Rule>,
    tree: Seq<Statement>,
    text: Seq<char>,
    k: int,
) -> Seq<DiagnosticView>
    decreases k,
{
    if k <= 0 || k > rules.len() {
        Seq::empty()
    } else {
        tree_rules_prefix(rules, tree, text, k - 1) + (if rules[k - 1].is_text_rule() {
            Seq::empty()
        } else {
            rules[k - 1].diags_spec(tree, text)
        })
    }
}

/// The whole unstamped output for one file: text-rule diagnostics first (they
/// run whether or not the text parses), then, when parsing succeeded, each
/// tree rule's diagnostics in registration order, or else the one synthetic
/// syntax-error diagnostic.
pub open spec fn lint_core(outcome: ParseOutcome, text: Seq<char>, rules: Seq<Rule>) -> Seq<
    DiagnosticView,
> {
    text_rules_prefix(rules, text, rules.len() as int) + (match outcome {
        ParseOutcome::Parsed(p) => tree_rules_prefix(rules, p.body@, text, rules.len() as int),
        ParseOutcome::Failed(m) => seq![syntax_error_diag(m@)],
    })
}

/// The orchestrator's whole output for one file: [`lint_core`], stamped with
/// the file's path.
pub open spec fn lint_views(
    outcome: ParseOutcome,
    text: Seq<char>,
    rules: Seq<Rule>,
    path: Seq<char>,
) -> Seq<DiagnosticView> {
    stamp(lint_core(outcome, text, rules), path)
}

/// A copy of each diagnostic with its path set to `path`.
fn stamp_paths(ds: &Vec<Diagnostic>, path: &str) -> (r: Vec<Diagnostic>)
    ensures
        diag_views(r@) == stamp(diag_views(ds@), path@),
{
    let n = ds.len();
    let mut r: Vec<Diagnostic> = Vec::new();
    let mut i: usize = 0;
    proof {
        assert(diag_views(r@) =~= stamp(diag_views(ds@), path@).take(0));
    }
    while i < n
        invariant
            n == ds@.len(),
            i <= n,
            diag_views(r@) == stamp(diag_views(ds@), path@).take(i as int),
        decreases n - i,
    {
        let d = &ds[i];
        let s = Diagnostic {
            level: d.level,
            message: d.message.clone(),
            line: d.line,
            column: d.column,
            path: path.to_owned(),
        };
        proof {
            assert(s@ == stamp(diag_views(ds@), path@)[i as int]);
            assert(diag_views(r@.push(s)) =~= diag_views(r@).push(s@));
            assert(diag_views(r@).push(s@) =~= stamp(diag_views(ds@), path@).take(i + 1));
        }
        r.push(s);
        i = i + 1;
    }
    proof {
        assert(stamp(diag_views(ds@), path@).take(n as int) =~= stamp(diag_views(ds@), path@));
    }
    r
}

/// Run every rule over one file's parse outcome and raw text, merge the
/// diagnostics in the order of [`lint_core`], and stamp them with `path`.
pub fn lint_outcome(outcome: &ParseOutcome, source: &str, rules: &Vec<Rule>, path: &str) -> (r:
    Vec<Diagnostic>)
    ensures
        diag_views(r@) == lint_views(*outcome, source@, rules@, path@),
{
    let mut out: Vec<Diagnostic> = Vec::new();
    let n = rules.len();

    // Style checks run on the raw text whether or not it parses.
    let mut k: usize = 0;
    proof {
        assert(diag_views(out@) =~= text_rules_prefix(rules@, source@, 0));
    }
    while k < n
        invariant
            n == rules@.len(),
            k <= n,
            diag_views(out@) == text_rules_prefix(rules@, source@, k as int),
        decreases n - k,
    {
        match &rules[k] {
            Rule::LineLength(ll) => {
                let mut d = ll.check_text(source);
                proof {
                    lemma_diag_views_concat(out@, d@);
                }
                out.append(&mut d);
            },
            _ => {},
        }
        proof {
            assert(diag_views(out@) =~= text_rules_prefix(rules@, source@, k + 1));
        }
        k = k + 1;
    }
    let ghost text_part = diag_views(out@);

    // Tree rules run only on a parsed tree; a parse failure is downgraded to
    // exactly one synthetic error diagnostic.
    match outcome {
        ParseOutcome::Parsed(p) => {
            let mut k: usize = 0;
            proof {
                assert(diag_views(out@) =~= text_part + tree_rules_prefix(
                    rules@,
                    p.body@,
                    source@,
                    0,
                ));
            }
            while k < n
                invariant
                    n == rules@.len(),
                    k <= n,
                    diag_views(out@) == text_part + tree_rules_prefix(
                        rules@,
                        p.body@,
                        source@,
                        k as int,
                    ),
                decreases n - k,
            {
                let is_text = match &rules[k] {
                    Rule::LineLength(_) => true,
                    _ => false,
                };
                if !is_text {
                    let mut d = rules[k].check(p, source);
                    proof {
                        lemma_diag_views_concat(out@, d@);
                    }
                    out.append(&mut d);
                }
                proof {
                    assert(diag_views(out@) =~= text_part + tree_rules_prefix(
                        rules@,
                        p.body@,
                        source@,
                        k + 1,
                    ));
                }
                k = k + 1;
            }
        },
        ParseOutcome::Failed(m) => {
            let mut msg = "Syntax error: ".to_owned();
            msg.append(m.as_str());
            let d = Diagnostic {
                level: DiagnosticLevel::Error,
                message: msg,
                line: 1,
                column: 1,
                path: String::new(),
            };
            proof {
                lemma_diag_views_push(out@, d);
                assert(text_part.push(d@) =~= text_part + seq![syntax_error_diag(m@)]);
            }
            out.push(d);
        },
    }
    proof {
        assert(diag_views(out@) =~= lint_core(*outcome, source@, rules@));
    }
    stamp_paths(&out, path)
}

/// Parse `source` and lint it with `rules`: the sole computation behind a
/// per-file lint job. The caller reads the file and passes its text and path.
pub fn lint_source(source: &str, path: &str, rules: &Vec<Rule>) -> (r: Vec<Diagnostic>)
    requires
        source@.len() < crate::parse::MAX_SOURCE_LEN,
    ensures
        diag_views(r@) == lint_views(
            crate::parse::parse_of(source@),
            source@,
            rules@,
            path@,
        ),
        crate::parse::parse_of(source@) matches crate::syntax::ParseOutcome::Parsed(p)
            ==> crate::syntax::wf_program(p),
{
    let outcome = crate::parse::parse_source(source);
    lint_outcome(&outcome, source, rules, path)
}

/// The linter: the orchestrator configured once and run over many files.
pub struct Linter {
    config: Config,
}

impl Linter {
    /// The configured maximum line length.
    pub closed spec fn max_len_spec(&self) -> usize {
        self.config.rules.max_line_length
    }

    pub fn new(config: Config) -> (r: Linter)
        ensures
            r.max_len_spec() == config.rules.max_line_length,
    {
        Linter { config }
    }

    /// Lint one file's text with the default rule set at this linter's
    /// configured maximum line length.
    pub fn lint_source(&self, source: &str, path: &str) -> (r: Vec<Diagnostic>)
        requires
            source@.len() < crate::parse::MAX_SOURCE_LEN,
        ensures
            diag_views(r@) == lint_views(
                crate::parse::parse_of(source@),
                source@,
                default_rules(self.max_len_spec()),
                path@,
            ),
            crate::parse::parse_of(source@) matches crate::syntax::ParseOutcome::Parsed(p)
                ==> crate::syntax::wf_program(p),
    {
        let mut rules: Vec<Rule> = Vec::new();
        rules.push(Rule::UnusedImports(crate::rules::UnusedImports));
        rules.push(
            Rule::LineLength(crate::rules::LineLength::new(self.config.rules.max_line_length)),
        );
        rules.push(Rule::NamingConventions(crate::rules::NamingConventions));
        proof {
            assert(rules@ =~= default_rules(self.max_len_spec()));
        }
        lint_source(source, path, &rules)
    }
}

/// The default rule set at maximum line length `max`: unused imports, line
/// style, naming conventions, in registration order.
pub open spec fn default_rules(max: usize) -> Seq<Rule> {
    seq![
        Rule::UnusedImports(crate::rules::UnusedImports {  }),
        Rule::LineLength(crate::rules::line_length::line_length_with_max(max)),
        Rule::NamingConventions(crate::rules::NamingConventions {  }),
    ]
}

} // verus!
