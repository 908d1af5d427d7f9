//! The naming convention checker: walks every statement reachable from the
//! top level — function and class bodies, branches, loop bodies, expression
//! statements — and reports function names that are not snake_case, class
//! names that are not PascalCase, and assigned variable names that are
//! neither snake_case nor all-caps constants.

use vstd::prelude::*;

use crate::linter::{diag_views, warn_at, Diagnostic, DiagnosticLevel, DiagnosticView};
use crate::strutil::{
    is_alphanumeric_char, is_lowercase_char, is_numeric_char, is_uppercase_char,
};
use crate::syntax::{Expression, Program, Statement};

verus! {

/// The naming convention checker. It holds no state: the same value may check
/// any number of files.
pub struct NamingConventions;

// ---------------------------------------------------------------------------
// Identifier classification, by Unicode character classes (what
// `char::is_lowercase` and its siblings decide).
// ---------------------------------------------------------------------------
/// Non-empty, not starting with a numeric character, every character
/// lowercase, numeric or underscore.
pub open spec fn sc_snake_case(s: Seq<char>) -> bool {
    &&& s.len() > 0
    &&& !is_numeric_char(s[0])
    &&& forall|i: int|
        0 <= i < s.len() ==> is_lowercase_char(#[trigger] s[i]) || is_numeric_char(s[i]) || s[i] == '_'
}

/// Non-empty, first character uppercase, every later character alphanumeric
/// (underscores excluded).
pub open spec fn sc_pascal_case(s: Seq<char>) -> bool {
    &&& s.len() > 0
    &&& is_uppercase_char(s[0])
    &&& forall|i: int| 1 <= i < s.len() ==> is_alphanumeric_char(#[trigger] s[i])
}

/// Non-empty, every character uppercase, numeric or underscore.
pub open spec fn sc_constant(s: Seq<char>) -> bool {
    &&& s.len() > 0
    &&& forall|i: int|
        0 <= i < s.len() ==> is_uppercase_char(#[trigger] s[i]) || is_numeric_char(s[i]) || s[i] == '_'
}

/// A variable name is valid when it does not mix upper- and lower-case
/// letters and is either snake_case or a proper constant.
pub open spec fn sc_valid_variable(s: Seq<char>) -> bool {
    &&& !((exists|i: int| 0 <= i < s.len() && is_uppercase_char(#[trigger] s[i])) && (exists|i: int|
        0 <= i < s.len() && is_lowercase_char(#[trigger] s[i])))
    &&& (sc_snake_case(s) || sc_constant(s))
}

// ---------------------------------------------------------------------------
// Messages.
// ---------------------------------------------------------------------------
pub open spec fn msg_bad_function(name: Seq<char>) -> Seq<char> {
    "Function '"@ + name + "' should use snake_case"@
}

pub open spec fn msg_bad_class(name: Seq<char>) -> Seq<char> {
    "Class '"@ + name + "' should use PascalCase"@
}

pub open spec fn msg_bad_variable(name: Seq<char>) -> Seq<char> {
    "Variable '"@ + name + "' should use snake_case or be a proper constant"@
}

// ---------------------------------------------------------------------------
// The walk.
// ---------------------------------------------------------------------------
/// The diagnostics for one direct `Name` assignment target; other target
/// forms are not inspected.
pub open spec fn target_diags(e: Expression, line: int) -> Seq<DiagnosticView> {
    match e {
        Expression::Name { id } => if !sc_valid_variable(id@) {
            seq![warn_at(msg_bad_variable(id@), line, 1)]
        } else {
            Seq::empty()
        },
        _ => Seq::empty(),
    }
}

pub open spec fn targets_diags(ts: Seq<Expression>, line: int) -> Seq<DiagnosticView>
    decreases ts.len(),
{
    if ts.len() == 0 {
        Seq::empty()
    } else {
        target_diags(ts[0], line) + targets_diags(ts.drop_first(), line)
    }
}

/// The naming diagnostics reachable through one expression: expressions never
/// produce diagnostics themselves, but the walk descends into nested
/// expressions so that no reachable statement block is missed.
pub open spec fn naming_expr(e: Expression) -> Seq<DiagnosticView>
    decreases e,
{
    match e {
        Expression::Lambda { body } => naming_expr(*body),
        Expression::Call { func, args, keywords } => naming_expr(*func) + naming_exprs(args@)
            + naming_exprs(keywords@),
        Expression::IfExp { test, body, orelse } => naming_expr(*test) + naming_expr(*body)
            + naming_expr(*orelse),
        Expression::BoolOp { values } => naming_exprs(values@),
        Expression::BinOp { left, right } => naming_expr(*left) + naming_expr(*right),
        _ => Seq::empty(),
    }
}

pub open spec fn naming_exprs(es: Seq<Expression>) -> Seq<DiagnosticView>
    decreases es,
{
    if es.len() == 0 {
        Seq::empty()
    } else {
        naming_expr(es[0]) + naming_exprs(es.drop_first())
    }
}

/// The naming diagnostics of one statement and everything nested in it.
pub open spec fn naming_stmt(s: Statement) -> Seq<DiagnosticView>
    decreases s,
{
    match s {
        Statement::FunctionDef { name, body, line, .. } => (if !sc_snake_case(name@) {
            seq![warn_at(msg_bad_function(name@), line as int, 1)]
        } else {
            Seq::empty()
        }) + naming_stmts(body@),
        Statement::ClassDef { name, body, line } => (if !sc_pascal_case(name@) {
            seq![warn_at(msg_bad_class(name@), line as int, 1)]
        } else {
            Seq::empty()
        }) + naming_stmts(body@),
        Statement::Assign { targets, value, line } => targets_diags(targets@, line as int)
            + naming_expr(value),
        Statement::If { test, body, orelse, .. } => naming_expr(test) + naming_stmts(body@)
            + naming_stmts(orelse@),
        Statement::While { test, body, orelse, .. } => naming_expr(test) + naming_stmts(body@)
            + naming_stmts(orelse@),
        Statement::For { target, iter, body, orelse, .. } => naming_expr(target) + naming_expr(iter)
            + naming_stmts(body@) + naming_stmts(orelse@),
        Statement::Expression { value, .. } => naming_expr(value),
        _ => Seq::empty(),
    }
}

/// The naming diagnostics of a whole body, in statement order.
pub open spec fn naming_stmts(ss: Seq<Statement>) -> Seq<DiagnosticView>
    decreases ss,
{
    if ss.len() == 0 {
        Seq::empty()
    } else {
        naming_stmt(ss[0]) + naming_stmts(ss.drop_first())
    }
}

impl NamingConventions {
    pub fn is_snake_case(name: &str) -> (b: bool)
        ensures
            b == sc_snake_case(name@),
    {
        let n = name.unicode_len();
        if n == 0 {
            return false;
        }
        if name.get_char(0).is_numeric() {
            return false;
        }
        let mut i: usize = 0;
        while i < n
            invariant
                n == name@.len(),
                i <= n,
                forall|k: int|
                    0 <= k < i ==> is_lowercase_char(#[trigger] name@[k]) || is_numeric_char(name@[k])
                        || name@[k] == '_',
            decreases n - i,
        {
            let c = name.get_char(i);
            if !(c.is_lowercase() || c.is_numeric() || c == '_') {
                return false;
            }
            i = i + 1;
        }
        true
    }

    pub fn is_pascal_case(name: &str) -> (b: bool)
        ensures
            b == sc_pascal_case(name@),
    {
        let n = name.unicode_len();
        if n == 0 {
            return false;
        }
        if !name.get_char(0).is_uppercase() {
            return false;
        }
        let mut i: usize = 1;
        while i < n
            invariant
                n == name@.len(),
                1 <= i <= n,
                forall|k: int| 1 <= k < i ==> is_alphanumeric_char(#[trigger] name@[k]),
            decreases n - i,
        {
            if !name.get_char(i).is_alphanumeric() {
                return false;
            }
            i = i + 1;
        }
        true
    }

    pub fn is_constant(name: &str) -> (b: bool)
        ensures
            b == sc_constant(name@),
    {
        let n = name.unicode_len();
        if n == 0 {
            return false;
        }
        let mut i: usize = 0;
        while i < n
            invariant
                n == name@.len(),
                i <= n,
                forall|k: int|
                    0 <= k < i ==> is_uppercase_char(#[trigger] name@[k]) || is_numeric_char(name@[k])
                        || name@[k] == '_',
            decreases n - i,
        {
            let c = name.get_char(i);
            if !(c.is_uppercase() || c.is_numeric() || c == '_') {
                return false;
            }
            i = i + 1;
        }
        true
    }

    pub fn is_valid_variable_name(name: &str) -> (b: bool)
        ensures
            b == sc_valid_variable(name@),
    {
        let n = name.unicode_len();
        let mut has_upper = false;
        let mut has_lower = false;
        let mut i: usize = 0;
        while i < n
            invariant
                n == name@.len(),
                i <= n,
                has_upper == exists|k: int| 0 <= k < i && is_uppercase_char(#[trigger] name@[k]),
                has_lower == exists|k: int| 0 <= k < i && is_lowercase_char(#[trigger] name@[k]),
            decreases n - i,
        {
            let c = name.get_char(i);
            if c.is_uppercase() {
                has_upper = true;
            }
            if c.is_lowercase() {
                has_lower = true;
            }
            i = i + 1;
        }
        if has_upper && has_lower {
            return false;
        }
        Self::is_snake_case(name) || Self::is_constant(name)
    }

    /// Check one body of statements, appending the diagnostics in walk order.
    fn check_statements(&self, stmts: &Vec<Statement>, diagnostics: &mut Vec<Diagnostic>)
        ensures
            diag_views(final(diagnostics)@) == diag_views(old(diagnostics)@) + naming_stmts(
                stmts@,
            ),
        decreases stmts,
    {
        let ghost start = diag_views(diagnostics@);
        let n = stmts.len();
        let mut k: usize = 0;
        proof {
            assert(naming_prefix(stmts@, 0) =~= Seq::<DiagnosticView>::empty());
        }
        while k < n
            invariant
                n == stmts@.len(),
                k <= n,
                diag_views(diagnostics@) == start + naming_prefix(stmts@, k as int),
            decreases n - k,
        {
            self.check_stmt(&stmts[k], diagnostics);
            proof {
                lemma_naming_prefix_step(stmts@, k as int);
            }
            k = k + 1;
        }
        proof {
            lemma_naming_prefix_all(stmts@);
        }
    }

    /// Check one statement and everything nested in it.
    fn check_stmt(&self, s: &Statement, diagnostics: &mut Vec<Diagnostic>)
        ensures
            diag_views(final(diagnostics)@) == diag_views(old(diagnostics)@) + naming_stmt(*s),
        decreases s,
    {
        let ghost start = diag_views(diagnostics@);
        match s {
            Statement::FunctionDef { name, body, line, .. } => {
                if !Self::is_snake_case(name.as_str()) {
                    let mut m = "Function '".to_owned();
                    m.append(name.as_str());
                    m.append("' should use snake_case");
                    let d = Diagnostic {
                        level: DiagnosticLevel::Warning,
                        message: m,
                        line: *line,
                        column: 1,
                        path: String::new(),
                    };
                    proof {
                        crate::linter::lemma_diag_views_push(diagnostics@, d);
                    }
                    diagnostics.push(d);
                }
                self.check_statements(body, diagnostics);
            },
            Statement::ClassDef { name, body, line } => {
                if !Self::is_pascal_case(name.as_str()) {
                    let mut m = "Class '".to_owned();
                    m.append(name.as_str());
                    m.append("' should use PascalCase");
                    let d = Diagnostic {
                        level: DiagnosticLevel::Warning,
                        message: m,
                        line: *line,
                        column: 1,
                        path: String::new(),
                    };
                    proof {
                        crate::linter::lemma_diag_views_push(diagnostics@, d);
                    }
                    diagnostics.push(d);
                }
                self.check_statements(body, diagnostics);
            },
            Statement::Assign { targets, value, line } => {
                let n = targets.len();
                let mut k: usize = 0;
                proof {
                    assert(targets_prefix(targets@, 0, *line as int) =~= Seq::<
                        DiagnosticView,
                    >::empty());
                }
                while k < n
                    invariant
                        n == targets@.len(),
                        k <= n,
                        diag_views(diagnostics@) == start + targets_prefix(
                            targets@,
                            k as int,
                            *line as int,
                        ),
                    decreases n - k,
                {
                    match &targets[k] {
                        Expression::Name { id } => {
                            if !Self::is_valid_variable_name(id.as_str()) {
                                let mut m = "Variable '".to_owned();
                                m.append(id.as_str());
                                m.append("' should use snake_case or be a proper constant");
                                let d = Diagnostic {
                                    level: DiagnosticLevel::Warning,
                                    message: m,
                                    line: *line,
                                    column: 1,
                                    path: String::new(),
                                };
                                proof {
                                    crate::linter::lemma_diag_views_push(diagnostics@, d);
                                }
                                diagnostics.push(d);
                            }
                        },
                        _ => {},
                    }
                    proof {
                        lemma_targets_prefix_step(targets@, k as int, *line as int);
                        assert(diag_views(diagnostics@) =~= start + targets_prefix(
                            targets@,
                            k + 1,
                            *line as int,
                        ));
                    }
                    k = k + 1;
                }
                proof {
                    lemma_targets_prefix_all(targets@, *line as int);
                }
                self.check_expr(value, diagnostics);
            },
            Statement::If { test, body, orelse, .. } => {
                self.check_expr(test, diagnostics);
                self.check_statements(body, diagnostics);
                self.check_statements(orelse, diagnostics);
                proof {
                    assert(diag_views(diagnostics@) =~= start + naming_stmt(*s));
                }
            },
            Statement::While { test, body, orelse, .. } => {
                self.check_expr(test, diagnostics);
                self.check_statements(body, diagnostics);
                self.check_statements(orelse, diagnostics);
                proof {
                    assert(diag_views(diagnostics@) =~= start + naming_stmt(*s));
                }
            },
            Statement::For { target, iter, body, orelse, .. } => {
                self.check_expr(target, diagnostics);
                self.check_expr(iter, diagnostics);
                self.check_statements(body, diagnostics);
                self.check_statements(orelse, diagnostics);
                proof {
                    assert(diag_views(diagnostics@) =~= start + naming_stmt(*s));
                }
            },
            Statement::Expression { value, .. } => {
                self.check_expr(value, diagnostics);
            },
            _ => {},
        }
        proof {
            assert(diag_views(diagnostics@) =~= start + naming_stmt(*s));
        }
    }

    /// Descend into one expression looking for nested blocks to check.
    fn check_expr(&self, e: &Expression, diagnostics: &mut Vec<Diagnostic>)
        ensures
            diag_views(final(diagnostics)@) == diag_views(old(diagnostics)@) + naming_expr(*e),
        decreases e,
    {
        let ghost start = diag_views(diagnostics@);
        match e {
            Expression::Lambda { body } => {
                self.check_expr(body, diagnostics);
            },
            Expression::Call { func, args, keywords } => {
                self.check_expr(func, diagnostics);
                self.check_exprs(args, diagnostics);
                self.check_exprs(keywords, diagnostics);
                proof {
                    assert(diag_views(diagnostics@) =~= start + naming_expr(*e));
                }
            },
            Expression::IfExp { test, body, orelse } => {
                self.check_expr(test, diagnostics);
                self.check_expr(body, diagnostics);
                self.check_expr(orelse, diagnostics);
                proof {
                    assert(diag_views(diagnostics@) =~= start + naming_expr(*e));
                }
            },
            Expression::BoolOp { values } => {
                self.check_exprs(values, diagnostics);
            },
            Expression::BinOp { left, right } => {
                self.check_expr(left, diagnostics);
                self.check_expr(right, diagnostics);
                proof {
                    assert(diag_views(diagnostics@) =~= start + naming_expr(*e));
                }
            },
            _ => {},
        }
    }

    fn check_exprs(&self, es: &Vec<Expression>, diagnostics: &mut Vec<Diagnostic>)
        ensures
            diag_views(final(diagnostics)@) == diag_views(old(diagnostics)@) + naming_exprs(es@),
        decreases es,
    {
        let ghost start = diag_views(diagnostics@);
        let n = es.len();
        let mut k: usize = 0;
        proof {
            assert(naming_exprs_prefix(es@, 0) =~= Seq::<DiagnosticView>::empty());
        }
        while k < n
            invariant
                n == es@.len(),
                k <= n,
                diag_views(diagnostics@) == start + naming_exprs_prefix(es@, k as int),
            decreases n - k,
        {
            self.check_expr(&es[k], diagnostics);
            proof {
                lemma_naming_exprs_prefix_step(es@, k as int);
            }
            k = k + 1;
        }
        proof {
            lemma_naming_exprs_prefix_all(es@);
        }
    }

    /// The rule capability: walk the whole tree; the raw text is not used.
    pub fn check(&self, tree: &Program, _source: &str) -> (r: Vec<Diagnostic>)
        ensures
            diag_views(r@) == naming_stmts(tree.body@),
    {
        let mut diagnostics: Vec<Diagnostic> = Vec::new();
        self.check_statements(&tree.body, &mut diagnostics);
        proof {
            assert(diag_views(diagnostics@) =~= naming_stmts(tree.body@));
        }
        diagnostics
    }
}

// ---------------------------------------------------------------------------
// Prefix forms of the walk, to state loop invariants.
// ---------------------------------------------------------------------------
/// The diagnostics of the first `k` statements.
pub open spec fn naming_prefix(ss: Seq<Statement>, k: int) -> Seq<DiagnosticView>
    decreases k,
{
    if k <= 0 || k > ss.len() {
        Seq::empty()
    } else {
        naming_prefix(ss, k - 1) + naming_stmt(ss[k - 1])
    }
}

proof fn lemma_naming_prefix_step(ss: Seq<Statement>, k: int)
    requires
        0 <= k < ss.len(),
    ensures
        naming_prefix(ss, k + 1) == naming_prefix(ss, k) + naming_stmt(ss[k]),
{
}

proof fn lemma_naming_prefix_all(ss: Seq<Statement>)
    ensures
        naming_prefix(ss, ss.len() as int) == naming_stmts(ss),
    decreases ss.len(),
{
    if ss.len() > 0 {
        lemma_naming_prefix_all(ss.drop_first());
        lemma_naming_prefix_shift(ss, ss.len() as int - 1);
        assert(naming_stmts(ss) =~= naming_stmt(ss[0]) + naming_stmts(ss.drop_first()));
    } else {
        assert(naming_prefix(ss, 0) =~= naming_stmts(ss));
    }
}

proof fn lemma_naming_prefix_shift(ss: Seq<Statement>, k: int)
    requires
        ss.len() > 0,
        0 <= k <= ss.len() - 1,
    ensures
        naming_prefix(ss, k + 1) == naming_stmt(ss[0]) + naming_prefix(ss.drop_first(), k),
    decreases k,
{
    if k == 0 {
        assert(naming_prefix(ss, 0) =~= Seq::<DiagnosticView>::empty());
        assert(naming_prefix(ss.drop_first(), 0) =~= Seq::<DiagnosticView>::empty());
        assert(naming_prefix(ss, 1) =~= naming_stmt(ss[0]) + naming_prefix(ss.drop_first(), 0));
    } else {
        lemma_naming_prefix_shift(ss, k - 1);
        assert(ss.drop_first()[k - 1] == ss[k]);
        assert(naming_prefix(ss, k + 1) =~= naming_stmt(ss[0]) + naming_prefix(
            ss.drop_first(),
            k,
        ));
    }
}

pub open spec fn naming_exprs_prefix(es: Seq<Expression>, k: int) -> Seq<DiagnosticView>
    decreases k,
{
    if k <= 0 || k > es.len() {
        Seq::empty()
    } else {
        naming_exprs_prefix(es, k - 1) + naming_expr(es[k - 1])
    }
}

proof fn lemma_naming_exprs_prefix_step(es: Seq<Expression>, k: int)
    requires
        0 <= k < es.len(),
    ensures
        naming_exprs_prefix(es, k + 1) == naming_exprs_prefix(es, k) + naming_expr(es[k]),
{
}

proof fn lemma_naming_exprs_prefix_all(es: Seq<Expression>)
    ensures
        naming_exprs_prefix(es, es.len() as int) == naming_exprs(es),
    decreases es.len(),
{
    if es.len() > 0 {
        lemma_naming_exprs_prefix_all(es.drop_first());
        lemma_naming_exprs_prefix_shift(es, es.len() as int - 1);
        assert(naming_exprs(es) =~= naming_expr(es[0]) + naming_exprs(es.drop_first()));
    } else {
        assert(naming_exprs_prefix(es, 0) =~= naming_exprs(es));
    }
}

proof fn lemma_naming_exprs_prefix_shift(es: Seq<Expression>, k: int)
    requires
        es.len() > 0,
        0 <= k <= es.len() - 1,
    ensures
        naming_exprs_prefix(es, k + 1) == naming_expr(es[0]) + naming_exprs_prefix(
            es.drop_first(),
            k,
        ),
    decreases k,
{
    if k == 0 {
        assert(naming_exprs_prefix(es, 0) =~= Seq::<DiagnosticView>::empty());
        assert(naming_exprs_prefix(es.drop_first(), 0) =~= Seq::<DiagnosticView>::empty());
        assert(naming_exprs_prefix(es, 1) =~= naming_expr(es[0]) + naming_exprs_prefix(
            es.drop_first(),
            0,
        ));
    } else {
        lemma_naming_exprs_prefix_shift(es, k - 1);
        assert(es.drop_first()[k - 1] == es[k]);
        assert(naming_exprs_prefix(es, k + 1) =~= naming_expr(es[0]) + naming_exprs_prefix(
            es.drop_first(),
            k,
        ));
    }
}

pub open spec fn targets_prefix(ts: Seq<Expression>, k: int, line: int) -> Seq<DiagnosticView>
    decreases k,
{
    if k <= 0 || k > ts.len() {
        Seq::empty()
    } else {
        targets_prefix(ts, k - 1, line) + target_diags(ts[k - 1], line)
    }
}

proof fn lemma_targets_prefix_step(ts: Seq<Expression>, k: int, line: int)
    requires
        0 <= k < ts.len(),
    ensures
        targets_prefix(ts, k + 1, line) == targets_prefix(ts, k, line) + target_diags(
            ts[k],
            line,
        ),
{
}

proof fn lemma_targets_prefix_all(ts: Seq<Expression>, line: int)
    ensures
        targets_prefix(ts, ts.len() as int, line) == targets_diags(ts, line),
    decreases ts.len(),
{
    if ts.len() > 0 {
        lemma_targets_prefix_all(ts.drop_first(), line);
        lemma_targets_prefix_shift(ts, ts.len() as int - 1, line);
        assert(targets_diags(ts, line) =~= target_diags(ts[0], line) + targets_diags(
            ts.drop_first(),
            line,
        ));
    } else {
        assert(targets_prefix(ts, 0, line) =~= targets_diags(ts, line));
    }
}

proof fn lemma_targets_prefix_shift(ts: Seq<Expression>, k: int, line: int)
    requires
        ts.len() > 0,
        0 <= k <= ts.len() - 1,
    ensures
        targets_prefix(ts, k + 1, line) == target_diags(ts[0], line) + targets_prefix(
            ts.drop_first(),
            k,
            line,
        ),
    decreases k,
{
    if k == 0 {
        assert(targets_prefix(ts, 0, line) =~= Seq::<DiagnosticView>::empty());
        assert(targets_prefix(ts.drop_first(), 0, line) =~= Seq::<DiagnosticView>::empty());
        assert(targets_prefix(ts, 1, line) =~= target_diags(ts[0], line) + targets_prefix(
            ts.drop_first(),
            0,
            line,
        ));
    } else {
        lemma_targets_prefix_shift(ts, k - 1, line);
        assert(ts.drop_first()[k - 1] == ts[k]);
        assert(targets_prefix(ts, k + 1, line) =~= target_diags(ts[0], line) + targets_prefix(
            ts.drop_first(),
            k,
            line,
        ));
    }
}

} // verus!
