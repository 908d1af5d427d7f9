//! The rule set: a closed set of analysis units, each consuming a parsed
//! program plus the raw source text and producing zero or more diagnostics
//! through the uniform `check` capability. A rule has no side effects beyond
//! its returned diagnostics and no mutable state, which is what makes per-file
//! parallelism in a driver safe without locking.

pub mod line_length;
pub mod naming_conventions;
pub mod unused_imports;

pub use line_length::LineLength;
pub use naming_conventions::NamingConventions;
pub use unused_imports::UnusedImports;

use vstd::prelude::*;

use crate::linter::{diag_views, Diagnostic, DiagnosticView};
use crate::syntax::{Program, Statement};
use line_length::style_diags;
use naming_conventions::naming_stmts;
use unused_imports::unused_diags;

verus! {

/// One analysis unit. The set is closed: adding a rule means adding a
/// variant, and every dispatch is total over the variants.
pub enum Rule {
    UnusedImports(UnusedImports),
    LineLength(LineLength),
    NamingConventions(NamingConventions),
}

impl Rule {
    /// A text rule reads only the raw source; it still runs when parsing
    /// failed.
    pub open spec fn is_text_rule(&self) -> bool {
        self is LineLength
    }

    /// What a text rule reports on `text`; empty for tree rules.
    pub open spec fn text_diags_spec(&self, text: Seq<char>) -> Seq<DiagnosticView> {
        match self {
            Rule::LineLength(ll) => style_diags(text, ll.max_spec()),
            _ => Seq::empty(),
        }
    }

    /// What a tree rule reports on `tree`; empty for text rules.
    pub open spec fn tree_diags_spec(&self, tree: Seq<Statement>) -> Seq<DiagnosticView> {
        match self {
            Rule::UnusedImports(_) => unused_diags(tree),
            Rule::NamingConventions(_) => naming_stmts(tree),
            Rule::LineLength(_) => Seq::empty(),
        }
    }

    /// What this rule reports on one file's tree and text.
    pub open spec fn diags_spec(&self, tree: Seq<Statement>, text: Seq<char>) -> Seq<DiagnosticView> {
        self.text_diags_spec(text) + self.tree_diags_spec(tree)
    }

    /// The rule capability: produce this rule's diagnostics for one file.
    pub fn check(&self, tree: &Program, source: &str) -> (r: Vec<Diagnostic>)
        ensures
            diag_views(r@) == self.diags_spec(tree.body@, source@),
    {
        let r = match self {
            Rule::UnusedImports(rule) => rule.check(tree, source),
            Rule::LineLength(rule) => rule.check(tree, source),
            Rule::NamingConventions(rule) => rule.check(tree, source),
        };
        proof {
            assert(diag_views(r@) =~= self.diags_spec(tree.body@, source@));
        }
        r
    }
}

/// The default rule set: unused imports, line style at 88 columns, naming
/// conventions, in registration order.
pub fn get_default_rules() -> (r: Vec<Rule>)
    ensures
        r@ == crate::linter::default_rules(88),
        r@.len() == 3,
        r@[0] is UnusedImports,
        r@[1] matches Rule::LineLength(ll) && ll.max_spec() == 88,
        r@[2] is NamingConventions,
{
    let mut r: Vec<Rule> = Vec::new();
    r.push(Rule::UnusedImports(UnusedImports));
    r.push(Rule::LineLength(LineLength::new(88)));
    r.push(Rule::NamingConventions(NamingConventions));
    proof {
        line_length::lemma_line_length_with_max(88);
        assert(r@ =~= crate::linter::default_rules(88));
    }
    r
}

} // verus!
