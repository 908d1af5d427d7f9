//! Configuration for the linter: which limits the rules enforce and which
//! paths are excluded from a run.

use vstd::prelude::*;

verus! {

/// Settings that gate the behaviour of the diagnostic rules.
///
/// `ignore_unused_variables` and `strict_pep8` are part of the configuration
/// surface for forward compatibility; no rule reads them yet.
#[derive(Debug)]
pub struct Rules {
    pub max_line_length: usize,
    pub ignore_unused_variables: bool,
    pub strict_pep8: bool,
}

/// Paths excluded from a lint run.
#[derive(Debug)]
pub struct Paths {
    pub exclude: Vec<String>,
}

/// The whole configuration: rule settings plus path filters.
#[derive(Debug)]
pub struct Config {
    pub rules: Rules,
    pub paths: Paths,
}

fn default_max_line_length() -> (n: usize)
    ensures
        n == 88,
{
    88
}

fn default_true() -> (b: bool)
    ensures
        b,
{
    true
}

impl Default for Rules {
    /// The defaults: 88 columns, unused-variable checking not ignored,
    /// strict style checking on.
    fn default() -> (r: Rules)
        ensures
            r.max_line_length == 88,
            !r.ignore_unused_variables,
            r.strict_pep8,
    {
        Rules { max_line_length: default_max_line_length(), ignore_unused_variables: false, strict_pep8: default_true() }
    }
}

impl Default for Paths {
    /// By default no path is excluded.
    fn default() -> (p: Paths)
        ensures
            p.exclude@.len() == 0,
    {
        Paths { exclude: Vec::new() }
    }
}

impl Config {
    /// The default configuration: default rule settings, no exclusions.
    pub fn default() -> (c: Config)
        ensures
            c.rules.max_line_length == 88,
            !c.rules.ignore_unused_variables,
            c.rules.strict_pep8,
            c.paths.exclude@.len() == 0,
    {
        Config { rules: Rules::default(), paths: Paths::default() }
    }
}

} // verus!
