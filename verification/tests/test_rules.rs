use rustlint::linter::DiagnosticLevel;
use rustlint::parse::parse_source;
use rustlint::rules::{LineLength, NamingConventions, UnusedImports};
use rustlint::syntax::{ParseOutcome, Program};

fn parse_ok(code: &str) -> Program {
    match parse_source(code) {
        ParseOutcome::Parsed(p) => p,
        ParseOutcome::Failed(m) => panic!("expected the code to parse, got: {}", m),
    }
}

#[test]
fn test_unused_imports() {
    let code = r#"
import os
import sys
from typing import List, Dict
from pathlib import Path as PathLib
import json as js

def main():
    sys_path = sys.path
    my_list: List = []
    return my_list
"#;
    let tree = parse_ok(code);
    let rule = UnusedImports;
    let diagnostics = rule.check(&tree, code);

    assert_eq!(diagnostics.len(), 4);
    assert!(diagnostics.iter().any(|d| d.message.contains("os")));
    assert!(diagnostics.iter().any(|d| d.message.contains("Dict")));
    assert!(diagnostics.iter().any(|d| d.message.contains("PathLib")));
    assert!(diagnostics.iter().any(|d| d.message.contains("js")));
}

#[test]
fn test_line_length() {
    let code = r#"
# This is a very long comment line that should definitely trigger the line length warning because it's way too long
def short_line():
    pass
"""This is a multiline string that contains a very long line that should trigger the line length warning because it's quite lengthy
Normal line
Another normal line
Yet another normal line
And finally we have a very long line that should definitely trigger the line length warning because it goes beyond the limit
"""
"#;
    let tree = parse_ok(code);
    let rule = LineLength::new(88);
    let diagnostics = rule.check(&tree, code);

    assert_eq!(diagnostics.len(), 3);
    assert_eq!(diagnostics[0].line, 2); // Comment line
    assert_eq!(diagnostics[1].line, 5); // Multiline string line
    assert_eq!(diagnostics[2].line, 9); // Long line in multiline string
}

#[test]
fn test_naming_conventions() {
    let code = r#"
def badFunction():
    pass

class badclass:
    pass

class GoodClass:
    def good_function():
        pass

def good_name():
    BAD_var = 1
    good_var = 2
    CONSTANT = 3
"#;
    let tree = parse_ok(code);
    let rule = NamingConventions;
    let diagnostics = rule.check(&tree, code);

    assert_eq!(diagnostics.len(), 3);
    assert!(diagnostics.iter().any(|d| d.message.contains("badFunction")));
    assert!(diagnostics.iter().any(|d| d.message.contains("badclass")));
    assert!(diagnostics.iter().any(|d| d.message.contains("BAD_var")));
}

#[test]
fn test_diagnostic_level() {
    assert_ne!(DiagnosticLevel::Error, DiagnosticLevel::Warning);
    assert_eq!(DiagnosticLevel::Error, DiagnosticLevel::Error);
    assert_eq!(DiagnosticLevel::Warning, DiagnosticLevel::Warning);
}

#[test]
fn rule_dispatch_runs_every_rule() {
    let code = "import os\ndef badFunction():\n    x = '0123456789012345678901234567890123456789012345678901234567890123456789012345678901234567890'\n";
    let tree = parse_ok(code);
    let rules = rustlint::rules::get_default_rules();
    let mut all = Vec::new();
    for rule in &rules {
        all.extend(rule.check(&tree, code));
    }
    assert!(all.iter().any(|d| d.message.contains("Unused import 'os'")));
    assert!(all.iter().any(|d| d.message.contains("Line too long")));
    assert!(all.iter().any(|d| d.message.contains("snake_case")));
    assert!(all.iter().all(|d| d.line >= 1 && d.column >= 1));
    assert!(all.iter().all(|d| d.path.is_empty()));
}

#[test]
fn unicode_identifiers_classify_by_unicode_case() {
    // Lowercase letters outside ASCII are still snake_case.
    assert!(NamingConventions::is_snake_case("café"));
    assert!(NamingConventions::is_valid_variable_name("café"));
    // Uppercase letters outside ASCII make a constant, and may open a
    // PascalCase name.
    assert!(NamingConventions::is_constant("CAFÉ"));
    assert!(NamingConventions::is_pascal_case("École"));
    assert!(!NamingConventions::is_snake_case("École"));
    // Mixed case is invalid whatever the script.
    assert!(!NamingConventions::is_valid_variable_name("Éx"));

    let tree = parse_ok("é = 1\ndef café(): pass");
    let rule = NamingConventions;
    let diagnostics = rule.check(&tree, "é = 1\ndef café(): pass");
    assert!(diagnostics.is_empty());
}
