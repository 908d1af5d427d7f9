use rustlint::config::Config;
use rustlint::linter::{lint_source, DiagnosticLevel, Linter};
use rustlint::rules::get_default_rules;

#[test]
fn unused_import_scenarios() {
    let linter = Linter::new(Config::default());

    let diagnostics = linter.lint_source("import os\nimport sys\nx = 1", "a.py");
    assert!(diagnostics
        .iter()
        .any(|d| d.message.contains("Unused import 'os'") && d.line == 1 && d.column == 1));
    assert!(diagnostics
        .iter()
        .any(|d| d.message.contains("Unused import 'sys'") && d.line == 2 && d.column == 1));

    let diagnostics = linter.lint_source("import sys\nprint(sys.path)", "b.py");
    assert!(!diagnostics.iter().any(|d| d.message.contains("Unused import")));
}

#[test]
fn aliased_and_dotted_imports() {
    let linter = Linter::new(Config::default());

    // An alias that is used: no warning; an aliased import whose unaliased
    // name alone is used: still unused.
    let diagnostics = linter.lint_source("import json as js\nx = js.dumps", "a.py");
    assert!(!diagnostics.iter().any(|d| d.message.contains("Unused import")));

    let diagnostics = linter.lint_source("import json as js\nx = json.dumps", "a.py");
    assert!(diagnostics.iter().any(|d| d.message.contains("Unused import 'json as js'")));

    // A dotted import counts as used when its base module is referenced.
    let diagnostics = linter.lint_source("import os.path\nx = os.getcwd()", "a.py");
    assert!(!diagnostics.iter().any(|d| d.message.contains("Unused import")));

    let diagnostics = linter.lint_source("import os.path\ny = 1", "a.py");
    assert!(diagnostics.iter().any(|d| d.message.contains("Unused import 'os.path'")));
}

#[test]
fn naming_scenarios() {
    let linter = Linter::new(Config::default());

    let diagnostics = linter.lint_source("x = 0\ndef badFunction(): pass", "a.py");
    let hits: Vec<_> = diagnostics
        .iter()
        .filter(|d| d.message.contains("badFunction") && d.message.contains("snake_case"))
        .collect();
    assert_eq!(hits.len(), 1);
    assert_eq!(hits[0].message, "Function 'badFunction' should use snake_case");
    assert_eq!(hits[0].line, 2);
    assert_eq!(hits[0].column, 1);

    let diagnostics = linter.lint_source("class badclass: pass", "a.py");
    let hits: Vec<_> = diagnostics
        .iter()
        .filter(|d| d.message.contains("badclass") && d.message.contains("PascalCase"))
        .collect();
    assert_eq!(hits.len(), 1);

    let diagnostics = linter.lint_source("BAD_var = 1", "a.py");
    let hits: Vec<_> =
        diagnostics.iter().filter(|d| d.message.contains("BAD_var")).collect();
    assert_eq!(hits.len(), 1);
    assert_eq!(
        hits[0].message,
        "Variable 'BAD_var' should use snake_case or be a proper constant"
    );
}

#[test]
fn syntax_error_scenario() {
    let linter = Linter::new(Config::default());

    // Unbalanced parenthesis, plus one overlong line so that style checks are
    // visibly still running on the unparsable text.
    let long = "x".repeat(95);
    let source = format!("y = (\n{}", long);
    let diagnostics = linter.lint_source(&source, "broken.py");

    let errors: Vec<_> =
        diagnostics.iter().filter(|d| d.level == DiagnosticLevel::Error).collect();
    assert_eq!(errors.len(), 1);
    assert!(errors[0].message.contains("Syntax error"));
    assert_eq!(errors[0].line, 1);
    assert_eq!(errors[0].column, 1);

    // No tree rule ran: no unused-import or naming diagnostics.
    assert!(!diagnostics.iter().any(|d| d.message.contains("Unused import")));
    assert!(!diagnostics.iter().any(|d| d.message.contains("snake_case")));

    // The style checker still reported the overlong line.
    assert!(diagnostics.iter().any(|d| d.message.contains("Line too long")));
}

#[test]
fn style_diagnostics_equal_with_and_without_parse() {
    // The same text, once as a parsable file and once inside a file with a
    // syntax error appended: the style diagnostics for the shared lines are
    // identical.
    let linter = Linter::new(Config::default());
    let long = "x".repeat(95);

    let good = format!("{}\n", long);
    let bad = format!("{}\ny = (", long);

    let good_diags = linter.lint_source(&good, "a.py");
    let bad_diags = linter.lint_source(&bad, "a.py");

    let good_style: Vec<_> =
        good_diags.iter().filter(|d| d.message.contains("Line too long")).collect();
    let bad_style: Vec<_> =
        bad_diags.iter().filter(|d| d.message.contains("Line too long")).collect();
    assert_eq!(good_style.len(), 1);
    assert_eq!(bad_style.len(), 1);
    assert_eq!(good_style[0].message, bad_style[0].message);
    assert_eq!(good_style[0].line, bad_style[0].line);
    assert_eq!(good_style[0].column, bad_style[0].column);
}

#[test]
fn idempotent_runs() {
    let linter = Linter::new(Config::default());
    let source = "import os\ndef badFunction():\n   x = 1\n";
    let first = linter.lint_source(source, "a.py");
    let second = linter.lint_source(source, "a.py");
    assert_eq!(first.len(), second.len());
    for (a, b) in first.iter().zip(second.iter()) {
        assert_eq!(a.level, b.level);
        assert_eq!(a.message, b.message);
        assert_eq!(a.line, b.line);
        assert_eq!(a.column, b.column);
        assert_eq!(a.path, b.path);
    }
}

#[test]
fn positions_are_one_based_and_paths_stamped() {
    let linter = Linter::new(Config::default());
    let source = "import os\nimport sys\n\tbad = 1\ndef badFunction(): pass\ny = (";
    let diagnostics = linter.lint_source(source, "some/dir/file.py");
    assert!(!diagnostics.is_empty());
    for d in &diagnostics {
        assert!(d.line >= 1);
        assert!(d.column >= 1);
        assert_eq!(d.path, "some/dir/file.py");
    }
}

#[test]
fn free_lint_source_runs_all_rules() {
    let rules = get_default_rules();
    let source = "import os\ndef badFunction():\n    y = '0123456789012345678901234567890123456789012345678901234567890123456789012345678901234567890'\n";
    let diagnostics = lint_source(source, "file.py", &rules);
    assert!(diagnostics.iter().any(|d| d.message.contains("Unused import 'os'")));
    assert!(diagnostics.iter().any(|d| d.message.contains("snake_case")));
    assert!(diagnostics.iter().any(|d| d.message.contains("Line too long")));
    // Style diagnostics come first, then unused imports, then naming, per the
    // orchestrator's ordering.
    let first_style = diagnostics
        .iter()
        .position(|d| d.message.contains("Line too long"))
        .unwrap();
    let unused = diagnostics
        .iter()
        .position(|d| d.message.contains("Unused import"))
        .unwrap();
    let naming = diagnostics
        .iter()
        .position(|d| d.message.contains("snake_case"))
        .unwrap();
    assert!(first_style < unused);
    assert!(unused < naming);
}

#[test]
fn empty_source_has_no_diagnostics() {
    let linter = Linter::new(Config::default());
    let diagnostics = linter.lint_source("", "empty.py");
    assert!(diagnostics.is_empty());
}

#[test]
fn config_defaults() {
    let config = Config::default();
    assert_eq!(config.rules.max_line_length, 88);
    assert!(!config.rules.ignore_unused_variables);
    assert!(config.rules.strict_pep8);
    assert!(config.paths.exclude.is_empty());
}
