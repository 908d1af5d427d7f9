use rustlint::linter::DiagnosticLevel;
use rustlint::rules::LineLength;

#[test]
fn line_length_boundary() {
    let rule = LineLength::new(88);

    let line89 = "x".repeat(89);
    let diagnostics = rule.check_text(&line89);
    assert_eq!(diagnostics.len(), 1);
    assert_eq!(diagnostics[0].level, DiagnosticLevel::Warning);
    assert_eq!(diagnostics[0].line, 1);
    assert_eq!(diagnostics[0].column, 89);
    assert_eq!(diagnostics[0].message, "Line too long (89 > 88 characters)");

    let line88 = "x".repeat(88);
    let diagnostics = rule.check_text(&line88);
    assert!(diagnostics.is_empty());
}

#[test]
fn character_count_not_byte_count() {
    // 89 two-byte characters are over the limit by character count, and 88
    // are within it, although by byte count both would be far over.
    let rule = LineLength::new(88);
    let wide = "é".repeat(89);
    let diagnostics = rule.check_text(&wide);
    assert_eq!(diagnostics.len(), 1);
    assert_eq!(diagnostics[0].column, 89);

    let narrow = "é".repeat(88);
    assert!(rule.check_text(&narrow).is_empty());
}

#[test]
fn indentation_warning() {
    let rule = LineLength::new(88);
    let diagnostics = rule.check_text("   x = 1");
    assert_eq!(diagnostics.len(), 1);
    assert_eq!(diagnostics[0].message, "Indentation of 3 spaces should be a multiple of 4");
    assert_eq!(diagnostics[0].line, 1);
    assert_eq!(diagnostics[0].column, 1);

    assert!(rule.check_text("    x = 1").is_empty());
    assert!(rule.check_text("        x = 1").is_empty());
}

#[test]
fn tab_warning_at_first_tab_column() {
    let rule = LineLength::new(88);
    let diagnostics = rule.check_text("ab\tcd\te");
    assert_eq!(diagnostics.len(), 1);
    assert_eq!(diagnostics[0].message, "Line contains tabs (use spaces instead)");
    assert_eq!(diagnostics[0].column, 3);
}

#[test]
fn trailing_whitespace_warning() {
    let rule = LineLength::new(88);
    let diagnostics = rule.check_text("x = 1   ");
    assert_eq!(diagnostics.len(), 1);
    assert_eq!(diagnostics[0].message, "Trailing whitespace");
    assert_eq!(diagnostics[0].column, 6);
}

#[test]
fn checks_fire_in_order_on_one_line() {
    let rule = LineLength::new(20);
    // Over-long, badly indented, holding a tab, and ending in whitespace.
    let line = "   abcdefghijklmnop\tqrstuvwxyz  ";
    let diagnostics = rule.check_text(line);
    assert_eq!(diagnostics.len(), 4);
    assert!(diagnostics[0].message.contains("Line too long"));
    assert!(diagnostics[1].message.contains("Indentation"));
    assert!(diagnostics[2].message.contains("tabs"));
    assert_eq!(diagnostics[3].message, "Trailing whitespace");
    for d in &diagnostics {
        assert_eq!(d.line, 1);
    }
}

#[test]
fn blank_and_triple_quote_lines_skip_length_check() {
    let rule = LineLength::new(10);
    // All-whitespace line: no length warning, only trailing whitespace.
    let blank = " ".repeat(40);
    let diagnostics = rule.check_text(&blank);
    assert!(!diagnostics.iter().any(|d| d.message.contains("Line too long")));
    assert_eq!(diagnostics.len(), 1);
    assert_eq!(diagnostics[0].message, "Trailing whitespace");

    // A long line whose trimmed content is exactly a triple-quote delimiter.
    let mut quoted = " ".repeat(20);
    quoted.push_str("\"\"\"");
    let diagnostics = rule.check_text(&quoted);
    assert!(!diagnostics.iter().any(|d| d.message.contains("Line too long")));
}

#[test]
fn lines_and_carriage_returns() {
    let rule = LineLength::new(5);
    // Windows line endings: the carriage return is not part of the line, so
    // a five-character line stays within the limit.
    let diagnostics = rule.check_text("abcde\r\nabcdef\r\n");
    assert_eq!(diagnostics.len(), 1);
    assert_eq!(diagnostics[0].line, 2);
    assert_eq!(diagnostics[0].message, "Line too long (6 > 5 characters)");
}

#[test]
fn unicode_whitespace_in_style_checks() {
    let rule = LineLength::new(88);

    // Space then form feed: the line is all whitespace, so the odd leading-
    // space run must not be reported; the trailing whitespace is.
    let diagnostics = rule.check_text(" \u{000C}");
    assert!(!diagnostics.iter().any(|d| d.message.contains("Indentation")));
    assert_eq!(diagnostics.len(), 1);
    assert_eq!(diagnostics[0].message, "Trailing whitespace");
    assert_eq!(diagnostics[0].column, 1);

    // A vertical tab or a no-break space at the end of a line is trailing
    // whitespace.
    let diagnostics = rule.check_text("x = 1\u{000B}");
    assert_eq!(diagnostics.len(), 1);
    assert_eq!(diagnostics[0].message, "Trailing whitespace");
    assert_eq!(diagnostics[0].column, 6);

    let diagnostics = rule.check_text("x = 1\u{00A0}");
    assert_eq!(diagnostics.len(), 1);
    assert_eq!(diagnostics[0].message, "Trailing whitespace");

    // A long line of form feeds is all whitespace: no length warning.
    let rule = LineLength::new(10);
    let blank = "\u{000C}".repeat(40);
    let diagnostics = rule.check_text(&blank);
    assert!(!diagnostics.iter().any(|d| d.message.contains("Line too long")));
}
