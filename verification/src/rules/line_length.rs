//! The line/style checker: four independent per-line checks on the raw source
//! text (length, indentation width, tabs, trailing whitespace). It never looks
//! at the syntax tree, which is why style diagnostics are available even for
//! files that fail to parse.

use vstd::prelude::*;

use crate::linter::{diag_views, warn_at, Diagnostic, DiagnosticLevel, DiagnosticView};
use crate::strutil::{
    copy_range, count_leading_spaces, dec_str, find_char_from, first_ch, leading_spaces,
    lemma_first_ch, str_to_chars, trim_bounds, trim_end_idx, trimmed, usize_to_string,
};
use crate::syntax::Program;

verus! {

/// The line/style checker, configured with the maximum allowed line length in
/// characters.
pub struct LineLength {
    max_length: usize,
}

// ---------------------------------------------------------------------------
// Splitting text into lines.
// ---------------------------------------------------------------------------
/// `s` without one trailing carriage return, if it has one.
pub open spec fn strip_cr(s: Seq<char>) -> Seq<char> {
    if s.len() > 0 && s[s.len() - 1] == '\r' {
        s.drop_last()
    } else {
        s
    }
}

/// The physical lines of `s`: split at `'\n'`, a carriage return before the
/// newline removed, and no final empty line when the text ends in a newline.
pub open spec fn spec_lines(s: Seq<char>) -> Seq<Seq<char>>
    decreases s.len(),
        via spec_lines_decreases
{
    if s.len() == 0 {
        Seq::empty()
    } else {
        let i = first_ch(s, '\n');
        if i == s.len() {
            seq![s]
        } else {
            seq![strip_cr(s.take(i))] + spec_lines(s.skip(i + 1))
        }
    }
}

#[via_fn]
proof fn spec_lines_decreases(s: Seq<char>) {
    lemma_first_ch(s, '\n');
}

/// The characters of each line of `v`, in order.
pub open spec fn line_views(lines: Seq<Vec<char>>) -> Seq<Seq<char>> {
    lines.map_values(|l: Vec<char>| l@)
}

/// Split `text` into its physical lines.
pub fn split_lines(text: &Vec<char>) -> (lines: Vec<Vec<char>>)
    ensures
        line_views(lines@) == spec_lines(text@),
{
    let n = text.len();
    let mut lines: Vec<Vec<char>> = Vec::new();
    let mut pos: usize = 0;
    proof {
        assert(line_views(lines@) + spec_lines(text@.skip(0)) =~= spec_lines(text@.skip(0)));
        assert(text@.skip(0) =~= text@);
    }
    while pos < n
        invariant
            pos <= n == text@.len(),
            line_views(lines@) + spec_lines(text@.skip(pos as int)) == spec_lines(text@),
        decreases n - pos,
    {
        let ghost rest = text@.skip(pos as int);
        let j = find_char_from(text, '\n', pos);
        if j == n {
            // Final segment without a newline: kept as it stands.
            let seg = copy_range(text, pos, n);
            proof {
                assert(seg@ =~= rest);
                assert(spec_lines(rest) =~= seq![rest]);
                let old_lines = lines@;
                assert(line_views(old_lines.push(seg)) =~= line_views(old_lines).push(seg@));
            }
            lines.push(seg);
            pos = n;
            proof {
                assert(text@.skip(pos as int) =~= Seq::<char>::empty());
                assert(line_views(lines@) + spec_lines(text@.skip(pos as int)) =~= spec_lines(
                    text@,
                ));
            }
        } else {
            // Segment before the newline, with one trailing '\r' removed.
            let end = if j > pos && text[j - 1] == '\r' {
                j - 1
            } else {
                j
            };
            let seg = copy_range(text, pos, end);
            proof {
                let i = first_ch(rest, '\n');
                assert(rest.take(i) =~= text@.subrange(pos as int, j as int));
                assert(seg@ =~= strip_cr(rest.take(i)));
                assert(text@.skip(j + 1 as int) =~= rest.skip(i + 1));
                let old_lines = lines@;
                assert(line_views(old_lines.push(seg)) =~= line_views(old_lines).push(seg@));
                assert(line_views(old_lines.push(seg)) + spec_lines(rest.skip(i + 1)) =~= (
                line_views(old_lines) + spec_lines(rest)));
            }
            lines.push(seg);
            pos = j + 1;
        }
    }
    proof {
        assert(text@.skip(pos as int) =~= Seq::<char>::empty());
        assert(line_views(lines@) =~= line_views(lines@) + spec_lines(text@.skip(pos as int)));
    }
    lines
}

// ---------------------------------------------------------------------------
// The four per-line checks.
// ---------------------------------------------------------------------------
pub open spec fn msg_line_too_long(len: int, max: int) -> Seq<char> {
    "Line too long ("@ + dec_str(len) + " > "@ + dec_str(max) + " characters)"@
}

pub open spec fn msg_indentation(n: int) -> Seq<char> {
    "Indentation of "@ + dec_str(n) + " spaces should be a multiple of 4"@
}

pub open spec fn msg_tabs() -> Seq<char> {
    "Line contains tabs (use spaces instead)"@
}

pub open spec fn msg_trailing() -> Seq<char> {
    "Trailing whitespace"@
}

/// Whether the trimmed content of a line is exactly a triple-quote delimiter.
pub open spec fn is_triple_quote(line: Seq<char>) -> bool {
    trimmed(line) =~= seq!['"', '"', '"']
}

/// The length check: fires when the line holds more than `max` characters,
/// except on lines whose trimmed content is empty or exactly a triple-quote
/// delimiter (to avoid false positives on multiline-string boundaries).
pub open spec fn length_diags(line: Seq<char>, ln: int, max: int) -> Seq<DiagnosticView> {
    if trimmed(line).len() != 0 && !is_triple_quote(line) && line.len() > max {
        seq![warn_at(msg_line_too_long(line.len() as int, max), ln, max + 1)]
    } else {
        Seq::empty()
    }
}

/// The indentation check: fires when the leading-space run is nonzero, not a
/// multiple of four, and the line is not all whitespace.
pub open spec fn indent_diags(line: Seq<char>, ln: int) -> Seq<DiagnosticView> {
    let w = leading_spaces(line);
    if w > 0 && w % 4 != 0 && trimmed(line).len() != 0 {
        seq![warn_at(msg_indentation(w), ln, 1)]
    } else {
        Seq::empty()
    }
}

/// The tab check: fires at the 1-based column of the first tab character.
pub open spec fn tab_diags(line: Seq<char>, ln: int) -> Seq<DiagnosticView> {
    let t = first_ch(line, '\t');
    if t < line.len() {
        seq![warn_at(msg_tabs(), ln, t + 1)]
    } else {
        Seq::empty()
    }
}

/// The trailing-whitespace check: fires at the column immediately after the
/// content that remains when trailing whitespace is removed.
pub open spec fn trailing_diags(line: Seq<char>, ln: int) -> Seq<DiagnosticView> {
    let e = trim_end_idx(line);
    if e < line.len() {
        seq![warn_at(msg_trailing(), ln, e + 1)]
    } else {
        Seq::empty()
    }
}

/// All style diagnostics of one line, in check order: length, indentation,
/// tabs, trailing whitespace.
pub open spec fn line_diags(line: Seq<char>, ln: int, max: int) -> Seq<DiagnosticView> {
    length_diags(line, ln, max) + indent_diags(line, ln) + tab_diags(line, ln) + trailing_diags(
        line,
        ln,
    )
}

/// The style diagnostics of lines `k..`, numbering line `k` as `k + 1`.
pub open spec fn style_from(lines: Seq<Seq<char>>, k: int, max: int) -> Seq<DiagnosticView>
    decreases lines.len() - k,
{
    if k < 0 || k >= lines.len() {
        Seq::empty()
    } else {
        line_diags(lines[k], k + 1, max) + style_from(lines, k + 1, max)
    }
}

/// All style diagnostics of `text`, in line order.
pub open spec fn style_diags(text: Seq<char>, max: int) -> Seq<DiagnosticView> {
    style_from(spec_lines(text), 0, max)
}

/// The line/style checker configured at `max`: the value [`LineLength::new`]
/// returns.
pub closed spec fn line_length_with_max(max: usize) -> LineLength {
    LineLength { max_length: max }
}

pub proof fn lemma_line_length_with_max(max: usize)
    ensures
        line_length_with_max(max).max_spec() == max as int,
{
}

/// Whatever a line/style checker was configured with was a `usize`.
pub proof fn lemma_max_spec_nonneg(ll: LineLength)
    ensures
        ll.max_spec() >= 0,
{
}

impl LineLength {
    /// The maximum allowed line length in characters.
    pub closed spec fn max_spec(&self) -> int {
        self.max_length as int
    }

    pub fn new(max_length: usize) -> (r: LineLength)
        ensures
            r == line_length_with_max(max_length),
            r.max_spec() == max_length as int,
    {
        LineLength { max_length }
    }

    /// Run the four style checks over every line of `source`.
    pub fn check_text(&self, source: &str) -> (r: Vec<Diagnostic>)
        ensures
            diag_views(r@) == style_diags(source@, self.max_spec()),
    {
        let chars = str_to_chars(source);
        let lines = split_lines(&chars);
        let mut out: Vec<Diagnostic> = Vec::new();
        let n = lines.len();
        proof {
            assert(diag_views(out@) + style_from(line_views(lines@), 0, self.max_spec())
                =~= style_diags(source@, self.max_spec()));
        }
        let mut k: usize = 0;
        while k < n
            invariant
                n == lines@.len(),
                k <= n,
                diag_views(out@) + style_from(line_views(lines@), k as int, self.max_spec())
                    == style_diags(source@, self.max_spec()),
            decreases n - k,
        {
            let ghost before = diag_views(out@);
            self.check_line(&lines[k], k + 1, &mut out);
            proof {
                assert(diag_views(out@) + style_from(line_views(lines@), k + 1, self.max_spec())
                    =~= before + style_from(line_views(lines@), k as int, self.max_spec()));
            }
            k = k + 1;
        }
        out
    }

    /// Run the four style checks over one line.
    #[verifier::rlimit(60)]
    fn check_line(&self, line: &Vec<char>, ln: usize, out: &mut Vec<Diagnostic>)
        requires
            ln >= 1,
        ensures
            diag_views(final(out)@) == diag_views(old(out)@) + line_diags(
                line@,
                ln as int,
                self.max_spec(),
            ),
    {
        let ghost start = diag_views(out@);
        let (ts, te) = trim_bounds(line);
        proof {
            crate::strutil::lemma_trim_start(line@);
            crate::strutil::lemma_trim_end(line@);
        }
        let trimmed_empty = ts >= te;

        // Length check.
        if !trimmed_empty && line.len() > self.max_length {
            let triple = te - ts == 3 && line[ts] == '"' && line[ts + 1] == '"' && line[ts + 2]
                == '"';
            proof {
                if triple {
                    assert(trimmed(line@) =~= seq!['"', '"', '"']);
                } else {
                    assert(!is_triple_quote(line@));
                }
            }
            if !triple {
                let mut m = "Line too long (".to_owned();
                let a = usize_to_string(line.len());
                m.append(a.as_str());
                m.append(" > ");
                let b = usize_to_string(self.max_length);
                m.append(b.as_str());
                m.append(" characters)");
                let d = Diagnostic {
                    level: DiagnosticLevel::Warning,
                    message: m,
                    line: ln,
                    column: self.max_length + 1,
                    path: String::new(),
                };
                proof {
                    crate::linter::lemma_diag_views_push(out@, d);
                }
                out.push(d);
            }
        }
        proof {
            if trimmed_empty {
                assert(trimmed(line@).len() == 0);
            }
            assert(diag_views(out@) =~= start + length_diags(line@, ln as int, self.max_spec()));
        }
        let ghost after_len = diag_views(out@);

        // Indentation check.
        let w = count_leading_spaces(line);
        if w > 0 && w % 4 != 0 && !trimmed_empty {
            let mut m = "Indentation of ".to_owned();
            let a = usize_to_string(w);
            m.append(a.as_str());
            m.append(" spaces should be a multiple of 4");
            let d = Diagnostic {
                level: DiagnosticLevel::Warning,
                message: m,
                line: ln,
                column: 1,
                path: String::new(),
            };
            proof {
                crate::linter::lemma_diag_views_push(out@, d);
            }
            out.push(d);
        }
        proof {
            if trimmed_empty {
                assert(trimmed(line@).len() == 0);
            }
            assert(diag_views(out@) =~= after_len + indent_diags(line@, ln as int));
        }
        let ghost after_indent = diag_views(out@);

        // Tab check.
        let t = find_char_from(line, '\t', 0);
        proof {
            assert(line@.skip(0) =~= line@);
        }
        if t < line.len() {
            let d = Diagnostic {
                level: DiagnosticLevel::Warning,
                message: "Line contains tabs (use spaces instead)".to_owned(),
                line: ln,
                column: t + 1,
                path: String::new(),
            };
            proof {
                crate::linter::lemma_diag_views_push(out@, d);
            }
            out.push(d);
        }
        proof {
            assert(diag_views(out@) =~= after_indent + tab_diags(line@, ln as int));
        }
        let ghost after_tab = diag_views(out@);

        // Trailing-whitespace check.
        if te < line.len() {
            let d = Diagnostic {
                level: DiagnosticLevel::Warning,
                message: "Trailing whitespace".to_owned(),
                line: ln,
                column: te + 1,
                path: String::new(),
            };
            proof {
                crate::linter::lemma_diag_views_push(out@, d);
            }
            out.push(d);
        }
        proof {
            assert(diag_views(out@) =~= after_tab + trailing_diags(line@, ln as int));
            assert(diag_views(out@) =~= start + line_diags(line@, ln as int, self.max_spec()));
        }
    }

    /// The rule capability: style checks read only the raw text, never the
    /// tree.
    pub fn check(&self, _tree: &Program, source: &str) -> (r: Vec<Diagnostic>)
        ensures
            diag_views(r@) == style_diags(source@, self.max_spec()),
    {
        self.check_text(source)
    }
}

} // verus!
