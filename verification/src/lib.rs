//! A small static-analysis library for Python source files: it parses a file
//! into a syntax tree and evaluates independent diagnostic rules (style,
//! naming conventions, unused imports) against it, producing positioned
//! warnings and errors.

pub mod config;
pub mod laws;
pub mod linter;
pub mod parse;
pub mod rules;
pub mod strutil;
pub mod syntax;
