//! A parser for the MessageFormat 2 (MF2) message syntax.
//!
//! The crate turns MF2 source text into a typed abstract syntax tree
//! following the Unicode MF2 data model: declarations, patterns,
//! expressions, markup, selectors and variants.  Parsing is a single
//! left-to-right pass over the input as a sequence of Unicode scalar
//! values; the first point of divergence from the grammar is reported
//! as a [`error::SyntaxError`] carrying a half-open character-offset
//! span.
//!
//! The grammar itself is written down once, mathematically, in
//! [`grammar`]; the executable parser in [`parser`] is proved to return
//! exactly what the mathematical grammar assigns to its input.

pub mod error;
pub mod grammar;
pub mod laws;
pub mod model;
pub mod parser;
pub mod printer;
pub mod validators;
