//! Syntax errors.
//!
//! Every failure of the parser is one [`SyntaxError`] variant carrying an
//! [`Error`]: a half-open `[start, end)` span of character offsets into the
//! input, and an optional description of the token that was expected.

use vstd::prelude::*;

verus! {

/// Mathematical value of an [`Error`]: a span and the expected token text.
pub struct SpecError {
    pub start: int,
    pub end: int,
    pub expected: Seq<char>,
}

/// Mathematical value of a [`SyntaxError`].
pub enum SpecSyntaxError {
    EmptyToken(SpecError),
    BadEscape(SpecError),
    BadInputExpression(SpecError),
    DuplicateAttribute(SpecError),
    DuplicateOptionName(SpecError),
    ExtraContent(SpecError),
    ParseError(SpecError),
    MissingSyntax(SpecError),
    InvalidCharacter(SpecError),
}

/// The span of a syntax error: character offsets `[start, end)` into the
/// input, and the text of the expected token (empty when none applies).
#[derive(Debug, Clone, PartialEq, Eq)]
pub struct Error {
    start: usize,
    end: usize,
    expected: String,
}

impl View for Error {
    type V = SpecError;

    closed spec fn view(&self) -> SpecError {
        SpecError { start: self.start as int, end: self.end as int, expected: self.expected@ }
    }
}

impl Error {
    /// Builds an error span; `end` defaults to `start + 1` and `expected`
    /// to the empty string.
    pub fn new(start: usize, end: Option<usize>, expected: Option<String>) -> (r: Self)
        requires
            start < usize::MAX,
        ensures
            r@ == (SpecError {
                start: start as int,
                end: (match end {
                    Some(e) => e as int,
                    None => start + 1,
                }),
                expected: (match expected {
                    Some(s) => s@,
                    None => Seq::<char>::empty(),
                }),
            }),
    {
        let e = match end {
            Some(e) => e,
            None => start + 1,
        };
        let x = match expected {
            Some(s) => s,
            None => String::new(),
        };
        Error { start, end: e, expected: x }
    }

    /// The first character offset of the span.
    pub fn start(&self) -> (r: usize)
        ensures
            r == self@.start,
    {
        self.start
    }

    /// One past the last character offset of the span.
    pub fn end(&self) -> (r: usize)
        ensures
            r == self@.end,
    {
        self.end
    }

    /// The expected token text; empty when none applies.
    pub fn expected(&self) -> (r: &String)
        ensures
            r@ == self@.expected,
    {
        &self.expected
    }
}

/// The closed set of ways a parse can fail.  Each variant carries the
/// span at which the input diverged from the grammar.
#[derive(Debug, Clone, PartialEq, Eq)]
pub enum SyntaxError {
    /// Required whitespace or a required value, name or key was absent.
    EmptyToken(Error),
    /// An illegal character followed `\` inside a quoted literal.
    BadEscape(Error),
    /// An `.input` declaration's value was not a bare variable expression.
    BadInputExpression(Error),
    /// The same attribute name was repeated on one expression or markup.
    DuplicateAttribute(Error),
    /// The same option name was repeated on one function or markup.
    DuplicateOptionName(Error),
    /// Non-whitespace content followed a quoted pattern's closing braces.
    ExtraContent(Error),
    /// An unrecognized keyword, sigil or unbalanced brace.
    ParseError(Error),
    /// An expected literal token was not found.
    MissingSyntax(Error),
    /// Reserved for character-level violations of the classifier rules.
    InvalidCharacter(Error),
}

impl View for SyntaxError {
    type V = SpecSyntaxError;

    open spec fn view(&self) -> SpecSyntaxError {
        match self {
            SyntaxError::EmptyToken(e) => SpecSyntaxError::EmptyToken(e@),
            SyntaxError::BadEscape(e) => SpecSyntaxError::BadEscape(e@),
            SyntaxError::BadInputExpression(e) => SpecSyntaxError::BadInputExpression(e@),
            SyntaxError::DuplicateAttribute(e) => SpecSyntaxError::DuplicateAttribute(e@),
            SyntaxError::DuplicateOptionName(e) => SpecSyntaxError::DuplicateOptionName(e@),
            SyntaxError::ExtraContent(e) => SpecSyntaxError::ExtraContent(e@),
            SyntaxError::ParseError(e) => SpecSyntaxError::ParseError(e@),
            SyntaxError::MissingSyntax(e) => SpecSyntaxError::MissingSyntax(e@),
            SyntaxError::InvalidCharacter(e) => SpecSyntaxError::InvalidCharacter(e@),
        }
    }
}

} // verus!
