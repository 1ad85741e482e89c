//! The MF2 grammar, written mathematically.
//!
//! Every function here is a specification: it maps the input (a sequence
//! of Unicode scalar values) and a character position to the value that
//! production denotes there, together with the position after it, or to
//! the syntax error the grammar assigns.  The executable parser in
//! [`crate::parser`] is proved to return exactly these values.
//!
//! Positions are character indices.  Scanning past the end of the
//! input is never a fault: it resolves to a terminal error at the
//! input length.

use vstd::prelude::*;

use crate::error::SpecError;
use crate::error::SpecSyntaxError;
use crate::model::MarkupKind;
use crate::model::SpecAttributeEntry;
use crate::model::SpecCatchallKey;
use crate::model::SpecAttributeValue;
use crate::model::SpecDeclaration;
use crate::model::SpecExpression;
use crate::model::SpecFunctionExpression;
use crate::model::SpecFunctionRef;
use crate::model::SpecInputDeclaration;
use crate::model::SpecLiteral;
use crate::model::SpecLiteralExpression;
use crate::model::SpecLocalDeclaration;
use crate::model::SpecMarkup;
use crate::model::SpecMessage;
use crate::model::SpecOptionEntry;
use crate::model::SpecOptionValue;
use crate::model::SpecPatternItem;
use crate::model::SpecPatternMessage;
use crate::model::SpecSelectMessage;
use crate::model::SpecVariableExpression;
use crate::model::SpecVariableRef;
use crate::model::SpecVariant;
use crate::model::SpecVariantKey;
use crate::validators::spec_is_bidi_char;
use crate::validators::spec_is_name_char;
use crate::validators::spec_is_valid_name;
use crate::validators::spec_is_ws_char;
use crate::validators::spec_trim_tail;

verus! {

/// An error span of one character at `start`, with no expected token.
pub open spec fn err_at(start: int) -> SpecError {
    SpecError { start, end: start + 1, expected: Seq::empty() }
}

/// An error span `[start, end)` with no expected token.
pub open spec fn err_span(start: int, end: int) -> SpecError {
    SpecError { start, end, expected: Seq::empty() }
}

/// An error span of one character at `start`, expecting the token `tok`.
pub open spec fn err_expect(start: int, tok: Seq<char>) -> SpecError {
    SpecError { start, end: start + 1, expected: tok }
}

// ---------------------------------------------------------------------------
// Whitespace and tokens
// ---------------------------------------------------------------------------

/// The position after the run of whitespace and bidi controls at `pos`.
pub open spec fn ws_end(src: Seq<char>, pos: int) -> int
    recommends
        0 <= pos <= src.len(),
    decreases src.len() - pos,
{
    if pos < src.len() && (spec_is_ws_char(src[pos]) || spec_is_bidi_char(src[pos])) {
        ws_end(src, pos + 1)
    } else {
        pos
    }
}

/// Whether the run of whitespace and bidi controls at `pos` contains at
/// least one real whitespace character (not merely bidi controls).
pub open spec fn ws_has_real(src: Seq<char>, pos: int) -> bool
    recommends
        0 <= pos <= src.len(),
    decreases src.len() - pos,
{
    if pos < src.len() && (spec_is_ws_char(src[pos]) || spec_is_bidi_char(src[pos])) {
        spec_is_ws_char(src[pos]) || ws_has_real(src, pos + 1)
    } else {
        false
    }
}

/// The position after the run of bidi controls at `pos`.
pub open spec fn bidi_end(src: Seq<char>, pos: int) -> int
    recommends
        0 <= pos <= src.len(),
    decreases src.len() - pos,
{
    if pos < src.len() && spec_is_bidi_char(src[pos]) {
        bidi_end(src, pos + 1)
    } else {
        pos
    }
}

pub proof fn lemma_ws_end(src: Seq<char>, pos: int)
    requires
        0 <= pos <= src.len(),
    ensures
        pos <= ws_end(src, pos) <= src.len(),
    decreases src.len() - pos,
{
    if pos < src.len() && (spec_is_ws_char(src[pos]) || spec_is_bidi_char(src[pos])) {
        lemma_ws_end(src, pos + 1);
    }
}

pub proof fn lemma_bidi_end(src: Seq<char>, pos: int)
    requires
        0 <= pos <= src.len(),
    ensures
        pos <= bidi_end(src, pos) <= src.len(),
    decreases src.len() - pos,
{
    if pos < src.len() && spec_is_bidi_char(src[pos]) {
        lemma_bidi_end(src, pos + 1);
    }
}

/// Mandatory whitespace: the separator at `pos` must contain real
/// whitespace; a run of bidi controls alone, or nothing, is an
/// `EmptyToken` error after the run.
pub open spec fn spec_skip_ws_required(src: Seq<char>, pos: int) -> Result<int, SpecSyntaxError>
    recommends
        0 <= pos <= src.len(),
{
    let e = ws_end(src, pos);
    if ws_has_real(src, pos) {
        Ok(e)
    } else {
        Err(SpecSyntaxError::EmptyToken(err_at(e)))
    }
}

/// Conditionally mandatory whitespace: as [`spec_skip_ws_required`],
/// except that the separator may be absent when the first character after
/// the run is one of `expected` (or the input ends there).
pub open spec fn spec_skip_ws_cond(src: Seq<char>, pos: int, expected: Seq<char>) -> Result<
    int,
    SpecSyntaxError,
>
    recommends
        0 <= pos <= src.len(),
{
    let e = ws_end(src, pos);
    if e < src.len() && expected.contains(src[e]) {
        Ok(e)
    } else if ws_has_real(src, pos) {
        Ok(e)
    } else {
        Err(SpecSyntaxError::EmptyToken(err_at(e)))
    }
}

/// The length of the longest prefix of `tok` that matches `src` at `pos`;
/// equals `tok.len()` exactly when the whole token matches.
pub open spec fn match_len(src: Seq<char>, pos: int, tok: Seq<char>) -> int
    decreases tok.len(),
{
    if tok.len() == 0 {
        0
    } else if 0 <= pos < src.len() && src[pos] == tok[0] {
        1 + match_len(src, pos + 1, tok.skip(1))
    } else {
        0
    }
}

/// Whether the token `tok` occurs in `src` at position `pos`.
pub open spec fn token_at(src: Seq<char>, pos: int, tok: Seq<char>) -> bool {
    match_len(src, pos, tok) == tok.len()
}

/// Expecting the literal token `tok` at `pos`: on a mismatch, a
/// `MissingSyntax` error at the exact offset of the first divergent
/// character, carrying the expected token.
pub open spec fn spec_expect(src: Seq<char>, pos: int, tok: Seq<char>) -> Result<
    (),
    SpecSyntaxError,
> {
    if token_at(src, pos, tok) {
        Ok(())
    } else {
        Err(SpecSyntaxError::MissingSyntax(err_expect(pos + match_len(src, pos, tok), tok)))
    }
}

pub proof fn lemma_match_len(src: Seq<char>, pos: int, tok: Seq<char>)
    ensures
        0 <= match_len(src, pos, tok) <= tok.len(),
    decreases tok.len(),
{
    if tok.len() > 0 && 0 <= pos < src.len() && src[pos] == tok[0] {
        lemma_match_len(src, pos + 1, tok.skip(1));
    }
}

/// A scan that matched the first `i` characters of `tok` bounds the
/// match length from below.
pub proof fn lemma_match_len_at_least(src: Seq<char>, pos: int, tok: Seq<char>, i: int)
    requires
        0 <= pos,
        0 <= i <= tok.len(),
        pos + i <= src.len(),
        src.subrange(pos, pos + i) == tok.subrange(0, i),
    ensures
        match_len(src, pos, tok) >= i,
    decreases i,
{
    lemma_match_len(src, pos, tok);
    if i > 0 {
        assert(src[pos] == tok[0]) by {
            assert(src.subrange(pos, pos + i)[0] == src[pos]);
            assert(tok.subrange(0, i)[0] == tok[0]);
            assert(src.subrange(pos, pos + i)[0] == tok.subrange(0, i)[0]);
        }
        assert(src.subrange(pos + 1, pos + i) =~= src.subrange(pos, pos + i).subrange(1, i));
        assert(tok.skip(1).subrange(0, i - 1) =~= tok.subrange(0, i).subrange(1, i));
        lemma_match_len_at_least(src, pos + 1, tok.skip(1), i - 1);
    }
}

/// A scan that matched the first `i` characters of `tok` and then
/// diverged (or ran out of input) determines the match length exactly.
pub proof fn lemma_match_len_stops(src: Seq<char>, pos: int, tok: Seq<char>, i: int)
    requires
        0 <= pos,
        0 <= i < tok.len(),
        pos + i <= src.len(),
        src.subrange(pos, pos + i) == tok.subrange(0, i),
        !(pos + i < src.len() && src[pos + i] == tok[i]),
    ensures
        match_len(src, pos, tok) == i,
    decreases i,
{
    if i > 0 {
        assert(src[pos] == tok[0]) by {
            assert(src.subrange(pos, pos + i)[0] == src[pos]);
            assert(tok.subrange(0, i)[0] == tok[0]);
            assert(src.subrange(pos, pos + i)[0] == tok.subrange(0, i)[0]);
        }
        assert(src.subrange(pos + 1, pos + i) =~= src.subrange(pos, pos + i).subrange(1, i));
        assert(tok.skip(1).subrange(0, i - 1) =~= tok.subrange(0, i).subrange(1, i));
        assert(tok.skip(1)[i - 1] == tok[i]);
        lemma_match_len_stops(src, pos + 1, tok.skip(1), i - 1);
    }
}

/// A token match reaches only characters `src[pos..pos+tok.len())`.
pub proof fn lemma_token_at_chars(src: Seq<char>, pos: int, tok: Seq<char>)
    requires
        0 <= pos <= src.len(),
        token_at(src, pos, tok),
    ensures
        pos + tok.len() <= src.len(),
        forall|i: int| 0 <= i < tok.len() ==> src[pos + i] == tok[i],
    decreases tok.len(),
{
    if tok.len() > 0 {
        lemma_token_at_chars(src, pos + 1, tok.skip(1));
        assert forall|i: int| 0 <= i < tok.len() implies src[pos + i] == tok[i] by {
            if i > 0 {
                assert(tok.skip(1)[i - 1] == tok[i]);
            }
        }
    }
}

// ---------------------------------------------------------------------------
// Names and identifiers
// ---------------------------------------------------------------------------

/// The end of the greedy run of name characters at `pos`.
pub open spec fn name_run_end(src: Seq<char>, pos: int) -> int
    recommends
        0 <= pos <= src.len(),
    decreases src.len() - pos,
{
    if pos < src.len() && spec_is_name_char(src[pos]) {
        name_run_end(src, pos + 1)
    } else {
        pos
    }
}

pub proof fn lemma_name_run_end(src: Seq<char>, pos: int)
    requires
        0 <= pos <= src.len(),
    ensures
        pos <= name_run_end(src, pos) <= src.len(),
    decreases src.len() - pos,
{
    if pos < src.len() && spec_is_name_char(src[pos]) {
        lemma_name_run_end(src, pos + 1);
    }
}

/// A name token scan: leading bidi controls are skipped, the greedy run
/// of name characters is read, its trailing whitespace/bidi run is
/// trimmed, and the result is kept only if it is a well-formed name.
/// The position moves past the scanned run whether or not it was valid.
pub open spec fn spec_name_value(src: Seq<char>, pos: int) -> (Option<Seq<char>>, int)
    recommends
        0 <= pos <= src.len(),
{
    let b = bidi_end(src, pos);
    let e = name_run_end(src, b);
    let v = spec_trim_tail(src.subrange(b, e));
    (if spec_is_valid_name(v) {
        Some(v)
    } else {
        None
    }, e)
}

/// A required name: an invalid or absent name token is an `EmptyToken`
/// error after the scanned run.
pub open spec fn spec_parse_name(src: Seq<char>, pos: int) -> Result<
    (Seq<char>, int),
    SpecSyntaxError,
>
    recommends
        0 <= pos <= src.len(),
{
    let (v, e) = spec_name_value(src, pos);
    match v {
        Some(name) => Ok((name, e)),
        None => Err(SpecSyntaxError::EmptyToken(err_at(e))),
    }
}

pub proof fn lemma_name_value(src: Seq<char>, pos: int)
    requires
        0 <= pos <= src.len(),
    ensures
        pos <= spec_name_value(src, pos).1 <= src.len(),
{
    lemma_bidi_end(src, pos);
    lemma_name_run_end(src, bidi_end(src, pos));
}

pub proof fn lemma_parse_name(src: Seq<char>, pos: int)
    requires
        0 <= pos <= src.len(),
    ensures
        spec_parse_name(src, pos) matches Ok((n, p)) ==> pos <= p <= src.len(),
{
    lemma_name_value(src, pos);
}

/// An identifier: a name, optionally followed by `:` and a second name,
/// joined with the `:` preserved.
pub open spec fn spec_parse_identifier(src: Seq<char>, pos: int) -> Result<
    (Seq<char>, int),
    SpecSyntaxError,
>
    recommends
        0 <= pos <= src.len(),
{
    match spec_parse_name(src, pos) {
        Err(e) => Err(e),
        Ok((name, p1)) => if p1 < src.len() && src[p1] == ':' {
            match spec_parse_name(src, p1 + 1) {
                Err(e) => Err(e),
                Ok((name2, p2)) => Ok((name + seq![':'] + name2, p2)),
            }
        } else {
            Ok((name, p1))
        },
    }
}

pub proof fn lemma_parse_identifier(src: Seq<char>, pos: int)
    requires
        0 <= pos <= src.len(),
    ensures
        spec_parse_identifier(src, pos) matches Ok((n, p)) ==> pos <= p <= src.len(),
{
    lemma_parse_name(src, pos);
    if let Ok((name, p1)) = spec_parse_name(src, pos) {
        lemma_name_value(src, pos);
        if p1 < src.len() && src[p1] == ':' {
            lemma_parse_name(src, p1 + 1);
        }
    }
}

/// A variable reference: the `$` at `pos` followed by a required name.
pub open spec fn spec_parse_variable(src: Seq<char>, pos: int) -> Result<
    (SpecVariableRef, int),
    SpecSyntaxError,
>
    recommends
        0 <= pos < src.len(),
        src[pos] == '$',
{
    match spec_parse_name(src, pos + 1) {
        Err(e) => Err(e),
        Ok((name, p)) => Ok((SpecVariableRef { name }, p)),
    }
}

pub proof fn lemma_parse_variable(src: Seq<char>, pos: int)
    requires
        0 <= pos < src.len(),
    ensures
        spec_parse_variable(src, pos) matches Ok((v, p)) ==> pos < p <= src.len(),
{
    lemma_parse_name(src, pos + 1);
}

// ---------------------------------------------------------------------------
// Literals
// ---------------------------------------------------------------------------

/// The characters that may follow `\` inside a quoted literal.
pub open spec fn spec_is_escapable(c: char) -> bool {
    c == '{' || c == '}' || c == '|' || c == '\\'
}

/// The body of a quoted literal from `pos` on, given the text `acc`
/// accumulated so far.  Escapes are preserved verbatim; a bad escape is a
/// `BadEscape` spanning the two characters; an unterminated literal
/// (including one ending in a lone `\`) is `MissingSyntax` at the input
/// length, expecting `|`.
pub open spec fn spec_quoted_rest(src: Seq<char>, pos: int, acc: Seq<char>) -> Result<
    (Seq<char>, int),
    SpecSyntaxError,
>
    recommends
        0 <= pos <= src.len(),
    decreases src.len() - pos,
{
    if pos >= src.len() {
        Err(SpecSyntaxError::MissingSyntax(err_expect(src.len() as int, seq!['|'])))
    } else if src[pos] == '\\' {
        if pos + 1 < src.len() && spec_is_escapable(src[pos + 1]) {
            spec_quoted_rest(src, pos + 2, acc + seq!['\\', src[pos + 1]])
        } else if pos + 1 >= src.len() {
            Err(SpecSyntaxError::MissingSyntax(err_expect(src.len() as int, seq!['|'])))
        } else {
            Err(SpecSyntaxError::BadEscape(err_span(pos, pos + 2)))
        }
    } else if src[pos] == '|' {
        Ok((acc, pos + 1))
    } else {
        spec_quoted_rest(src, pos + 1, acc.push(src[pos]))
    }
}

/// A quoted literal: the `|` at `pos`, its body, and the closing `|`.
pub open spec fn spec_parse_quoted_literal(src: Seq<char>, pos: int) -> Result<
    (Seq<char>, int),
    SpecSyntaxError,
>
    recommends
        0 <= pos < src.len(),
        src[pos] == '|',
{
    spec_quoted_rest(src, pos + 1, Seq::empty())
}

pub proof fn lemma_quoted_rest(src: Seq<char>, pos: int, acc: Seq<char>)
    requires
        0 <= pos <= src.len(),
    ensures
        spec_quoted_rest(src, pos, acc) matches Ok((v, p)) ==> pos < p <= src.len(),
    decreases src.len() - pos,
{
    if pos < src.len() {
        if src[pos] == '\\' {
            if pos + 1 < src.len() && spec_is_escapable(src[pos + 1]) {
                lemma_quoted_rest(src, pos + 2, acc + seq!['\\', src[pos + 1]]);
            }
        } else if src[pos] != '|' {
            lemma_quoted_rest(src, pos + 1, acc.push(src[pos]));
        }
    }
}

/// A literal at `pos`: quoted if it opens with `|`, else the greedy run
/// of name characters.  An empty run is an `EmptyToken` error when the
/// literal is required, and the absence signal `None` otherwise.
pub open spec fn spec_parse_literal(src: Seq<char>, pos: int, required: bool) -> Result<
    (Option<SpecLiteral>, int),
    SpecSyntaxError,
>
    recommends
        0 <= pos <= src.len(),
{
    if pos < src.len() && src[pos] == '|' {
        match spec_parse_quoted_literal(src, pos) {
            Err(e) => Err(e),
            Ok((v, p)) => Ok((Some(SpecLiteral { value: v }), p)),
        }
    } else {
        let e = name_run_end(src, pos);
        if e == pos {
            if required {
                Err(SpecSyntaxError::EmptyToken(err_at(pos)))
            } else {
                Ok((None, pos))
            }
        } else {
            Ok((Some(SpecLiteral { value: src.subrange(pos, e) }), e))
        }
    }
}

pub proof fn lemma_parse_literal(src: Seq<char>, pos: int, required: bool)
    requires
        0 <= pos <= src.len(),
    ensures
        spec_parse_literal(src, pos, required) matches Ok((v, p)) ==> pos <= p <= src.len() && (
        v is Some ==> pos < p),
{
    if pos < src.len() && src[pos] == '|' {
        lemma_quoted_rest(src, pos + 1, Seq::empty());
    } else {
        lemma_name_run_end(src, pos);
    }
}

// ---------------------------------------------------------------------------
// Values
// ---------------------------------------------------------------------------

/// The operand position of an expression: a variable reference, a
/// literal, or nothing.
pub enum SpecValue {
    Lit(SpecLiteral),
    Var(SpecVariableRef),
    Absent,
}

/// The optional value at the head of an expression: `$name`, a literal,
/// or nothing (an error if `required`).
pub open spec fn spec_parse_value(src: Seq<char>, pos: int, required: bool) -> Result<
    (SpecValue, int),
    SpecSyntaxError,
>
    recommends
        0 <= pos <= src.len(),
{
    if pos < src.len() && src[pos] == '$' {
        match spec_parse_variable(src, pos) {
            Err(e) => Err(e),
            Ok((v, p)) => Ok((SpecValue::Var(v), p)),
        }
    } else {
        match spec_parse_literal(src, pos, required) {
            Err(e) => Err(e),
            Ok((None, p)) => if required {
                Err(SpecSyntaxError::EmptyToken(err_at(pos)))
            } else {
                Ok((SpecValue::Absent, p))
            },
            Ok((Some(l), p)) => Ok((SpecValue::Lit(l), p)),
        }
    }
}

pub proof fn lemma_parse_value(src: Seq<char>, pos: int, required: bool)
    requires
        0 <= pos <= src.len(),
    ensures
        spec_parse_value(src, pos, required) matches Ok((v, p)) ==> pos <= p <= src.len() && (!(v
            is Absent) ==> pos < p),
{
    if pos < src.len() && src[pos] == '$' {
        lemma_parse_variable(src, pos);
    } else {
        lemma_parse_literal(src, pos, required);
    }
}

// ---------------------------------------------------------------------------
// Options and attributes
// ---------------------------------------------------------------------------

/// Whether an option list already holds an entry named `name`.
pub open spec fn options_have_name(s: Seq<SpecOptionEntry>, name: Seq<char>) -> bool {
    exists|i: int| 0 <= i < s.len() && s[i].name == name
}

/// Whether an attribute list already holds an entry named `name`.
pub open spec fn attributes_have_name(s: Seq<SpecAttributeEntry>, name: Seq<char>) -> bool {
    exists|i: int| 0 <= i < s.len() && s[i].name == name
}

/// An option list, or the empty list when none was collected.
pub open spec fn or_empty_options(o: Option<Seq<SpecOptionEntry>>) -> Seq<SpecOptionEntry> {
    match o {
        Some(s) => s,
        None => Seq::empty(),
    }
}

/// An attribute list, or the empty list when none was collected.
pub open spec fn or_empty_attributes(a: Option<Seq<SpecAttributeEntry>>) -> Seq<
    SpecAttributeEntry,
> {
    match a {
        Some(s) => s,
        None => Seq::empty(),
    }
}

/// The `identifier = value` pairs from `pos` up to the first `/`, `}` or
/// `@` (or end of input), given the entries `acc` collected so far.  A
/// name repeated within one list is a `DuplicateOptionName` error
/// spanning the repeated identifier; pairs are separated by whitespace
/// that is mandatory unless `/` or `}` follows directly.
pub open spec fn spec_options_loop(src: Seq<char>, pos: int, acc: Seq<SpecOptionEntry>) -> Result<
    (Seq<SpecOptionEntry>, int),
    SpecSyntaxError,
>
    decreases src.len() - pos,
    when 0 <= pos <= src.len()
    via options_loop_decreases
{
    if pos >= src.len() {
        Ok((acc, pos))
    } else if src[pos] == '/' || src[pos] == '}' || src[pos] == '@' {
        Ok((acc, pos))
    } else {
        match spec_parse_identifier(src, pos) {
            Err(e) => Err(e),
            Ok((name, p1)) => if options_have_name(acc, name) {
                Err(SpecSyntaxError::DuplicateOptionName(err_span(pos, p1)))
            } else {
                let p2 = ws_end(src, p1);
                match spec_expect(src, p2, seq!['=']) {
                    Err(e) => Err(e),
                    Ok(_) => {
                        let p4 = ws_end(src, p2 + 1);
                        match spec_parse_value(src, p4, true) {
                            Err(e) => Err(e),
                            Ok((v, p5)) => match v {
                                SpecValue::Absent => Err(
                                    SpecSyntaxError::EmptyToken(err_at(p5)),
                                ),
                                _ => {
                                    let value = match v {
                                        SpecValue::Lit(l) => SpecOptionValue::Literal(l),
                                        SpecValue::Var(vr) => SpecOptionValue::VariableRef(vr),
                                        SpecValue::Absent => SpecOptionValue::Literal(
                                            SpecLiteral { value: Seq::empty() },
                                        ),
                                    };
                                    match spec_skip_ws_cond(src, p5, seq!['/', '}']) {
                                        Err(e) => Err(e),
                                        Ok(p6) => spec_options_loop(
                                            src,
                                            p6,
                                            acc.push(SpecOptionEntry { name, value }),
                                        ),
                                    }
                                },
                            },
                        }
                    },
                }
            },
        }
    }
}

#[via_fn]
proof fn options_loop_decreases(src: Seq<char>, pos: int, acc: Seq<SpecOptionEntry>) {
    if 0 <= pos <= src.len() {
        lemma_parse_identifier(src, pos);
        if let Ok((name, p1)) = spec_parse_identifier(src, pos) {
            lemma_ws_end(src, p1);
            let p2: int = ws_end(src, p1);
            if token_at(src, p2, seq!['=']) {
                lemma_token_at_chars(src, p2, seq!['=']);
                lemma_ws_end(src, p2 + 1);
                let p4: int = ws_end(src, p2 + 1);
                lemma_parse_value(src, p4, true);
                if let Ok((v, p5)) = spec_parse_value(src, p4, true) {
                    lemma_ws_end(src, p5);
                }
            }
        }
    }
}

pub proof fn lemma_options_loop(src: Seq<char>, pos: int, acc: Seq<SpecOptionEntry>)
    requires
        0 <= pos <= src.len(),
    ensures
        spec_options_loop(src, pos, acc) matches Ok((o, p)) ==> pos <= p <= src.len(),
    decreases src.len() - pos,
{
    if pos < src.len() && !(src[pos] == '/' || src[pos] == '}' || src[pos] == '@') {
        lemma_parse_identifier(src, pos);
        if let Ok((name, p1)) = spec_parse_identifier(src, pos) {
            lemma_ws_end(src, p1);
            let p2: int = ws_end(src, p1);
            if token_at(src, p2, seq!['=']) {
                lemma_token_at_chars(src, p2, seq!['=']);
                lemma_ws_end(src, p2 + 1);
                let p4: int = ws_end(src, p2 + 1);
                lemma_parse_value(src, p4, true);
                if let Ok((v, p5)) = spec_parse_value(src, p4, true) {
                    lemma_ws_end(src, p5);
                    let p6: int = ws_end(src, p5);
                    if !(v is Absent) && !options_have_name(acc, name) {
                        let value = match v {
                            SpecValue::Lit(l) => SpecOptionValue::Literal(l),
                            SpecValue::Var(vr) => SpecOptionValue::VariableRef(vr),
                            SpecValue::Absent => SpecOptionValue::Literal(
                                SpecLiteral { value: Seq::empty() },
                            ),
                        };
                        lemma_options_loop(src, p6, acc.push(SpecOptionEntry { name, value }));
                    }
                }
            }
        }
    }
}

/// The option list of a function or markup: conditionally mandatory
/// leading whitespace, then the pairs; `None` when no pair was collected.
pub open spec fn spec_parse_options(src: Seq<char>, pos: int) -> Result<
    (Option<Seq<SpecOptionEntry>>, int),
    SpecSyntaxError,
>
    recommends
        0 <= pos <= src.len(),
{
    match spec_skip_ws_cond(src, pos, seq!['/', '}']) {
        Err(e) => Err(e),
        Ok(p1) => match spec_options_loop(src, p1, Seq::empty()) {
            Err(e) => Err(e),
            Ok((opts, p2)) => Ok(
                ((if opts.len() == 0 {
                    None
                } else {
                    Some(opts)
                }), p2),
            ),
        },
    }
}

pub proof fn lemma_parse_options(src: Seq<char>, pos: int)
    requires
        0 <= pos <= src.len(),
    ensures
        spec_parse_options(src, pos) matches Ok((o, p)) ==> pos <= p <= src.len(),
{
    lemma_ws_end(src, pos);
    lemma_options_loop(src, ws_end(src, pos), Seq::empty());
}

/// The attribute list from `pos` on: each attribute is `@identifier`,
/// optionally `= literal`, with a repeated name a `DuplicateAttribute`
/// error spanning from the `@` over the repeated identifier.
pub open spec fn spec_attributes_loop(
    src: Seq<char>,
    pos: int,
    acc: Seq<SpecAttributeEntry>,
) -> Result<(Seq<SpecAttributeEntry>, int), SpecSyntaxError>
    decreases src.len() - pos,
    when 0 <= pos <= src.len()
    via attributes_loop_decreases
{
    if pos < src.len() && src[pos] == '@' {
        match spec_parse_identifier(src, pos + 1) {
            Err(e) => Err(e),
            Ok((name, p1)) => if attributes_have_name(acc, name) {
                Err(SpecSyntaxError::DuplicateAttribute(err_span(pos, p1)))
            } else {
                match spec_skip_ws_cond(src, p1, seq!['=', '/', '}']) {
                    Err(e) => Err(e),
                    Ok(p2) => if p2 < src.len() && src[p2] == '=' {
                        let p4 = ws_end(src, p2 + 1);
                        match spec_parse_literal(src, p4, true) {
                            Err(e) => Err(e),
                            Ok((Some(l), p5)) => spec_attributes_loop(
                                src,
                                p5,
                                acc.push(
                                    SpecAttributeEntry {
                                        name,
                                        value: SpecAttributeValue::Literal(l.value),
                                    },
                                ),
                            ),
                            Ok((None, p5)) => Err(SpecSyntaxError::EmptyToken(err_at(p5))),
                        }
                    } else {
                        spec_attributes_loop(
                            src,
                            p2,
                            acc.push(
                                SpecAttributeEntry { name, value: SpecAttributeValue::True(true) },
                            ),
                        )
                    },
                }
            },
        }
    } else {
        Ok((acc, pos))
    }
}

#[via_fn]
proof fn attributes_loop_decreases(src: Seq<char>, pos: int, acc: Seq<SpecAttributeEntry>) {
    if 0 <= pos < src.len() {
        lemma_parse_identifier(src, pos + 1);
        if let Ok((name, p1)) = spec_parse_identifier(src, pos + 1) {
            lemma_ws_end(src, p1);
            let p2: int = ws_end(src, p1);
            if p2 < src.len() && src[p2] == '=' {
                lemma_ws_end(src, p2 + 1);
                let p4: int = ws_end(src, p2 + 1);
                lemma_parse_literal(src, p4, true);
            }
        }
    }
}

pub proof fn lemma_attributes_loop(src: Seq<char>, pos: int, acc: Seq<SpecAttributeEntry>)
    requires
        0 <= pos <= src.len(),
    ensures
        spec_attributes_loop(src, pos, acc) matches Ok((a, p)) ==> pos <= p <= src.len(),
    decreases src.len() - pos,
{
    if pos < src.len() && src[pos] == '@' {
        lemma_parse_identifier(src, pos + 1);
        if let Ok((name, p1)) = spec_parse_identifier(src, pos + 1) {
            lemma_ws_end(src, p1);
            let p2: int = ws_end(src, p1);
            if !attributes_have_name(acc, name) {
                if p2 < src.len() && src[p2] == '=' {
                    lemma_ws_end(src, p2 + 1);
                    let p4: int = ws_end(src, p2 + 1);
                    lemma_parse_literal(src, p4, true);
                    if let Ok((Some(l), p5)) = spec_parse_literal(src, p4, true) {
                        lemma_attributes_loop(
                            src,
                            p5,
                            acc.push(
                                SpecAttributeEntry {
                                    name,
                                    value: SpecAttributeValue::Literal(l.value),
                                },
                            ),
                        );
                    }
                } else {
                    lemma_attributes_loop(
                        src,
                        p2,
                        acc.push(SpecAttributeEntry { name, value: SpecAttributeValue::True(true) }),
                    );
                }
            }
        }
    }
}

/// The attribute list of an expression or markup; `None` when no
/// attribute was collected.
pub open spec fn spec_parse_attributes(src: Seq<char>, pos: int) -> Result<
    (Option<Seq<SpecAttributeEntry>>, int),
    SpecSyntaxError,
>
    recommends
        0 <= pos <= src.len(),
{
    match spec_attributes_loop(src, pos, Seq::empty()) {
        Err(e) => Err(e),
        Ok((attrs, p)) => Ok(
            ((if attrs.len() == 0 {
                None
            } else {
                Some(attrs)
            }), p),
        ),
    }
}

pub proof fn lemma_parse_attributes(src: Seq<char>, pos: int)
    requires
        0 <= pos <= src.len(),
    ensures
        spec_parse_attributes(src, pos) matches Ok((a, p)) ==> pos <= p <= src.len(),
{
    lemma_attributes_loop(src, pos, Seq::empty());
}

// ---------------------------------------------------------------------------
// Expressions and markup
// ---------------------------------------------------------------------------

/// What a `{ ... }` placeholder denotes: an expression or a markup.
pub enum SpecExprOrMarkup {
    Expression(SpecExpression),
    Markup(SpecMarkup),
}

/// The tail of an expression placeholder after its value and optional
/// function reference: attributes, the closing `}`, and composition.
/// An expression with neither value nor function is an `EmptyToken`
/// error at the placeholder's start.
pub open spec fn spec_finish_expression(
    src: Seq<char>,
    start: int,
    arg: SpecValue,
    func: Option<SpecFunctionRef>,
    pos: int,
) -> Result<(SpecExprOrMarkup, int), SpecSyntaxError>
    recommends
        0 <= pos <= src.len(),
{
    match spec_parse_attributes(src, pos) {
        Err(e) => Err(e),
        Ok((attrs, p1)) => match spec_expect(src, p1, seq!['}']) {
            Err(e) => Err(e),
            Ok(_) => {
                let a = or_empty_attributes(attrs);
                match arg {
                    SpecValue::Lit(l) => Ok(
                        (
                            SpecExprOrMarkup::Expression(
                                SpecExpression::Literal(
                                    SpecLiteralExpression { arg: l, function: func, attributes: a },
                                ),
                            ),
                            p1 + 1,
                        ),
                    ),
                    SpecValue::Var(v) => Ok(
                        (
                            SpecExprOrMarkup::Expression(
                                SpecExpression::Variable(
                                    SpecVariableExpression {
                                        arg: v,
                                        function: func,
                                        attributes: a,
                                    },
                                ),
                            ),
                            p1 + 1,
                        ),
                    ),
                    SpecValue::Absent => match func {
                        None => Err(SpecSyntaxError::EmptyToken(err_at(start))),
                        Some(f) => Ok(
                            (
                                SpecExprOrMarkup::Expression(
                                    SpecExpression::Function(
                                        SpecFunctionExpression { function: f, attributes: a },
                                    ),
                                ),
                                p1 + 1,
                            ),
                        ),
                    },
                }
            },
        },
    }
}

/// The tail of a markup placeholder after its identifier and options:
/// attributes, reclassification of `{#tag ... /}` as stand-alone, and
/// the closing `}`.
pub open spec fn spec_finish_markup(
    src: Seq<char>,
    name: Seq<char>,
    kind: MarkupKind,
    opts: Option<Seq<SpecOptionEntry>>,
    pos: int,
) -> Result<(SpecExprOrMarkup, int), SpecSyntaxError>
    recommends
        0 <= pos <= src.len(),
{
    match spec_parse_attributes(src, pos) {
        Err(e) => Err(e),
        Ok((attrs, p1)) => {
            let slash = kind == MarkupKind::Open && p1 < src.len() && src[p1] == '/';
            let kind2 = if slash {
                MarkupKind::StandAlone
            } else {
                kind
            };
            let p2 = if slash {
                p1 + 1
            } else {
                p1
            };
            match spec_expect(src, p2, seq!['}']) {
                Err(e) => Err(e),
                Ok(_) => Ok(
                    (
                        SpecExprOrMarkup::Markup(
                            SpecMarkup {
                                name,
                                kind: kind2,
                                options: or_empty_options(opts),
                                attributes: or_empty_attributes(attrs),
                            },
                        ),
                        p2 + 1,
                    ),
                ),
            }
        },
    }
}

/// A `{ ... }` placeholder at `pos`: an optional value, then a function
/// (`:`), markup (`#` or `/`, only where markup is allowed and no value
/// was read), or nothing, then attributes and the closing `}`.  After a
/// value, whitespace is mandatory unless `}` follows directly.
///
/// The definition is opaque: it is large, and the productions built on
/// top of it need only its value, so proofs reveal it in one place
/// instead of unfolding it at every mention.
#[verifier::opaque]
pub open spec fn spec_parse_expression_or_markup(src: Seq<char>, pos: int, allow_markup: bool) -> Result<
    (SpecExprOrMarkup, int),
    SpecSyntaxError,
>
    recommends
        0 <= pos < src.len(),
        src[pos] == '{',
{
    let p1 = ws_end(src, pos + 1);
    match spec_parse_value(src, p1, false) {
        Err(e) => Err(e),
        Ok((arg, p2)) => {
            let ws = if !(arg is Absent) {
                spec_skip_ws_cond(src, p2, seq!['}'])
            } else {
                Ok(p2)
            };
            match ws {
                Err(e) => Err(e),
                Ok(p3) => if p3 >= src.len() {
                    Err(SpecSyntaxError::MissingSyntax(err_expect(src.len() as int, seq!['}'])))
                } else if src[p3] == '@' || src[p3] == '}' {
                    spec_finish_expression(src, pos, arg, None, p3)
                } else if src[p3] == ':' {
                    match spec_parse_identifier(src, p3 + 1) {
                        Err(e) => Err(e),
                        Ok((fname, p4)) => match spec_parse_options(src, p4) {
                            Err(e) => Err(e),
                            Ok((opts, p5)) => spec_finish_expression(
                                src,
                                pos,
                                arg,
                                Some(
                                    SpecFunctionRef { name: fname, options: or_empty_options(opts) },
                                ),
                                p5,
                            ),
                        },
                    }
                } else if src[p3] == '#' || src[p3] == '/' {
                    if !allow_markup || !(arg is Absent) {
                        Err(SpecSyntaxError::ParseError(err_at(pos)))
                    } else {
                        let kind = if src[p3] == '#' {
                            MarkupKind::Open
                        } else {
                            MarkupKind::Close
                        };
                        match spec_parse_identifier(src, p3 + 1) {
                            Err(e) => Err(e),
                            Ok((mname, p4)) => match spec_parse_options(src, p4) {
                                Err(e) => Err(e),
                                Ok((opts, p5)) => spec_finish_markup(src, mname, kind, opts, p5),
                            },
                        }
                    }
                } else {
                    Err(SpecSyntaxError::ParseError(err_at(p3)))
                },
            }
        },
    }
}

pub proof fn lemma_finish_expression(
    src: Seq<char>,
    start: int,
    arg: SpecValue,
    func: Option<SpecFunctionRef>,
    pos: int,
)
    requires
        0 <= pos <= src.len(),
    ensures
        spec_finish_expression(src, start, arg, func, pos) matches Ok((r, p)) ==> pos < p
            <= src.len(),
{
    lemma_parse_attributes(src, pos);
    if let Ok((attrs, p1)) = spec_parse_attributes(src, pos) {
        if token_at(src, p1, seq!['}']) {
            lemma_token_at_chars(src, p1, seq!['}']);
        }
    }
}

pub proof fn lemma_finish_markup(
    src: Seq<char>,
    name: Seq<char>,
    kind: MarkupKind,
    opts: Option<Seq<SpecOptionEntry>>,
    pos: int,
)
    requires
        0 <= pos <= src.len(),
    ensures
        spec_finish_markup(src, name, kind, opts, pos) matches Ok((r, p)) ==> pos < p <= src.len(),
{
    lemma_parse_attributes(src, pos);
    if let Ok((attrs, p1)) = spec_parse_attributes(src, pos) {
        let slash = kind == MarkupKind::Open && p1 < src.len() && src[p1] == '/';
        let p2: int = if slash {
            p1 + 1
        } else {
            p1
        };
        if token_at(src, p2, seq!['}']) {
            lemma_token_at_chars(src, p2, seq!['}']);
        }
    }
}

pub proof fn lemma_parse_expression_or_markup(src: Seq<char>, pos: int, allow_markup: bool)
    requires
        0 <= pos < src.len(),
    ensures
        spec_parse_expression_or_markup(src, pos, allow_markup) matches Ok((r, p)) ==> pos < p
            <= src.len(),
{
    reveal(spec_parse_expression_or_markup);
    lemma_ws_end(src, pos + 1);
    let p1: int = ws_end(src, pos + 1);
    lemma_parse_value(src, p1, false);
    if let Ok((arg, p2)) = spec_parse_value(src, p1, false) {
        lemma_ws_end(src, p2);
        let p3opt = if !(arg is Absent) {
            spec_skip_ws_cond(src, p2, seq!['}'])
        } else {
            Ok(p2)
        };
        if let Ok(p3) = p3opt {
            if p3 < src.len() {
                if src[p3] == '@' || src[p3] == '}' {
                    lemma_finish_expression(src, pos, arg, None, p3);
                } else if src[p3] == ':' {
                    lemma_parse_identifier(src, p3 + 1);
                    if let Ok((fname, p4)) = spec_parse_identifier(src, p3 + 1) {
                        lemma_parse_options(src, p4);
                        if let Ok((opts, p5)) = spec_parse_options(src, p4) {
                            lemma_finish_expression(
                                src,
                                pos,
                                arg,
                                Some(
                                    SpecFunctionRef {
                                        name: fname,
                                        options: or_empty_options(opts),
                                    },
                                ),
                                p5,
                            );
                        }
                    }
                } else if (src[p3] == '#' || src[p3] == '/') && allow_markup && arg is Absent {
                    let kind = if src[p3] == '#' {
                        MarkupKind::Open
                    } else {
                        MarkupKind::Close
                    };
                    lemma_parse_identifier(src, p3 + 1);
                    if let Ok((mname, p4)) = spec_parse_identifier(src, p3 + 1) {
                        lemma_parse_options(src, p4);
                        if let Ok((opts, p5)) = spec_parse_options(src, p4) {
                            lemma_finish_markup(src, mname, kind, opts, p5);
                        }
                    }
                }
            }
        }
    }
}

// ---------------------------------------------------------------------------
// Patterns
// ---------------------------------------------------------------------------

/// `acc` with the pending text run appended as an item, when non-empty.
pub open spec fn flush_text(acc: Seq<SpecPatternItem>, text: Seq<char>) -> Seq<SpecPatternItem> {
    if text.len() > 0 {
        acc.push(SpecPatternItem::String(text))
    } else {
        acc
    }
}

/// The body of a pattern from `pos` on, given the items `acc` and the
/// pending text run `text` read so far.  `{` opens a placeholder (markup
/// allowed); `}` ends a quoted pattern and is unbalanced in an unquoted
/// one; every other character extends the text run.
pub open spec fn spec_pattern_loop(
    src: Seq<char>,
    pos: int,
    acc: Seq<SpecPatternItem>,
    text: Seq<char>,
    quoted: bool,
) -> Result<(Seq<SpecPatternItem>, int), SpecSyntaxError>
    decreases src.len() - pos,
    when 0 <= pos <= src.len()
    via pattern_loop_decreases
{
    if pos >= src.len() {
        Ok((flush_text(acc, text), pos))
    } else if src[pos] == '{' {
        match spec_parse_expression_or_markup(src, pos, true) {
            Err(e) => Err(e),
            Ok((SpecExprOrMarkup::Expression(e), p)) => spec_pattern_loop(
                src,
                p,
                flush_text(acc, text).push(SpecPatternItem::Expression(e)),
                Seq::empty(),
                quoted,
            ),
            Ok((SpecExprOrMarkup::Markup(m), p)) => spec_pattern_loop(
                src,
                p,
                flush_text(acc, text).push(SpecPatternItem::Markup(m)),
                Seq::empty(),
                quoted,
            ),
        }
    } else if src[pos] == '}' {
        if !quoted {
            Err(SpecSyntaxError::ParseError(err_at(pos)))
        } else {
            Ok((flush_text(acc, text), pos))
        }
    } else {
        spec_pattern_loop(src, pos + 1, acc, text.push(src[pos]), quoted)
    }
}

#[via_fn]
proof fn pattern_loop_decreases(
    src: Seq<char>,
    pos: int,
    acc: Seq<SpecPatternItem>,
    text: Seq<char>,
    quoted: bool,
) {
    if 0 <= pos < src.len() {
        lemma_parse_expression_or_markup(src, pos, true);
    }
}

pub proof fn lemma_pattern_loop(
    src: Seq<char>,
    pos: int,
    acc: Seq<SpecPatternItem>,
    text: Seq<char>,
    quoted: bool,
)
    requires
        0 <= pos <= src.len(),
    ensures
        spec_pattern_loop(src, pos, acc, text, quoted) matches Ok((o, p)) ==> pos <= p <= src.len(),
    decreases src.len() - pos,
{
    if pos < src.len() {
        if src[pos] == '{' {
            lemma_parse_expression_or_markup(src, pos, true);
            match spec_parse_expression_or_markup(src, pos, true) {
                Err(e) => {},
                Ok((SpecExprOrMarkup::Expression(e), p)) => {
                    lemma_pattern_loop(
                        src,
                        p,
                        flush_text(acc, text).push(SpecPatternItem::Expression(e)),
                        Seq::empty(),
                        quoted,
                    );
                },
                Ok((SpecExprOrMarkup::Markup(m), p)) => {
                    lemma_pattern_loop(
                        src,
                        p,
                        flush_text(acc, text).push(SpecPatternItem::Markup(m)),
                        Seq::empty(),
                        quoted,
                    );
                },
            }
        } else if src[pos] != '}' {
            lemma_pattern_loop(src, pos + 1, acc, text.push(src[pos]), quoted);
        }
    }
}

/// A pattern at `pos`: delimited by `{{` and `}}` when `quoted`, running
/// to the end of input otherwise.
pub open spec fn spec_parse_pattern(src: Seq<char>, pos: int, quoted: bool) -> Result<
    (Seq<SpecPatternItem>, int),
    SpecSyntaxError,
>
    recommends
        0 <= pos <= src.len(),
{
    if quoted && !token_at(src, pos, seq!['{', '{']) {
        Err(SpecSyntaxError::MissingSyntax(err_expect(pos, seq!['{', '{'])))
    } else {
        let p0 = if quoted {
            pos + 2
        } else {
            pos
        };
        match spec_pattern_loop(src, p0, Seq::empty(), Seq::empty(), quoted) {
            Err(e) => Err(e),
            Ok((items, p1)) => if quoted {
                if token_at(src, p1, seq!['}', '}']) {
                    Ok((items, p1 + 2))
                } else {
                    Err(SpecSyntaxError::MissingSyntax(err_expect(p1, seq!['}', '}'])))
                }
            } else {
                Ok((items, p1))
            },
        }
    }
}

pub proof fn lemma_parse_pattern(src: Seq<char>, pos: int, quoted: bool)
    requires
        0 <= pos <= src.len(),
    ensures
        spec_parse_pattern(src, pos, quoted) matches Ok((o, p)) ==> pos <= p <= src.len() && (
        quoted ==> pos < p),
{
    if quoted && token_at(src, pos, seq!['{', '{']) {
        lemma_token_at_chars(src, pos, seq!['{', '{']);
        lemma_pattern_loop(src, pos + 2, Seq::empty(), Seq::empty(), quoted);
        if let Ok((items, p1)) = spec_pattern_loop(src, pos + 2, Seq::empty(), Seq::empty(), quoted) {
            if token_at(src, p1, seq!['}', '}']) {
                lemma_token_at_chars(src, p1, seq!['}', '}']);
            }
        }
    } else if !quoted {
        lemma_pattern_loop(src, pos, Seq::empty(), Seq::empty(), quoted);
    }
}

// ---------------------------------------------------------------------------
// Variants and select messages
// ---------------------------------------------------------------------------

/// The keys of a variant from `pos` up to the `{` that opens its
/// pattern: literal keys and `*` catch-all keys.  The first key needs
/// only optional leading whitespace; each further key needs a mandatory
/// separator.
pub open spec fn spec_variant_keys_loop(src: Seq<char>, pos: int, keys: Seq<SpecVariantKey>) -> Result<
    (Seq<SpecVariantKey>, int),
    SpecSyntaxError,
>
    decreases src.len() - pos,
    when 0 <= pos <= src.len()
    via variant_keys_loop_decreases
{
    if pos >= src.len() {
        Ok((keys, pos))
    } else {
        let wsr = if keys.len() > 0 {
            spec_skip_ws_required(src, pos)
        } else {
            Ok(ws_end(src, pos))
        };
        match wsr {
            Err(e) => Err(e),
            Ok(p1) => if p1 >= src.len() {
                Ok((keys, p1))
            } else if src[p1] == '{' {
                Ok((keys, p1))
            } else if src[p1] == '*' {
                spec_variant_keys_loop(
                    src,
                    p1 + 1,
                    keys.push(SpecVariantKey::CatchallKey(SpecCatchallKey { value: None })),
                )
            } else {
                match spec_parse_literal(src, p1, true) {
                    Err(e) => Err(e),
                    Ok((Some(l), p2)) => spec_variant_keys_loop(
                        src,
                        p2,
                        keys.push(SpecVariantKey::Literal(l)),
                    ),
                    Ok((None, p2)) => Err(SpecSyntaxError::EmptyToken(err_at(p2))),
                }
            },
        }
    }
}

#[via_fn]
proof fn variant_keys_loop_decreases(src: Seq<char>, pos: int, keys: Seq<SpecVariantKey>) {
    if 0 <= pos <= src.len() {
        lemma_ws_end(src, pos);
        let p1: int = ws_end(src, pos);
        if p1 < src.len() {
            lemma_parse_literal(src, p1, true);
        }
    }
}

pub proof fn lemma_variant_keys_loop(src: Seq<char>, pos: int, keys: Seq<SpecVariantKey>)
    requires
        0 <= pos <= src.len(),
    ensures
        spec_variant_keys_loop(src, pos, keys) matches Ok((o, p)) ==> pos <= p <= src.len(),
    decreases src.len() - pos,
{
    if pos < src.len() {
        lemma_ws_end(src, pos);
        let p1: int = ws_end(src, pos);
        let ok = if keys.len() > 0 {
            ws_has_real(src, pos)
        } else {
            true
        };
        if ok && p1 < src.len() {
            if src[p1] == '*' {
                lemma_variant_keys_loop(
                    src,
                    p1 + 1,
                    keys.push(SpecVariantKey::CatchallKey(SpecCatchallKey { value: None })),
                );
            } else if src[p1] != '{' {
                lemma_parse_literal(src, p1, true);
                if let Ok((Some(l), p2)) = spec_parse_literal(src, p1, true) {
                    lemma_variant_keys_loop(src, p2, keys.push(SpecVariantKey::Literal(l)));
                }
            }
        }
    }
}

/// One arm of a select message: its keys, then a quoted pattern.
pub open spec fn spec_parse_variant(src: Seq<char>, pos: int) -> Result<
    (SpecVariant, int),
    SpecSyntaxError,
>
    recommends
        0 <= pos <= src.len(),
{
    match spec_variant_keys_loop(src, pos, Seq::empty()) {
        Err(e) => Err(e),
        Ok((keys, p1)) => match spec_parse_pattern(src, p1, true) {
            Err(e) => Err(e),
            Ok((items, p2)) => Ok((SpecVariant { keys, value: items }, p2)),
        },
    }
}

pub proof fn lemma_parse_variant(src: Seq<char>, pos: int)
    requires
        0 <= pos <= src.len(),
    ensures
        spec_parse_variant(src, pos) matches Ok((v, p)) ==> pos < p <= src.len(),
{
    lemma_variant_keys_loop(src, pos, Seq::empty());
    if let Ok((keys, p1)) = spec_variant_keys_loop(src, pos, Seq::empty()) {
        lemma_parse_pattern(src, p1, true);
    }
}

/// The selectors of a select message: `$name` references separated by
/// mandatory whitespace, read while a `$` is in view.
pub open spec fn spec_selectors_loop(src: Seq<char>, pos: int, acc: Seq<SpecVariableRef>) -> Result<
    (Seq<SpecVariableRef>, int),
    SpecSyntaxError,
>
    decreases src.len() - pos,
    when 0 <= pos <= src.len()
    via selectors_loop_decreases
{
    if pos < src.len() && src[pos] == '$' {
        match spec_parse_variable(src, pos) {
            Err(e) => Err(e),
            Ok((v, p1)) => match spec_skip_ws_required(src, p1) {
                Err(e) => Err(e),
                Ok(p2) => spec_selectors_loop(src, p2, acc.push(v)),
            },
        }
    } else {
        Ok((acc, pos))
    }
}

#[via_fn]
proof fn selectors_loop_decreases(src: Seq<char>, pos: int, acc: Seq<SpecVariableRef>) {
    if 0 <= pos < src.len() {
        lemma_parse_variable(src, pos);
        if let Ok((v, p1)) = spec_parse_variable(src, pos) {
            lemma_ws_end(src, p1);
        }
    }
}

pub proof fn lemma_selectors_loop(src: Seq<char>, pos: int, acc: Seq<SpecVariableRef>)
    requires
        0 <= pos <= src.len(),
    ensures
        spec_selectors_loop(src, pos, acc) matches Ok((o, p)) ==> pos <= p <= src.len(),
    decreases src.len() - pos,
{
    if pos < src.len() && src[pos] == '$' {
        lemma_parse_variable(src, pos);
        if let Ok((v, p1)) = spec_parse_variable(src, pos) {
            lemma_ws_end(src, p1);
            if ws_has_real(src, p1) {
                lemma_selectors_loop(src, ws_end(src, p1), acc.push(v));
            }
        }
    }
}

/// The variants of a select message, read until the input ends, with
/// optional whitespace between them.
pub open spec fn spec_variants_loop(src: Seq<char>, pos: int, acc: Seq<SpecVariant>) -> Result<
    (Seq<SpecVariant>, int),
    SpecSyntaxError,
>
    decreases src.len() - pos,
    when 0 <= pos <= src.len()
    via variants_loop_decreases
{
    if pos >= src.len() {
        Ok((acc, pos))
    } else {
        match spec_parse_variant(src, pos) {
            Err(e) => Err(e),
            Ok((v, p1)) => spec_variants_loop(src, ws_end(src, p1), acc.push(v)),
        }
    }
}

#[via_fn]
proof fn variants_loop_decreases(src: Seq<char>, pos: int, acc: Seq<SpecVariant>) {
    if 0 <= pos <= src.len() {
        lemma_parse_variant(src, pos);
        if let Ok((v, p1)) = spec_parse_variant(src, pos) {
            lemma_ws_end(src, p1);
        }
    }
}

/// A select message after `.match`: mandatory whitespace, one or more
/// selectors (none at all is an `EmptyToken` error), then variants
/// until the input is exhausted.
pub open spec fn spec_parse_select_message(
    src: Seq<char>,
    pos: int,
    decls: Seq<SpecDeclaration>,
) -> Result<(SpecSelectMessage, int), SpecSyntaxError>
    recommends
        0 <= pos <= src.len(),
{
    match spec_skip_ws_required(src, pos) {
        Err(e) => Err(e),
        Ok(p1) => match spec_selectors_loop(src, p1, Seq::empty()) {
            Err(e) => Err(e),
            Ok((sels, p2)) => if sels.len() == 0 {
                Err(SpecSyntaxError::EmptyToken(err_at(p2)))
            } else {
                match spec_variants_loop(src, p2, Seq::empty()) {
                    Err(e) => Err(e),
                    Ok((vars, p3)) => Ok(
                        (
                            SpecSelectMessage {
                                declarations: decls,
                                selectors: sels,
                                variants: vars,
                            },
                            p3,
                        ),
                    ),
                }
            },
        },
    }
}

// ---------------------------------------------------------------------------
// Declarations
// ---------------------------------------------------------------------------

/// The keyword `.input`.
pub open spec fn kw_input() -> Seq<char> {
    seq!['.', 'i', 'n', 'p', 'u', 't']
}

/// The keyword `.local`.
pub open spec fn kw_local() -> Seq<char> {
    seq!['.', 'l', 'o', 'c', 'a', 'l']
}

/// The keyword `.match`.
pub open spec fn kw_match() -> Seq<char> {
    seq!['.', 'm', 'a', 't', 'c', 'h']
}

/// An `.input` declaration body: whitespace, then a placeholder that
/// must be a bare variable expression; anything else is a
/// `BadInputExpression` error at the placeholder's start.
pub open spec fn spec_parse_input_declaration(src: Seq<char>, pos: int) -> Result<
    (SpecInputDeclaration, int),
    SpecSyntaxError,
>
    recommends
        0 <= pos <= src.len(),
{
    let p1 = ws_end(src, pos);
    match spec_expect(src, p1, seq!['{']) {
        Err(e) => Err(e),
        Ok(_) => match spec_parse_expression_or_markup(src, p1, false) {
            Err(e) => Err(e),
            Ok((SpecExprOrMarkup::Expression(SpecExpression::Variable(ve)), p2)) => Ok(
                (SpecInputDeclaration { name: ve.arg.name, value: ve }, p2),
            ),
            Ok((_, p2)) => Err(SpecSyntaxError::BadInputExpression(err_at(p1))),
        },
    }
}

pub proof fn lemma_parse_input_declaration(src: Seq<char>, pos: int)
    requires
        0 <= pos <= src.len(),
    ensures
        spec_parse_input_declaration(src, pos) matches Ok((d, p)) ==> pos < p <= src.len(),
{
    lemma_ws_end(src, pos);
    let p1: int = ws_end(src, pos);
    if token_at(src, p1, seq!['{']) {
        lemma_token_at_chars(src, p1, seq!['{']);
        lemma_parse_expression_or_markup(src, p1, false);
    }
}

/// A `.local` declaration body: mandatory whitespace, `$name`, `=`, and
/// an expression placeholder.
pub open spec fn spec_parse_local_declaration(src: Seq<char>, pos: int) -> Result<
    (SpecLocalDeclaration, int),
    SpecSyntaxError,
>
    recommends
        0 <= pos <= src.len(),
{
    match spec_skip_ws_required(src, pos) {
        Err(e) => Err(e),
        Ok(p1) => match spec_expect(src, p1, seq!['$']) {
            Err(e) => Err(e),
            Ok(_) => match spec_parse_name(src, p1 + 1) {
                Err(e) => Err(e),
                Ok((name, p2)) => {
                    let p3 = ws_end(src, p2);
                    match spec_expect(src, p3, seq!['=']) {
                        Err(e) => Err(e),
                        Ok(_) => {
                            let p4 = ws_end(src, p3 + 1);
                            match spec_expect(src, p4, seq!['{']) {
                                Err(e) => Err(e),
                                Ok(_) => match spec_parse_expression_or_markup(src, p4, false) {
                                    Err(e) => Err(e),
                                    Ok((SpecExprOrMarkup::Expression(e), p5)) => Ok(
                                        (SpecLocalDeclaration { name, value: e }, p5),
                                    ),
                                    Ok((SpecExprOrMarkup::Markup(m), p5)) => Err(
                                        SpecSyntaxError::BadInputExpression(err_at(p5)),
                                    ),
                                },
                            }
                        },
                    }
                },
            },
        },
    }
}

pub proof fn lemma_parse_local_declaration(src: Seq<char>, pos: int)
    requires
        0 <= pos <= src.len(),
    ensures
        spec_parse_local_declaration(src, pos) matches Ok((d, p)) ==> pos < p <= src.len(),
{
    lemma_ws_end(src, pos);
    let p1: int = ws_end(src, pos);
    if ws_has_real(src, pos) && token_at(src, p1, seq!['$']) {
        lemma_token_at_chars(src, p1, seq!['$']);
        lemma_parse_name(src, p1 + 1);
        if let Ok((name, p2)) = spec_parse_name(src, p1 + 1) {
            lemma_ws_end(src, p2);
            let p3: int = ws_end(src, p2);
            if token_at(src, p3, seq!['=']) {
                lemma_token_at_chars(src, p3, seq!['=']);
                lemma_ws_end(src, p3 + 1);
                let p4: int = ws_end(src, p3 + 1);
                if token_at(src, p4, seq!['{']) {
                    lemma_token_at_chars(src, p4, seq!['{']);
                    lemma_parse_expression_or_markup(src, p4, false);
                }
            }
        }
    }
}

/// The leading declaration sequence: while a `.` is in view, exactly one
/// of `.input`, `.local` or `.match` must follow (any other dot-token is
/// a `ParseError`); `.match` ends the sequence and selects select-message
/// mode, reported in the boolean of the result.
pub open spec fn spec_decl_loop(src: Seq<char>, pos: int, acc: Seq<SpecDeclaration>) -> Result<
    ((Seq<SpecDeclaration>, bool), int),
    SpecSyntaxError,
>
    decreases src.len() - pos,
    when 0 <= pos <= src.len()
    via decl_loop_decreases
{
    if pos < src.len() && src[pos] == '.' {
        if token_at(src, pos, kw_input()) {
            match spec_parse_input_declaration(src, pos + 6) {
                Err(e) => Err(e),
                Ok((d, p1)) => spec_decl_loop(
                    src,
                    ws_end(src, p1),
                    acc.push(SpecDeclaration::Input(d)),
                ),
            }
        } else if token_at(src, pos, kw_local()) {
            match spec_parse_local_declaration(src, pos + 6) {
                Err(e) => Err(e),
                Ok((d, p1)) => spec_decl_loop(
                    src,
                    ws_end(src, p1),
                    acc.push(SpecDeclaration::Local(d)),
                ),
            }
        } else if token_at(src, pos, kw_match()) {
            Ok(((acc, true), pos + 6))
        } else {
            Err(SpecSyntaxError::ParseError(err_at(pos)))
        }
    } else {
        Ok(((acc, false), pos))
    }
}

#[via_fn]
proof fn decl_loop_decreases(src: Seq<char>, pos: int, acc: Seq<SpecDeclaration>) {
    if 0 <= pos < src.len() {
        if token_at(src, pos, kw_input()) {
            lemma_token_at_chars(src, pos, kw_input());
            lemma_parse_input_declaration(src, pos + 6);
            if let Ok((d, p1)) = spec_parse_input_declaration(src, pos + 6) {
                lemma_ws_end(src, p1);
            }
        } else if token_at(src, pos, kw_local()) {
            lemma_token_at_chars(src, pos, kw_local());
            lemma_parse_local_declaration(src, pos + 6);
            if let Ok((d, p1)) = spec_parse_local_declaration(src, pos + 6) {
                lemma_ws_end(src, p1);
            }
        }
    }
}

#[verifier::rlimit(50)]
pub proof fn lemma_decl_loop(src: Seq<char>, pos: int, acc: Seq<SpecDeclaration>)
    requires
        0 <= pos <= src.len(),
    ensures
        spec_decl_loop(src, pos, acc) matches Ok((o, p)) ==> pos <= p <= src.len(),
    decreases src.len() - pos,
{
    if pos < src.len() && src[pos] == '.' {
        if token_at(src, pos, kw_input()) {
            lemma_token_at_chars(src, pos, kw_input());
            lemma_parse_input_declaration(src, pos + 6);
            if let Ok((d, p1)) = spec_parse_input_declaration(src, pos + 6) {
                lemma_ws_end(src, p1);
                lemma_decl_loop(src, ws_end(src, p1), acc.push(SpecDeclaration::Input(d)));
            }
        } else if token_at(src, pos, kw_local()) {
            lemma_token_at_chars(src, pos, kw_local());
            lemma_parse_local_declaration(src, pos + 6);
            if let Ok((d, p1)) = spec_parse_local_declaration(src, pos + 6) {
                lemma_ws_end(src, p1);
                lemma_decl_loop(src, ws_end(src, p1), acc.push(SpecDeclaration::Local(d)));
            }
        } else if token_at(src, pos, kw_match()) {
            lemma_token_at_chars(src, pos, kw_match());
        }
    }
}

// ---------------------------------------------------------------------------
// Messages
// ---------------------------------------------------------------------------

/// What a complete MF2 source text denotes: a message, or the first
/// syntax error.  Declarations are read first; `.match` selects a select
/// message.  Otherwise the message is a pattern, quoted exactly when
/// `{{` opens the body; a speculatively consumed but unquoted prefix is
/// re-read from the start as plain pattern text, and residual
/// non-whitespace after a quoted pattern is an `ExtraContent` error at
/// its first character.
pub open spec fn spec_parse(src: Seq<char>) -> Result<SpecMessage, SpecSyntaxError> {
    match spec_decl_loop(src, ws_end(src, 0), Seq::empty()) {
        Err(e) => Err(e),
        Ok(((decls, is_match), p1)) => if is_match {
            match spec_parse_select_message(src, p1, decls) {
                Err(e) => Err(e),
                Ok((m, p2)) => Ok(SpecMessage::Select(m)),
            }
        } else {
            let p2 = ws_end(src, p1);
            let quoted = token_at(src, p2, seq!['{', '{']);
            let p3 = if !quoted && p2 > 0 {
                0
            } else {
                p2
            };
            match spec_parse_pattern(src, p3, quoted) {
                Err(e) => Err(e),
                Ok((items, p4)) => if quoted && ws_end(src, p4) < src.len() {
                    Err(SpecSyntaxError::ExtraContent(err_at(ws_end(src, p4))))
                } else {
                    Ok(SpecMessage::Pattern(SpecPatternMessage { declarations: decls, pattern: items }))
                },
            }
        },
    }
}

} // verus!
