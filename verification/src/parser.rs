//! The executable MF2 parser.
//!
//! [`Mf2Parser`] scans the input as a vector of Unicode scalar values with
//! a single cursor.  Every method is proved to return exactly what the
//! mathematical grammar in [`crate::grammar`] assigns to the input at the
//! cursor: the same value and new position on success, and the same error
//! on failure.

use vstd::prelude::*;
use vstd::string::StrSliceExecFns;
use vstd::string::StringExecFns;

use crate::error::Error;
use crate::error::SyntaxError;
use crate::grammar::bidi_end;
use crate::grammar::lemma_match_len;
use crate::grammar::lemma_match_len_at_least;
use crate::grammar::lemma_match_len_stops;
use crate::grammar::lemma_token_at_chars;
use crate::grammar::spec_name_value;
use crate::grammar::spec_parse_identifier;
use crate::grammar::spec_parse_literal;
use crate::grammar::spec_parse_name;
use crate::grammar::spec_parse_quoted_literal;
use crate::grammar::spec_parse_value;
use crate::grammar::spec_parse_variable;
use crate::grammar::spec_quoted_rest;
use crate::grammar::spec_skip_ws_cond;
use crate::grammar::spec_skip_ws_required;
use crate::grammar::spec_parse_options;
use crate::grammar::spec_parse_attributes;
use crate::grammar::spec_options_loop;
use crate::grammar::spec_attributes_loop;
use crate::grammar::options_have_name;
use crate::grammar::attributes_have_name;
use crate::grammar::lemma_ws_end;
use crate::grammar::lemma_parse_identifier;
use crate::grammar::lemma_parse_value;
use crate::grammar::lemma_parse_literal;
use crate::grammar::spec_finish_expression;
use crate::grammar::spec_finish_markup;
use crate::grammar::spec_parse_expression_or_markup;
use crate::grammar::SpecExprOrMarkup;
use crate::grammar::kw_input;
use crate::grammar::kw_local;
use crate::grammar::kw_match;
use crate::grammar::lemma_parse_expression_or_markup;
use crate::grammar::lemma_parse_input_declaration;
use crate::grammar::lemma_parse_local_declaration;
use crate::grammar::lemma_parse_variant;
use crate::grammar::lemma_parse_variable;
use crate::grammar::spec_decl_loop;
use crate::grammar::spec_parse;
use crate::grammar::spec_parse_input_declaration;
use crate::grammar::spec_parse_local_declaration;
use crate::grammar::spec_parse_pattern;
use crate::grammar::spec_parse_select_message;
use crate::grammar::spec_parse_variant;
use crate::grammar::spec_pattern_loop;
use crate::grammar::spec_selectors_loop;
use crate::grammar::spec_variant_keys_loop;
use crate::grammar::spec_variants_loop;
use crate::grammar::name_run_end;
use crate::grammar::token_at;
use crate::grammar::ws_end;
use crate::grammar::ws_has_real;
use crate::grammar::SpecValue;
use crate::error::SpecSyntaxError;
use crate::model::lemma_views_empty;
use crate::model::lemma_views_push;
use crate::model::views;
use crate::model::AttributeEntry;
use crate::model::AttributeValue;
use crate::model::Expression;
use crate::model::FunctionExpression;
use crate::model::FunctionRef;
use crate::model::Literal;
use crate::model::LiteralExpression;
use crate::model::Markup;
use crate::model::MarkupKind;
use crate::model::OptionEntry;
use crate::model::VariableExpression;
use crate::model::CatchallKey;
use crate::model::Declaration;
use crate::model::InputDeclaration;
use crate::model::LocalDeclaration;
use crate::model::Message;
use crate::model::PatternItem;
use crate::model::PatternMessage;
use crate::model::SelectMessage;
use crate::model::SpecDeclaration;
use crate::model::SpecPatternItem;
use crate::model::SpecVariantKey;
use crate::model::SpecVariableRef;
use crate::model::Variant;
use crate::model::VariantKey;
use crate::model::OptionValue;
use crate::model::SpecOptionEntry;
use crate::model::VariableRef;
use crate::grammar::spec_is_escapable;
use crate::laws::distinct_attribute_names;
use crate::laws::distinct_option_names;
use crate::laws::lemma_parse_attributes_distinct;
use crate::laws::lemma_parse_no_duplicate_names;
use crate::laws::lemma_parse_options_distinct;
use crate::laws::lemma_quoted_literal_bad_escape;
use crate::laws::lemma_quoted_literal_unterminated;
use crate::laws::wf_message;
use crate::validators::is_bidi_char;
use crate::validators::is_name_char;
use crate::validators::is_valid_name_string;
use crate::validators::is_ws_char;
use crate::validators::trim_tail_ws_and_bidi;

verus! {

/// Relies on `str::chars` and `FromIterator for Vec`: iterating a string
/// slice yields exactly its characters in order.  A vector of 4-byte
/// characters occupies at most `isize::MAX` bytes, so its length stays
/// below `usize::MAX`.
#[verifier::external_body]
fn str_to_chars(s: &str) -> (r: Vec<char>)
    ensures
        r@ == s@,
        r@.len() < usize::MAX,
{
    s.chars().collect()
}

/// Relies on `FromIterator for String`: collecting characters yields the
/// string of exactly those characters in order.
#[verifier::external_body]
fn chars_to_string(v: &Vec<char>) -> (r: String)
    ensures
        r@ == v@,
{
    v.iter().collect()
}

/// The operand at the head of an expression, as parsed.
#[derive(Debug, Clone, PartialEq, Eq)]
enum ParsedValue {
    Literal(Literal),
    Variable(VariableRef),
    Absent,
}

impl View for ParsedValue {
    type V = SpecValue;

    closed spec fn view(&self) -> SpecValue {
        match self {
            ParsedValue::Literal(l) => SpecValue::Lit(l@),
            ParsedValue::Variable(v) => SpecValue::Var(v@),
            ParsedValue::Absent => SpecValue::Absent,
        }
    }
}

/// What a `{ ... }` placeholder was parsed into.
#[derive(Debug, Clone, PartialEq, Eq)]
enum ParsedExpressionOrMarkup {
    Expression(Expression),
    Markup(Markup),
}

impl View for ParsedExpressionOrMarkup {
    type V = SpecExprOrMarkup;

    closed spec fn view(&self) -> SpecExprOrMarkup {
        match self {
            ParsedExpressionOrMarkup::Expression(e) => SpecExprOrMarkup::Expression(e@),
            ParsedExpressionOrMarkup::Markup(m) => SpecExprOrMarkup::Markup(m@),
        }
    }
}

/// A recursive-descent parser for MF2 source text.
///
/// The cursor is a character index into the input, so all offsets in
/// results and errors count Unicode scalar values, not bytes.
#[derive(Debug, Clone, PartialEq, Eq)]
pub struct Mf2Parser {
    src: Vec<char>,
    pos: usize,
}

impl Mf2Parser {
    /// The input, as a sequence of Unicode scalar values.
    pub closed spec fn src_chars(&self) -> Seq<char> {
        self.src@
    }

    /// The cursor: a character index into the input.
    pub closed spec fn cursor(&self) -> int {
        self.pos as int
    }

    /// The parser's internal invariant: the cursor stays within the
    /// input, whose length leaves room for one-past-the-end offsets.
    pub closed spec fn wf(&self) -> bool {
        self.pos as int <= self.src@.len() && self.src@.len() < usize::MAX
    }

    /// A parser over `src`, with the cursor at the start.
    pub fn new(src: &str) -> (r: Self)
        ensures
            r.wf(),
            r.src_chars() == src@,
            r.cursor() == 0,
    {
        Mf2Parser { src: str_to_chars(src), pos: 0 }
    }

    /// Scans the run of whitespace and bidi controls at the cursor;
    /// returns its end and whether it held no real whitespace.
    fn read_whitespaces(&self) -> (r: (usize, bool))
        requires
            self.wf(),
        ensures
            r.0 == ws_end(self.src_chars(), self.cursor()),
            r.1 == !ws_has_real(self.src_chars(), self.cursor()),
            self.cursor() <= r.0 <= self.src_chars().len(),
    {
        let mut p = self.pos;
        let mut only_bidi_or_empty = true;
        while p < self.src.len() && (is_ws_char(self.src[p]) || is_bidi_char(self.src[p]))
            invariant
                self.wf(),
                self.pos <= p <= self.src@.len(),
                ws_end(self.src@, self.pos as int) == ws_end(self.src@, p as int),
                ws_has_real(self.src@, self.pos as int) == (!only_bidi_or_empty || ws_has_real(
                    self.src@,
                    p as int,
                )),
            decreases self.src@.len() - p,
        {
            if is_ws_char(self.src[p]) {
                only_bidi_or_empty = false;
            }
            p = p + 1;
        }
        (p, only_bidi_or_empty)
    }

    /// Advances the cursor past optional whitespace and bidi controls.
    fn skip_whitespaces(&mut self)
        requires
            old(self).wf(),
        ensures
            final(self).wf(),
            final(self).src_chars() == old(self).src_chars(),
            final(self).cursor() == ws_end(old(self).src_chars(), old(self).cursor()),
    {
        let (e, _) = self.read_whitespaces();
        self.pos = e;
    }

    /// Advances the cursor past leading bidi controls.
    fn skip_bidis(&mut self)
        requires
            old(self).wf(),
        ensures
            final(self).wf(),
            final(self).src_chars() == old(self).src_chars(),
            final(self).cursor() == bidi_end(old(self).src_chars(), old(self).cursor()),
    {
        while self.pos < self.src.len() && is_bidi_char(self.src[self.pos])
            invariant
                self.wf(),
                self.src@ == old(self).src@,
                old(self).pos <= self.pos,
                bidi_end(self.src@, old(self).pos as int) == bidi_end(self.src@, self.pos as int),
            decreases self.src@.len() - self.pos,
        {
            self.pos = self.pos + 1;
        }
    }

    /// Requires a whitespace separator at the cursor: consumes the run
    /// and fails with `EmptyToken` when it held no real whitespace.
    fn skip_whitespaces_required(&mut self) -> (r: Result<(), SyntaxError>)
        requires
            old(self).wf(),
        ensures
            final(self).wf(),
            final(self).src_chars() == old(self).src_chars(),
            final(self).cursor() == ws_end(old(self).src_chars(), old(self).cursor()),
            match (r, spec_skip_ws_required(old(self).src_chars(), old(self).cursor())) {
                (Ok(_), Ok(p)) => final(self).cursor() == p,
                (Err(e), Err(se)) => e@ == se,
                _ => false,
            },
    {
        let (e, only_bidi_or_empty) = self.read_whitespaces();
        self.pos = e;
        if only_bidi_or_empty {
            return Err(SyntaxError::EmptyToken(Error::new(self.pos, None, None)));
        }
        Ok(())
    }

    /// Requires a whitespace separator at the cursor unless the first
    /// character after the run is one of `expected`.
    fn skip_whitespaces_required_if_not_followed_by(&mut self, expected: Vec<char>) -> (r: Result<
        (),
        SyntaxError,
    >)
        requires
            old(self).wf(),
        ensures
            final(self).wf(),
            final(self).src_chars() == old(self).src_chars(),
            match (r, spec_skip_ws_cond(old(self).src_chars(), old(self).cursor(), expected@)) {
                (Ok(_), Ok(p)) => final(self).cursor() == p,
                (Err(e), Err(se)) => e@ == se,
                _ => false,
            },
    {
        let (e, only_bidi_or_empty) = self.read_whitespaces();
        if e < self.src.len() && vec_contains_char(&expected, self.src[e]) {
            self.pos = e;
            return Ok(());
        }
        self.pos = e;
        if only_bidi_or_empty {
            return Err(SyntaxError::EmptyToken(Error::new(self.pos, None, None)));
        }
        Ok(())
    }

    /// Whether the token `tok` occurs at the cursor.
    fn token_matches(&self, tok: &str) -> (r: bool)
        requires
            self.wf(),
        ensures
            r == token_at(self.src_chars(), self.cursor(), tok@),
    {
        let tok_len = tok.unicode_len();
        let remaining = self.src.len() - self.pos;
        let mut i: usize = 0;
        proof {
            assert(self.src@.subrange(self.pos as int, self.pos as int) =~= tok@.subrange(0, 0));
        }
        while i < tok_len
            invariant
                self.wf(),
                tok_len == tok@.len(),
                remaining == self.src@.len() - self.pos,
                0 <= i <= tok_len,
                self.pos + i <= self.src@.len(),
                self.src@.subrange(self.pos as int, self.pos + i) == tok@.subrange(0, i as int),
            decreases tok_len - i,
        {
            if i >= remaining || self.src[self.pos + i] != tok.get_char(i) {
                proof {
                    lemma_match_len_stops(self.src@, self.pos as int, tok@, i as int);
                }
                return false;
            }
            i = i + 1;
            proof {
                assert(self.src@.subrange(self.pos as int, self.pos + i) =~= self.src@.subrange(
                    self.pos as int,
                    self.pos + i - 1,
                ).push(self.src@[self.pos + i - 1]));
                assert(tok@.subrange(0, i as int) =~= tok@.subrange(0, i - 1).push(tok@[i - 1]));
            }
        }
        proof {
            lemma_match_len_at_least(self.src@, self.pos as int, tok@, tok_len as int);
            lemma_match_len(self.src@, self.pos as int, tok@);
        }
        true
    }

    /// Requires the literal token `expected` at the cursor, advancing
    /// past it when `consume` is set; a mismatch is `MissingSyntax` at
    /// the first divergent offset.
    fn expect_string(&mut self, expected: &str, consume: bool) -> (r: Result<(), SyntaxError>)
        requires
            old(self).wf(),
        ensures
            final(self).wf(),
            final(self).src_chars() == old(self).src_chars(),
            match (r, crate::grammar::spec_expect(
                old(self).src_chars(),
                old(self).cursor(),
                expected@,
            )) {
                (Ok(_), Ok(_)) => final(self).cursor() == old(self).cursor() + (if consume {
                    expected@.len()
                } else {
                    0
                }),
                (Err(e), Err(se)) => e@ == se && final(self).cursor() == old(self).cursor(),
                _ => false,
            },
    {
        let tok_len = expected.unicode_len();
        let remaining = self.src.len() - self.pos;
        let mut i: usize = 0;
        proof {
            assert(self.src@.subrange(self.pos as int, self.pos as int) =~= expected@.subrange(
                0,
                0,
            ));
        }
        while i < tok_len
            invariant
                self.wf(),
                tok_len == expected@.len(),
                remaining == self.src@.len() - self.pos,
                0 <= i <= tok_len,
                self.pos + i <= self.src@.len(),
                self.src@.subrange(self.pos as int, self.pos + i) == expected@.subrange(
                    0,
                    i as int,
                ),
            decreases tok_len - i,
        {
            if i >= remaining || self.src[self.pos + i] != expected.get_char(i) {
                proof {
                    lemma_match_len_stops(self.src@, self.pos as int, expected@, i as int);
                }
                return Err(
                    SyntaxError::MissingSyntax(
                        Error::new(self.pos + i, None, Some(String::from_str(expected))),
                    ),
                );
            }
            i = i + 1;
            proof {
                assert(self.src@.subrange(self.pos as int, self.pos + i) =~= self.src@.subrange(
                    self.pos as int,
                    self.pos + i - 1,
                ).push(self.src@[self.pos + i - 1]));
                assert(expected@.subrange(0, i as int) =~= expected@.subrange(0, i - 1).push(
                    expected@[i - 1],
                ));
            }
        }
        proof {
            lemma_match_len_at_least(self.src@, self.pos as int, expected@, tok_len as int);
            lemma_match_len(self.src@, self.pos as int, expected@);
        }
        if consume {
            self.pos = self.pos + tok_len;
        }
        Ok(())
    }

    /// Scans a name token at the cursor, as [`spec_name_value`]: the
    /// cursor moves past the run either way, and the trimmed text is
    /// returned only when it is a well-formed name.
    fn parse_name_value(&mut self) -> (r: Option<String>)
        requires
            old(self).wf(),
        ensures
            final(self).wf(),
            final(self).src_chars() == old(self).src_chars(),
            final(self).cursor() == spec_name_value(old(self).src_chars(), old(self).cursor()).1,
            match (r, spec_name_value(old(self).src_chars(), old(self).cursor()).0) {
                (Some(s), Some(v)) => s@ == v,
                (None, None) => true,
                _ => false,
            },
    {
        self.skip_bidis();
        let start = self.pos;
        let mut raw: Vec<char> = Vec::new();
        while self.pos < self.src.len() && is_name_char(self.src[self.pos])
            invariant
                self.wf(),
                self.src@ == old(self).src@,
                start <= self.pos <= self.src@.len(),
                name_run_end(self.src@, start as int) == name_run_end(self.src@, self.pos as int),
                raw@ == self.src@.subrange(start as int, self.pos as int),
            decreases self.src@.len() - self.pos,
        {
            raw.push(self.src[self.pos]);
            self.pos = self.pos + 1;
            proof {
                assert(raw@ =~= self.src@.subrange(start as int, self.pos as int));
            }
        }
        let s = chars_to_string(&raw);
        let value = trim_tail_ws_and_bidi(s.as_str());
        if is_valid_name_string(value.as_str()) {
            Some(value)
        } else {
            None
        }
    }

    /// A required name token; an absent or ill-formed one is an
    /// `EmptyToken` error after the scanned run.
    fn parse_name(&mut self) -> (r: Result<String, SyntaxError>)
        requires
            old(self).wf(),
        ensures
            final(self).wf(),
            final(self).src_chars() == old(self).src_chars(),
            match (r, spec_parse_name(old(self).src_chars(), old(self).cursor())) {
                (Ok(name), Ok(sp)) => name@ == sp.0 && final(self).cursor() == sp.1,
                (Err(e), Err(se)) => e@ == se,
                _ => false,
            },
    {
        match self.parse_name_value() {
            Some(name) => Ok(name),
            None => Err(SyntaxError::EmptyToken(Error::new(self.pos, None, None))),
        }
    }

    /// An identifier: a name, optionally `:` and a second name.
    fn parse_identifier(&mut self) -> (r: Result<String, SyntaxError>)
        requires
            old(self).wf(),
        ensures
            final(self).wf(),
            final(self).src_chars() == old(self).src_chars(),
            match (r, spec_parse_identifier(old(self).src_chars(), old(self).cursor())) {
                (Ok(name), Ok(sp)) => name@ == sp.0 && final(self).cursor() == sp.1,
                (Err(e), Err(se)) => e@ == se,
                _ => false,
            },
    {
        let name = self.parse_name()?;
        if self.pos < self.src.len() && self.src[self.pos] == ':' {
            self.pos = self.pos + 1;
            let name2 = self.parse_name()?;
            let combined = name.concat(":").concat(name2.as_str());
            proof {
                reveal_strlit(":");
                assert(combined@ == name@ + seq![':'] + name2@);
            }
            return Ok(combined);
        }
        Ok(name)
    }

    /// A variable reference: the `$` at the cursor and a required name.
    fn parse_variable(&mut self) -> (r: Result<VariableRef, SyntaxError>)
        requires
            old(self).wf(),
            old(self).cursor() < old(self).src_chars().len(),
            old(self).src_chars()[old(self).cursor()] == '$',
        ensures
            final(self).wf(),
            final(self).src_chars() == old(self).src_chars(),
            match (r, spec_parse_variable(old(self).src_chars(), old(self).cursor())) {
                (Ok(v), Ok(sp)) => v@ == sp.0 && final(self).cursor() == sp.1,
                (Err(e), Err(se)) => e@ == se,
                _ => false,
            },
    {
        self.pos = self.pos + 1;
        let mut var_ref = VariableRef::new();
        let name = self.parse_name()?;
        var_ref.set_name(name);
        Ok(var_ref)
    }

    /// A quoted literal at the cursor: `|`, its body with escapes
    /// preserved, and the closing `|`.
    fn parse_quoted_literal(&mut self) -> (r: Result<Option<Literal>, SyntaxError>)
        requires
            old(self).wf(),
            old(self).cursor() < old(self).src_chars().len(),
            old(self).src_chars()[old(self).cursor()] == '|',
        ensures
            final(self).wf(),
            final(self).src_chars() == old(self).src_chars(),
            match (r, spec_parse_quoted_literal(old(self).src_chars(), old(self).cursor())) {
                (Ok(Some(l)), Ok(sp)) => l@.value == sp.0 && final(self).cursor() == sp.1,
                (Err(e), Err(se)) => e@ == se,
                _ => false,
            },
            r matches Err(e) ==> (e@ matches SpecSyntaxError::BadEscape(se) ==> se.end
                == se.start + 2 && 0 <= se.start && se.start + 1 < old(self).src_chars().len()
                && old(self).src_chars()[se.start] == '\\' && !spec_is_escapable(
                old(self).src_chars()[se.start + 1],
            )),
            r matches Err(e) ==> (e@ matches SpecSyntaxError::MissingSyntax(se) ==> se.start
                == old(self).src_chars().len() && se.expected == seq!['|']),
    {
        proof {
            reveal_strlit("|");
            assert(("|")@ =~= seq!['|']);
            lemma_quoted_literal_bad_escape(self.src@, self.pos as int);
            lemma_quoted_literal_unterminated(self.src@, self.pos as int);
        }
        self.pos = self.pos + 1;
        let ghost entry = self.pos as int;
        let mut value: Vec<char> = Vec::new();
        while self.pos < self.src.len()
            invariant
                self.wf(),
                self.src@ == old(self).src@,
                entry == old(self).cursor() + 1,
                ("|")@ == seq!['|'],
                entry <= self.pos as int <= self.src@.len(),
                spec_quoted_rest(self.src@, entry, Seq::empty()) == spec_quoted_rest(
                    self.src@,
                    self.pos as int,
                    value@,
                ),
            decreases self.src@.len() - self.pos,
        {
            let c = self.src[self.pos];
            if c == '\\' {
                if self.pos + 1 < self.src.len() {
                    let escaped = self.src[self.pos + 1];
                    if escaped == '{' || escaped == '}' || escaped == '|' || escaped == '\\' {
                        let ghost prev = value@;
                        value.push('\\');
                        value.push(escaped);
                        self.pos = self.pos + 2;
                        proof {
                            assert(value@ =~= prev + seq!['\\', escaped]);
                        }
                    } else {
                        return Err(
                            SyntaxError::BadEscape(
                                Error::new(self.pos, Some(self.pos + 2), None),
                            ),
                        );
                    }
                } else {
                    return Err(
                        SyntaxError::MissingSyntax(
                            Error::new(self.src.len(), None, Some(String::from_str("|"))),
                        ),
                    );
                }
            } else if c == '|' {
                self.pos = self.pos + 1;
                let s = chars_to_string(&value);
                return Ok(Some(Literal::new(s)));
            } else {
                value.push(c);
                self.pos = self.pos + 1;
            }
        }
        Err(
            SyntaxError::MissingSyntax(
                Error::new(self.src.len(), None, Some(String::from_str("|"))),
            ),
        )
    }

    /// The greedy run of name characters at the cursor, as raw text.
    fn parse_unquoted_literal(&mut self) -> (r: String)
        requires
            old(self).wf(),
        ensures
            final(self).wf(),
            final(self).src_chars() == old(self).src_chars(),
            final(self).cursor() == name_run_end(old(self).src_chars(), old(self).cursor()),
            r@ == old(self).src_chars().subrange(old(self).cursor(), final(self).cursor()),
    {
        let start = self.pos;
        let mut raw: Vec<char> = Vec::new();
        while self.pos < self.src.len() && is_name_char(self.src[self.pos])
            invariant
                self.wf(),
                self.src@ == old(self).src@,
                start <= self.pos <= self.src@.len(),
                name_run_end(self.src@, start as int) == name_run_end(self.src@, self.pos as int),
                raw@ == self.src@.subrange(start as int, self.pos as int),
            decreases self.src@.len() - self.pos,
        {
            raw.push(self.src[self.pos]);
            self.pos = self.pos + 1;
            proof {
                assert(raw@ =~= self.src@.subrange(start as int, self.pos as int));
            }
        }
        chars_to_string(&raw)
    }

    /// A literal at the cursor: quoted if `|` opens it, else an unquoted
    /// run; an empty run is an error when required, else absence.
    fn parse_literal(&mut self, required: bool) -> (r: Result<Option<Literal>, SyntaxError>)
        requires
            old(self).wf(),
        ensures
            final(self).wf(),
            final(self).src_chars() == old(self).src_chars(),
            match (r, spec_parse_literal(old(self).src_chars(), old(self).cursor(), required)) {
                (Ok(Some(l)), Ok(sp)) => sp.0 matches Some(sl) && l@ == sl && final(self).cursor() == sp.1,
                (Ok(None, ), Ok(sp)) => sp.0 is None && final(self).cursor() == sp.1,
                (Err(e), Err(se)) => e@ == se,
                _ => false,
            },
    {
        if self.pos < self.src.len() && self.src[self.pos] == '|' {
            return self.parse_quoted_literal();
        }
        let start = self.pos;
        let value = self.parse_unquoted_literal();
        if self.pos == start {
            if required {
                return Err(SyntaxError::EmptyToken(Error::new(self.pos, None, None)));
            } else {
                return Ok(None);
            }
        }
        Ok(Some(Literal::new(value)))
    }

    /// The optional operand of an expression: a variable reference, a
    /// literal, or nothing (an error when required).
    fn parse_value(&mut self, required: bool) -> (r: Result<ParsedValue, SyntaxError>)
        requires
            old(self).wf(),
        ensures
            final(self).wf(),
            final(self).src_chars() == old(self).src_chars(),
            match (r, spec_parse_value(old(self).src_chars(), old(self).cursor(), required)) {
                (Ok(v), Ok(sp)) => v@ == sp.0 && final(self).cursor() == sp.1,
                (Err(e), Err(se)) => e@ == se,
                _ => false,
            },
    {
        if self.pos < self.src.len() && self.src[self.pos] == '$' {
            let v = self.parse_variable()?;
            return Ok(ParsedValue::Variable(v));
        }
        let start = self.pos;
        let literal = self.parse_literal(required)?;
        match literal {
            None => {
                if required {
                    Err(SyntaxError::EmptyToken(Error::new(start, None, None)))
                } else {
                    Ok(ParsedValue::Absent)
                }
            },
            Some(l) => Ok(ParsedValue::Literal(l)),
        }
    }

    /// The option list of a function or markup: `identifier = value`
    /// pairs up to the first `/`, `}` or `@`, separated by whitespace
    /// that is mandatory unless `/` or `}` follows directly.  A repeated
    /// name is a `DuplicateOptionName` error spanning the repeated
    /// identifier; `None` is returned when no pair was collected.
    fn parse_options(&mut self) -> (r: Result<Option<Vec<OptionEntry>>, SyntaxError>)
        requires
            old(self).wf(),
        ensures
            final(self).wf(),
            final(self).src_chars() == old(self).src_chars(),
            match (r, spec_parse_options(old(self).src_chars(), old(self).cursor())) {
                (Ok(o), Ok(sp)) => final(self).cursor() == sp.1 && (match (o, sp.0) {
                    (Some(v), Some(sv)) => views(v@) == sv,
                    (None, None) => true,
                    _ => false,
                }),
                (Err(e), Err(se)) => e@ == se,
                _ => false,
            },
            r matches Ok(Some(v)) ==> distinct_option_names(views(v@)),
    {
        proof {
            lemma_parse_options_distinct(self.src@, self.pos as int);
        }
        let mut options: Vec<OptionEntry> = Vec::new();
        self.skip_whitespaces_required_if_not_followed_by(charset2('/', '}'))?;
        let ghost p1 = self.pos as int;
        proof {
            lemma_views_empty::<OptionEntry>();
        }
        while self.pos < self.src.len()
            invariant_except_break
                self.wf(),
                self.src@ == old(self).src@,
                spec_skip_ws_cond(self.src@, old(self).cursor(), seq!['/', '}']) == Ok::<
                    int,
                    SpecSyntaxError,
                >(p1),
                0 <= p1 <= self.src@.len(),
                spec_options_loop(self.src@, p1, Seq::empty()) == spec_options_loop(
                    self.src@,
                    self.pos as int,
                    views(options@),
                ),
            ensures
                self.wf(),
                self.src@ == old(self).src@,
                spec_skip_ws_cond(self.src@, old(self).cursor(), seq!['/', '}']) == Ok::<
                    int,
                    SpecSyntaxError,
                >(p1),
                spec_options_loop(self.src@, p1, Seq::empty()) == Ok::<
                    (Seq<SpecOptionEntry>, int),
                    SpecSyntaxError,
                >((views(options@), self.pos as int)),
            decreases self.src@.len() - self.pos,
        {
            let c = self.src[self.pos];
            if c == '/' || c == '}' || c == '@' {
                break;
            }
            let ghost pos0 = self.pos as int;
            let start = self.pos;
            let name = self.parse_identifier()?;
            proof {
                lemma_parse_identifier(self.src@, pos0);
            }
            if options_contain_name(&options, &name) {
                return Err(
                    SyntaxError::DuplicateOptionName(Error::new(start, Some(self.pos), None)),
                );
            }
            let ghost pos_ident = self.pos as int;
            self.skip_whitespaces();
            proof {
                lemma_ws_end(self.src@, pos_ident);
                reveal_strlit("=");
                assert(("=")@ =~= seq!['=']);
            }
            self.expect_string("=", true)?;
            let ghost pos_eq = self.pos as int;
            self.skip_whitespaces();
            proof {
                lemma_ws_end(self.src@, pos_eq);
            }
            let ghost pos4 = self.pos as int;
            let value = match self.parse_value(true)? {
                ParsedValue::Literal(l) => OptionValue::Literal(l),
                ParsedValue::Variable(v) => OptionValue::VariableRef(v),
                ParsedValue::Absent => {
                    return Err(SyntaxError::EmptyToken(Error::new(self.pos, None, None)));
                },
            };
            proof {
                lemma_parse_value(self.src@, pos4, true);
            }
            let ghost prev = options@;
            options.push(OptionEntry::new(name, value));
            proof {
                lemma_views_push(prev, options@[prev.len() as int]);
                assert(options@ =~= prev.push(options@[prev.len() as int]));
            }
            let ghost pos_value = self.pos as int;
            self.skip_whitespaces_required_if_not_followed_by(charset2('/', '}'))?;
            proof {
                lemma_ws_end(self.src@, pos_value);
            }
        }
        if options.len() == 0 {
            Ok(None)
        } else {
            Ok(Some(options))
        }
    }

    /// The attribute list of an expression or markup: `@identifier`,
    /// optionally `= literal`, while an `@` is in view.  A repeated name
    /// is a `DuplicateAttribute` error spanning from the `@` over the
    /// repeated identifier; `None` is returned when none was collected.
    fn parse_attributes(&mut self) -> (r: Result<Option<Vec<AttributeEntry>>, SyntaxError>)
        requires
            old(self).wf(),
        ensures
            final(self).wf(),
            final(self).src_chars() == old(self).src_chars(),
            match (r, spec_parse_attributes(old(self).src_chars(), old(self).cursor())) {
                (Ok(o), Ok(sp)) => final(self).cursor() == sp.1 && (match (o, sp.0) {
                    (Some(v), Some(sv)) => views(v@) == sv,
                    (None, None) => true,
                    _ => false,
                }),
                (Err(e), Err(se)) => e@ == se,
                _ => false,
            },
            r matches Ok(Some(v)) ==> distinct_attribute_names(views(v@)),
    {
        proof {
            lemma_parse_attributes_distinct(self.src@, self.pos as int);
        }
        let mut attributes: Vec<AttributeEntry> = Vec::new();
        proof {
            lemma_views_empty::<AttributeEntry>();
        }
        while self.pos < self.src.len() && self.src[self.pos] == '@'
            invariant
                self.wf(),
                self.src@ == old(self).src@,
                0 <= old(self).cursor() <= self.src@.len(),
                spec_attributes_loop(self.src@, old(self).cursor(), Seq::empty())
                    == spec_attributes_loop(self.src@, self.pos as int, views(attributes@)),
            decreases self.src@.len() - self.pos,
        {
            let start = self.pos;
            self.pos = self.pos + 1;
            let ghost pos1 = self.pos as int;
            let name = self.parse_identifier()?;
            proof {
                lemma_parse_identifier(self.src@, pos1);
            }
            if attributes_contain_name(&attributes, &name) {
                return Err(
                    SyntaxError::DuplicateAttribute(Error::new(start, Some(self.pos), None)),
                );
            }
            let ghost pos_ident = self.pos as int;
            self.skip_whitespaces_required_if_not_followed_by(charset3('=', '/', '}'))?;
            proof {
                lemma_ws_end(self.src@, pos_ident);
            }
            let ghost prev = attributes@;
            if self.pos < self.src.len() && self.src[self.pos] == '=' {
                self.pos = self.pos + 1;
                let ghost pos_eq = self.pos as int;
                self.skip_whitespaces();
                proof {
                    lemma_ws_end(self.src@, pos_eq);
                }
                let ghost pos4 = self.pos as int;
                let value = self.parse_literal(true)?;
                proof {
                    lemma_parse_literal(self.src@, pos4, true);
                }
                match value {
                    Some(literal) => {
                        attributes.push(
                            AttributeEntry::new(name, AttributeValue::Literal(literal.value)),
                        );
                    },
                    None => {
                        return Err(SyntaxError::EmptyToken(Error::new(self.pos, None, None)));
                    },
                }
            } else {
                attributes.push(AttributeEntry::new(name, AttributeValue::True(true)));
            }
            proof {
                lemma_views_push(prev, attributes@[prev.len() as int]);
                assert(attributes@ =~= prev.push(attributes@[prev.len() as int]));
            }
        }
        if attributes.len() == 0 {
            Ok(None)
        } else {
            Ok(Some(attributes))
        }
    }

    /// The tail of an expression placeholder: attributes, the closing
    /// `}`, and composition of the operand with the function reference.
    fn finish_expression(&mut self, start: usize, arg: ParsedValue, func: Option<FunctionRef>) -> (r:
        Result<Expression, SyntaxError>)
        requires
            old(self).wf(),
            start < usize::MAX,
        ensures
            final(self).wf(),
            final(self).src_chars() == old(self).src_chars(),
            match (r, spec_finish_expression(
                old(self).src_chars(),
                start as int,
                arg@,
                (match func {
                    Some(f) => Some(f@),
                    None => None,
                }),
                old(self).cursor(),
            )) {
                (Ok(expr), Ok(sp)) => sp.0 matches SpecExprOrMarkup::Expression(se) && expr@ == se
                    && final(self).cursor() == sp.1,
                (Err(e), Err(se)) => e@ == se,
                _ => false,
            },
    {
        let attributes = self.parse_attributes()?;
        proof {
            reveal_strlit("}");
            assert(("}")@ =~= seq!['}']);
        }
        self.expect_string("}", true)?;
        match arg {
            ParsedValue::Literal(literal) => {
                let mut literal_expr = LiteralExpression::new();
                literal_expr.set_literal(literal);
                if let Some(f) = func {
                    literal_expr.set_function(f);
                }
                if let Some(attrs) = attributes {
                    literal_expr.set_attributes(attrs);
                }
                Ok(Expression::Literal(literal_expr))
            },
            ParsedValue::Variable(var_ref) => {
                let mut var_expr = VariableExpression::new();
                var_expr.set_variable_ref(var_ref);
                if let Some(f) = func {
                    var_expr.set_function(f);
                }
                if let Some(attrs) = attributes {
                    var_expr.set_attributes(attrs);
                }
                Ok(Expression::Variable(var_expr))
            },
            ParsedValue::Absent => {
                match func {
                    None => Err(SyntaxError::EmptyToken(Error::new(start, None, None))),
                    Some(f) => {
                        let mut func_expr = FunctionExpression::new();
                        func_expr.set_function(f);
                        if let Some(attrs) = attributes {
                            func_expr.set_attributes(attrs);
                        }
                        Ok(Expression::Function(func_expr))
                    },
                }
            },
        }
    }

    /// The tail of a markup placeholder: attributes, reclassification of
    /// `{#tag ... /}` as stand-alone, and the closing `}`.
    fn finish_markup(
        &mut self,
        name: String,
        kind: MarkupKind,
        options: Option<Vec<OptionEntry>>,
    ) -> (r: Result<Markup, SyntaxError>)
        requires
            old(self).wf(),
        ensures
            final(self).wf(),
            final(self).src_chars() == old(self).src_chars(),
            match (r, spec_finish_markup(
                old(self).src_chars(),
                name@,
                kind,
                (match options {
                    Some(ref o) => Some(views(o@)),
                    None => None,
                }),
                old(self).cursor(),
            )) {
                (Ok(m), Ok(sp)) => sp.0 matches SpecExprOrMarkup::Markup(sm) && m@ == sm
                    && final(self).cursor() == sp.1,
                (Err(e), Err(se)) => e@ == se,
                _ => false,
            },
    {
        let attributes = self.parse_attributes()?;
        let mut markup = Markup::new();
        markup.set_name(name);
        if let Some(opts) = options {
            markup.set_options(opts);
        }
        let slash = match kind {
            MarkupKind::Open => self.pos < self.src.len() && self.src[self.pos] == '/',
            _ => false,
        };
        if slash {
            markup.set_kind(MarkupKind::StandAlone);
            self.pos = self.pos + 1;
        } else {
            markup.set_kind(kind);
        }
        proof {
            reveal_strlit("}");
            assert(("}")@ =~= seq!['}']);
        }
        self.expect_string("}", true)?;
        if let Some(attrs) = attributes {
            markup.set_attributes(attrs);
        }
        Ok(markup)
    }

    /// A `{ ... }` placeholder at the cursor: an optional operand, then
    /// a function reference, markup, or nothing, then attributes and the
    /// closing `}`.  Markup is only legal where `allow_markup` is set and
    /// no operand was read.
    fn parse_expression_or_markup(&mut self, allow_markup: bool) -> (r: Result<
        ParsedExpressionOrMarkup,
        SyntaxError,
    >)
        requires
            old(self).wf(),
            old(self).cursor() < old(self).src_chars().len(),
            old(self).src_chars()[old(self).cursor()] == '{',
        ensures
            final(self).wf(),
            final(self).src_chars() == old(self).src_chars(),
            match (r, spec_parse_expression_or_markup(
                old(self).src_chars(),
                old(self).cursor(),
                allow_markup,
            )) {
                (Ok(v), Ok(sp)) => v@ == sp.0 && final(self).cursor() == sp.1,
                (Err(e), Err(se)) => e@ == se,
                _ => false,
            },
    {
        proof {
            reveal(spec_parse_expression_or_markup);
        }
        let start_pos = self.pos;
        self.pos = self.pos + 1;
        self.skip_whitespaces();
        let arg = self.parse_value(false)?;
        let arg_is_absent = match arg {
            ParsedValue::Absent => true,
            _ => false,
        };
        if !arg_is_absent {
            self.skip_whitespaces_required_if_not_followed_by(charset1('}'))?;
        }
        if self.pos >= self.src.len() {
            proof {
                reveal_strlit("}");
                assert(("}")@ =~= seq!['}']);
            }
            return Err(
                SyntaxError::MissingSyntax(
                    Error::new(self.src.len(), None, Some(String::from_str("}"))),
                ),
            );
        }
        let c = self.src[self.pos];
        if c == '@' || c == '}' {
            let expr = self.finish_expression(start_pos, arg, None)?;
            Ok(ParsedExpressionOrMarkup::Expression(expr))
        } else if c == ':' {
            self.pos = self.pos + 1;
            let func_name = self.parse_identifier()?;
            let options = self.parse_options()?;
            let mut function_ref = FunctionRef::new();
            function_ref.set_name(func_name);
            if let Some(opts) = options {
                function_ref.set_options(opts);
            }
            let expr = self.finish_expression(start_pos, arg, Some(function_ref))?;
            Ok(ParsedExpressionOrMarkup::Expression(expr))
        } else if c == '#' || c == '/' {
            if !allow_markup || !arg_is_absent {
                return Err(SyntaxError::ParseError(Error::new(start_pos, None, None)));
            }
            let markup_kind = if c == '#' {
                MarkupKind::Open
            } else {
                MarkupKind::Close
            };
            self.pos = self.pos + 1;
            let name = self.parse_identifier()?;
            let options = self.parse_options()?;
            let markup = self.finish_markup(name, markup_kind, options)?;
            Ok(ParsedExpressionOrMarkup::Markup(markup))
        } else {
            Err(SyntaxError::ParseError(Error::new(self.pos, None, None)))
        }
    }

    /// A pattern at the cursor: delimited by `{{` and `}}` when
    /// `quoted`, running to the end of input otherwise.  Text runs,
    /// expressions and markup are collected in input order.
    #[verifier::rlimit(100)]
    pub fn parse_pattern(&mut self, quoted: bool) -> (r: Result<Vec<PatternItem>, SyntaxError>)
        requires
            old(self).wf(),
        ensures
            final(self).wf(),
            final(self).src_chars() == old(self).src_chars(),
            match (r, spec_parse_pattern(old(self).src_chars(), old(self).cursor(), quoted)) {
                (Ok(items), Ok(sp)) => views(items@) == sp.0 && final(self).cursor() == sp.1,
                (Err(e), Err(se)) => e@ == se,
                _ => false,
            },
    {
        proof {
            reveal_strlit("{{");
            reveal_strlit("}}");
            assert(("{{")@ =~= seq!['{', '{']);
            assert(("}}")@ =~= seq!['}', '}']);
        }
        if quoted {
            if self.token_matches("{{") {
                proof {
                    lemma_token_at_chars(self.src@, self.pos as int, seq!['{', '{']);
                }
                self.pos = self.pos + 2;
            } else {
                return Err(
                    SyntaxError::MissingSyntax(
                        Error::new(self.pos, None, Some(String::from_str("{{"))),
                    ),
                );
            }
        }
        let ghost p0 = self.pos as int;
        let mut patterns: Vec<PatternItem> = Vec::new();
        let mut text: Vec<char> = Vec::new();
        proof {
            lemma_views_empty::<PatternItem>();
        }
        while self.pos < self.src.len()
            invariant_except_break
                self.wf(),
                self.src@ == old(self).src@,
                0 <= old(self).cursor() <= self.src@.len(),
                0 <= p0 <= self.src@.len(),
                quoted ==> token_at(self.src@, old(self).cursor(), seq!['{', '{']) && p0 == old(
                    self,
                ).cursor() + 2,
                !quoted ==> p0 == old(self).cursor(),
                ("{{")@ == seq!['{', '{'],
                ("}}")@ == seq!['}', '}'],
                spec_pattern_loop(self.src@, p0, Seq::empty(), Seq::empty(), quoted)
                    == spec_pattern_loop(
                    self.src@,
                    self.pos as int,
                    views(patterns@),
                    text@,
                    quoted,
                ),
            ensures
                self.wf(),
                self.src@ == old(self).src@,
                quoted ==> token_at(self.src@, old(self).cursor(), seq!['{', '{']) && p0 == old(
                    self,
                ).cursor() + 2,
                !quoted ==> p0 == old(self).cursor(),
                ("{{")@ == seq!['{', '{'],
                ("}}")@ == seq!['}', '}'],
                spec_pattern_loop(self.src@, p0, Seq::empty(), Seq::empty(), quoted)
                    == spec_pattern_loop(
                    self.src@,
                    self.pos as int,
                    views(patterns@),
                    text@,
                    quoted,
                ),
                self.pos as int >= self.src@.len() || (quoted && self.src@[self.pos as int]
                    == '}'),
            decreases self.src@.len() - self.pos,
        {
            let c = self.src[self.pos];
            if c == '{' {
                if text.len() > 0 {
                    let ghost prevp = patterns@;
                    patterns.push(PatternItem::String(chars_to_string(&text)));
                    text = Vec::new();
                    proof {
                        lemma_views_push(prevp, patterns@[prevp.len() as int]);
                        assert(patterns@ =~= prevp.push(patterns@[prevp.len() as int]));
                    }
                }
                let ghost pos_eom = self.pos as int;
                let ghost acc_flushed = views(patterns@);
                let eom = self.parse_expression_or_markup(true)?;
                proof {
                    lemma_parse_expression_or_markup(self.src@, pos_eom, true);
                }
                let ghost prevp = patterns@;
                match eom {
                    ParsedExpressionOrMarkup::Expression(expr) => {
                        patterns.push(PatternItem::Expression(expr));
                        proof {
                            lemma_views_push(prevp, patterns@[prevp.len() as int]);
                            assert(patterns@ =~= prevp.push(patterns@[prevp.len() as int]));
                            assert(views(patterns@) == acc_flushed.push(
                                SpecPatternItem::Expression(expr@),
                            ));
                        }
                    },
                    ParsedExpressionOrMarkup::Markup(markup) => {
                        patterns.push(PatternItem::Markup(markup));
                        proof {
                            lemma_views_push(prevp, patterns@[prevp.len() as int]);
                            assert(patterns@ =~= prevp.push(patterns@[prevp.len() as int]));
                            assert(views(patterns@) == acc_flushed.push(
                                SpecPatternItem::Markup(markup@),
                            ));
                        }
                    },
                }
                proof {
                    assert(text@ =~= Seq::<char>::empty());
                }
            } else if c == '}' {
                if !quoted {
                    return Err(SyntaxError::ParseError(Error::new(self.pos, None, None)));
                }
                break;
            } else {
                text.push(c);
                self.pos = self.pos + 1;
            }
        }
        if text.len() > 0 {
            let ghost prevp = patterns@;
            patterns.push(PatternItem::String(chars_to_string(&text)));
            proof {
                lemma_views_push(prevp, patterns@[prevp.len() as int]);
                assert(patterns@ =~= prevp.push(patterns@[prevp.len() as int]));
            }
        }
        if quoted {
            if self.token_matches("}}") {
                proof {
                    lemma_token_at_chars(self.src@, self.pos as int, seq!['}', '}']);
                }
                self.pos = self.pos + 2;
                Ok(patterns)
            } else {
                Err(
                    SyntaxError::MissingSyntax(
                        Error::new(self.pos, None, Some(String::from_str("}}"))),
                    ),
                )
            }
        } else {
            Ok(patterns)
        }
    }

    /// One arm of a select message: its keys (literal or `*`), then a
    /// quoted pattern.  The first key needs only optional leading
    /// whitespace; each further key needs a mandatory separator.
    #[verifier::rlimit(100)]
    pub fn parse_variant(&mut self) -> (r: Result<Variant, SyntaxError>)
        requires
            old(self).wf(),
        ensures
            final(self).wf(),
            final(self).src_chars() == old(self).src_chars(),
            match (r, spec_parse_variant(old(self).src_chars(), old(self).cursor())) {
                (Ok(v), Ok(sp)) => v@ == sp.0 && final(self).cursor() == sp.1,
                (Err(e), Err(se)) => e@ == se,
                _ => false,
            },
    {
        let mut keys: Vec<VariantKey> = Vec::new();
        proof {
            lemma_views_empty::<VariantKey>();
        }
        while self.pos < self.src.len()
            invariant_except_break
                self.wf(),
                self.src@ == old(self).src@,
                0 <= old(self).cursor() <= self.src@.len(),
                spec_variant_keys_loop(self.src@, old(self).cursor(), Seq::empty())
                    == spec_variant_keys_loop(self.src@, self.pos as int, views(keys@)),
            ensures
                self.wf(),
                self.src@ == old(self).src@,
                spec_variant_keys_loop(self.src@, old(self).cursor(), Seq::empty()) == Ok::<
                    (Seq<SpecVariantKey>, int),
                    SpecSyntaxError,
                >((views(keys@), self.pos as int)),
            decreases self.src@.len() - self.pos,
        {
            let ghost pos_ws = self.pos as int;
            if keys.len() > 0 {
                self.skip_whitespaces_required()?;
            } else {
                self.skip_whitespaces();
            }
            proof {
                lemma_ws_end(self.src@, pos_ws);
            }
            if self.pos >= self.src.len() {
                break;
            }
            let next_char = self.src[self.pos];
            if next_char == '{' {
                break;
            } else if next_char == '*' {
                self.pos = self.pos + 1;
                let ghost prevk = keys@;
                keys.push(VariantKey::CatchallKey(CatchallKey::new()));
                proof {
                    lemma_views_push(prevk, keys@[prevk.len() as int]);
                    assert(keys@ =~= prevk.push(keys@[prevk.len() as int]));
                }
            } else {
                let ghost pos_lit = self.pos as int;
                let key = self.parse_literal(true)?;
                proof {
                    lemma_parse_literal(self.src@, pos_lit, true);
                }
                match key {
                    Some(literal) => {
                        let ghost prevk = keys@;
                        keys.push(VariantKey::Literal(literal));
                        proof {
                            lemma_views_push(prevk, keys@[prevk.len() as int]);
                            assert(keys@ =~= prevk.push(keys@[prevk.len() as int]));
                        }
                    },
                    None => {
                        return Err(SyntaxError::EmptyToken(Error::new(self.pos, None, None)));
                    },
                }
            }
        }
        let mut variant = Variant::new();
        variant.set_keys(keys);
        let value = self.parse_pattern(true)?;
        variant.set_value(value);
        Ok(variant)
    }

    /// A select message after `.match`: mandatory whitespace, one or
    /// more selectors, then variants until the input is exhausted.
    #[verifier::rlimit(100)]
    fn parse_select_message(&mut self, declarations: Vec<Declaration>) -> (r: Result<
        SelectMessage,
        SyntaxError,
    >)
        requires
            old(self).wf(),
        ensures
            final(self).wf(),
            final(self).src_chars() == old(self).src_chars(),
            match (r, spec_parse_select_message(
                old(self).src_chars(),
                old(self).cursor(),
                views(declarations@),
            )) {
                (Ok(m), Ok(sp)) => m@ == sp.0 && final(self).cursor() == sp.1,
                (Err(e), Err(se)) => e@ == se,
                _ => false,
            },
    {
        self.skip_whitespaces_required()?;
        let ghost p1 = self.pos as int;
        let mut selectors: Vec<VariableRef> = Vec::new();
        proof {
            lemma_views_empty::<VariableRef>();
        }
        while self.pos < self.src.len() && self.src[self.pos] == '$'
            invariant
                self.wf(),
                self.src@ == old(self).src@,
                0 <= old(self).cursor() <= self.src@.len(),
                0 <= p1 <= self.src@.len(),
                spec_skip_ws_required(self.src@, old(self).cursor()) == Ok::<
                    int,
                    SpecSyntaxError,
                >(p1),
                spec_selectors_loop(self.src@, p1, Seq::empty()) == spec_selectors_loop(
                    self.src@,
                    self.pos as int,
                    views(selectors@),
                ),
            decreases self.src@.len() - self.pos,
        {
            let ghost pos_var = self.pos as int;
            let v = self.parse_variable()?;
            proof {
                lemma_parse_variable(self.src@, pos_var);
            }
            let ghost prevs = selectors@;
            selectors.push(v);
            proof {
                lemma_views_push(prevs, selectors@[prevs.len() as int]);
                assert(selectors@ =~= prevs.push(selectors@[prevs.len() as int]));
            }
            let ghost pos_ws = self.pos as int;
            self.skip_whitespaces_required()?;
            proof {
                lemma_ws_end(self.src@, pos_ws);
            }
        }
        if selectors.len() == 0 {
            return Err(SyntaxError::EmptyToken(Error::new(self.pos, None, None)));
        }
        let ghost p2 = self.pos as int;
        let mut variants: Vec<Variant> = Vec::new();
        proof {
            lemma_views_empty::<Variant>();
        }
        while self.pos < self.src.len()
            invariant
                self.wf(),
                self.src@ == old(self).src@,
                0 <= old(self).cursor() <= self.src@.len(),
                0 <= p1 <= self.src@.len(),
                0 <= p2 <= self.src@.len(),
                spec_skip_ws_required(self.src@, old(self).cursor()) == Ok::<
                    int,
                    SpecSyntaxError,
                >(p1),
                spec_selectors_loop(self.src@, p1, Seq::empty()) == Ok::<
                    (Seq<SpecVariableRef>, int),
                    SpecSyntaxError,
                >((views(selectors@), p2)),
                views(selectors@).len() > 0,
                spec_variants_loop(self.src@, p2, Seq::empty()) == spec_variants_loop(
                    self.src@,
                    self.pos as int,
                    views(variants@),
                ),
            decreases self.src@.len() - self.pos,
        {
            let ghost pos_var = self.pos as int;
            let v = self.parse_variant()?;
            proof {
                lemma_parse_variant(self.src@, pos_var);
            }
            let ghost prevv = variants@;
            variants.push(v);
            proof {
                lemma_views_push(prevv, variants@[prevv.len() as int]);
                assert(variants@ =~= prevv.push(variants@[prevv.len() as int]));
            }
            let ghost pos_ws = self.pos as int;
            self.skip_whitespaces();
            proof {
                lemma_ws_end(self.src@, pos_ws);
            }
        }
        let mut select_message = SelectMessage::new();
        select_message.set_declarations(declarations);
        select_message.set_selectors(selectors);
        select_message.set_variants(variants);
        Ok(select_message)
    }

    /// An `.input` declaration body: whitespace, then a placeholder that
    /// must be a bare variable expression.
    fn parse_input_declaration(&mut self) -> (r: Result<InputDeclaration, SyntaxError>)
        requires
            old(self).wf(),
        ensures
            final(self).wf(),
            final(self).src_chars() == old(self).src_chars(),
            match (r, spec_parse_input_declaration(old(self).src_chars(), old(self).cursor())) {
                (Ok(d), Ok(sp)) => d@ == sp.0 && final(self).cursor() == sp.1,
                (Err(e), Err(se)) => e@ == se,
                _ => false,
            },
    {
        self.skip_whitespaces();
        proof {
            reveal_strlit("{");
            assert(("{")@ =~= seq!['{']);
        }
        self.expect_string("{", false)?;
        proof {
            lemma_token_at_chars(self.src@, self.pos as int, seq!['{']);
        }
        let value_start = self.pos;
        let value = self.parse_expression_or_markup(false)?;
        match value {
            ParsedExpressionOrMarkup::Expression(Expression::Variable(var_expr)) => {
                let mut input_decl = InputDeclaration::new();
                input_decl.set_name(var_expr.get_variable_name());
                input_decl.set_value(var_expr);
                Ok(input_decl)
            },
            _ => Err(SyntaxError::BadInputExpression(Error::new(value_start, None, None))),
        }
    }

    /// A `.local` declaration body: mandatory whitespace, `$name`, `=`,
    /// and an expression placeholder.
    fn parse_local_declaration(&mut self) -> (r: Result<LocalDeclaration, SyntaxError>)
        requires
            old(self).wf(),
        ensures
            final(self).wf(),
            final(self).src_chars() == old(self).src_chars(),
            match (r, spec_parse_local_declaration(old(self).src_chars(), old(self).cursor())) {
                (Ok(d), Ok(sp)) => d@ == sp.0 && final(self).cursor() == sp.1,
                (Err(e), Err(se)) => e@ == se,
                _ => false,
            },
    {
        self.skip_whitespaces_required()?;
        proof {
            reveal_strlit("$");
            assert(("$")@ =~= seq!['$']);
        }
        self.expect_string("$", true)?;
        let name = self.parse_name()?;
        self.skip_whitespaces();
        proof {
            reveal_strlit("=");
            assert(("=")@ =~= seq!['=']);
        }
        self.expect_string("=", true)?;
        self.skip_whitespaces();
        proof {
            reveal_strlit("{");
            assert(("{")@ =~= seq!['{']);
        }
        self.expect_string("{", false)?;
        proof {
            lemma_token_at_chars(self.src@, self.pos as int, seq!['{']);
        }
        let value = self.parse_expression_or_markup(false)?;
        match value {
            ParsedExpressionOrMarkup::Expression(expr) => {
                let mut local_decl = LocalDeclaration::new(expr);
                local_decl.set_name(name);
                Ok(local_decl)
            },
            ParsedExpressionOrMarkup::Markup(_) => {
                Err(SyntaxError::BadInputExpression(Error::new(self.pos, None, None)))
            },
        }
    }

    /// The leading declaration sequence: `.input` and `.local`
    /// declarations while a `.` is in view; `.match` ends the sequence
    /// and selects select-message mode (the returned boolean).
    #[verifier::rlimit(100)]
    fn parse_declarations(&mut self) -> (r: Result<(Vec<Declaration>, bool), SyntaxError>)
        requires
            old(self).wf(),
        ensures
            final(self).wf(),
            final(self).src_chars() == old(self).src_chars(),
            match (r, spec_decl_loop(
                old(self).src_chars(),
                ws_end(old(self).src_chars(), old(self).cursor()),
                Seq::empty(),
            )) {
                (Ok(dm), Ok(sp)) => views(dm.0@) == sp.0.0 && dm.1 == sp.0.1 && final(self).cursor()
                    == sp.1,
                (Err(e), Err(se)) => e@ == se,
                _ => false,
            },
    {
        self.skip_whitespaces();
        let ghost p0 = self.pos as int;
        let mut declarations: Vec<Declaration> = Vec::new();
        let mut is_match = false;
        proof {
            lemma_views_empty::<Declaration>();
        }
        while self.pos < self.src.len() && self.src[self.pos] == '.'
            invariant_except_break
                self.wf(),
                self.src@ == old(self).src@,
                0 <= old(self).cursor() <= self.src@.len(),
                0 <= p0 <= self.src@.len(),
                p0 == ws_end(self.src@, old(self).cursor()),
                is_match == false,
                spec_decl_loop(self.src@, p0, Seq::empty()) == spec_decl_loop(
                    self.src@,
                    self.pos as int,
                    views(declarations@),
                ),
            ensures
                self.wf(),
                self.src@ == old(self).src@,
                p0 == ws_end(self.src@, old(self).cursor()),
                spec_decl_loop(self.src@, p0, Seq::empty()) == Ok::<
                    ((Seq<SpecDeclaration>, bool), int),
                    SpecSyntaxError,
                >(((views(declarations@), is_match), self.pos as int)),
            decreases self.src@.len() - self.pos,
        {
            proof {
                reveal_strlit(".input");
                reveal_strlit(".local");
                reveal_strlit(".match");
                assert((".input")@ =~= kw_input());
                assert((".local")@ =~= kw_local());
                assert((".match")@ =~= kw_match());
            }
            if self.token_matches(".input") {
                proof {
                    lemma_token_at_chars(self.src@, self.pos as int, kw_input());
                }
                self.pos = self.pos + 6;
                let ghost pos_d = self.pos as int;
                let input_decl = self.parse_input_declaration()?;
                proof {
                    lemma_parse_input_declaration(self.src@, pos_d);
                }
                let ghost prevd = declarations@;
                declarations.push(Declaration::Input(input_decl));
                proof {
                    lemma_views_push(prevd, declarations@[prevd.len() as int]);
                    assert(declarations@ =~= prevd.push(declarations@[prevd.len() as int]));
                }
                let ghost pos_ws = self.pos as int;
                self.skip_whitespaces();
                proof {
                    lemma_ws_end(self.src@, pos_ws);
                }
            } else if self.token_matches(".local") {
                proof {
                    lemma_token_at_chars(self.src@, self.pos as int, kw_local());
                }
                self.pos = self.pos + 6;
                let ghost pos_d = self.pos as int;
                let local_decl = self.parse_local_declaration()?;
                proof {
                    lemma_parse_local_declaration(self.src@, pos_d);
                }
                let ghost prevd = declarations@;
                declarations.push(Declaration::Local(local_decl));
                proof {
                    lemma_views_push(prevd, declarations@[prevd.len() as int]);
                    assert(declarations@ =~= prevd.push(declarations@[prevd.len() as int]));
                }
                let ghost pos_ws = self.pos as int;
                self.skip_whitespaces();
                proof {
                    lemma_ws_end(self.src@, pos_ws);
                }
            } else if self.token_matches(".match") {
                proof {
                    lemma_token_at_chars(self.src@, self.pos as int, kw_match());
                }
                self.pos = self.pos + 6;
                is_match = true;
                break;
            } else {
                return Err(SyntaxError::ParseError(Error::new(self.pos, None, None)));
            }
        }
        Ok((declarations, is_match))
    }

    /// Parses the whole input as an MF2 message, resetting the cursor.
    /// Returns exactly what the mathematical grammar assigns to the
    /// input: the message, or the first syntax error.
    #[verifier::rlimit(100)]
    pub fn parse(&mut self) -> (r: Result<Message, SyntaxError>)
        requires
            old(self).wf(),
        ensures
            final(self).wf(),
            final(self).src_chars() == old(self).src_chars(),
            match (r, spec_parse(old(self).src_chars())) {
                (Ok(m), Ok(sm)) => m@ == sm,
                (Err(e), Err(se)) => e@ == se,
                _ => false,
            },
            r matches Ok(m) ==> wf_message(m@),
    {
        proof {
            lemma_parse_no_duplicate_names(self.src@);
        }
        self.pos = 0;
        let (declarations, is_match) = self.parse_declarations()?;
        if is_match {
            let select_message = self.parse_select_message(declarations)?;
            return Ok(Message::Select(select_message));
        }
        self.skip_whitespaces();
        proof {
            reveal_strlit("{{");
            assert(("{{")@ =~= seq!['{', '{']);
        }
        let quoted = self.token_matches("{{");
        if !quoted && self.pos > 0 {
            self.pos = 0;
        }
        let pattern = self.parse_pattern(quoted)?;
        if quoted {
            self.skip_whitespaces();
            if self.pos < self.src.len() {
                return Err(SyntaxError::ExtraContent(Error::new(self.pos, None, None)));
            }
        }
        let mut pattern_message = PatternMessage::new();
        pattern_message.set_declarations(declarations);
        pattern_message.set_pattern(pattern);
        Ok(Message::Pattern(pattern_message))
    }
}

/// Whether an option list already holds an entry named `name`.
fn options_contain_name(options: &Vec<OptionEntry>, name: &String) -> (r: bool)
    ensures
        r == options_have_name(views(options@), name@),
{
    let mut i: usize = 0;
    while i < options.len()
        invariant
            0 <= i <= options@.len(),
            forall|k: int| 0 <= k < i ==> views(options@)[k].name != name@,
        decreases options@.len() - i,
    {
        if options[i].name.eq(name) {
            proof {
                assert(views(options@)[i as int].name == name@);
            }
            return true;
        }
        proof {
            assert(views(options@)[i as int].name == options@[i as int]@.name);
        }
        i = i + 1;
    }
    false
}

/// Whether an attribute list already holds an entry named `name`.
fn attributes_contain_name(attributes: &Vec<AttributeEntry>, name: &String) -> (r: bool)
    ensures
        r == attributes_have_name(views(attributes@), name@),
{
    let mut i: usize = 0;
    while i < attributes.len()
        invariant
            0 <= i <= attributes@.len(),
            forall|k: int| 0 <= k < i ==> views(attributes@)[k].name != name@,
        decreases attributes@.len() - i,
    {
        if attributes[i].name.eq(name) {
            proof {
                assert(views(attributes@)[i as int].name == name@);
            }
            return true;
        }
        proof {
            assert(views(attributes@)[i as int].name == attributes@[i as int]@.name);
        }
        i = i + 1;
    }
    false
}

/// A one-character terminator set for conditional whitespace.
fn charset1(a: char) -> (r: Vec<char>)
    ensures
        r@ == seq![a],
{
    let mut v: Vec<char> = Vec::new();
    v.push(a);
    proof {
        assert(v@ =~= seq![a]);
    }
    v
}

/// The characters after which a whitespace separator may be omitted
/// before an option or the end of a placeholder.
fn charset2(a: char, b: char) -> (r: Vec<char>)
    ensures
        r@ == seq![a, b],
{
    let mut v: Vec<char> = Vec::new();
    v.push(a);
    v.push(b);
    proof {
        assert(v@ =~= seq![a, b]);
    }
    v
}

/// As [`charset2`], for a three-character terminator set.
fn charset3(a: char, b: char, c: char) -> (r: Vec<char>)
    ensures
        r@ == seq![a, b, c],
{
    let mut v: Vec<char> = Vec::new();
    v.push(a);
    v.push(b);
    v.push(c);
    proof {
        assert(v@ =~= seq![a, b, c]);
    }
    v
}

/// Whether `v` holds the character `c`.
fn vec_contains_char(v: &Vec<char>, c: char) -> (r: bool)
    ensures
        r == v@.contains(c),
{
    let mut i: usize = 0;
    while i < v.len()
        invariant
            0 <= i <= v@.len(),
            forall|k: int| 0 <= k < i ==> v@[k] != c,
        decreases v@.len() - i,
    {
        if v[i] == c {
            return true;
        }
        i = i + 1;
    }
    false
}

} // verus!
