//! Properties of the grammar, stated and proved once for all inputs.
//!
//! Together with the parser's contracts — every parsing method returns
//! exactly what the grammar in [`crate::grammar`] assigns — these laws
//! carry over to the executable parser.

use vstd::prelude::*;

use crate::error::SpecSyntaxError;
use crate::grammar::err_expect;
use crate::grammar::err_span;
use crate::grammar::flush_text;
use crate::grammar::kw_input;
use crate::grammar::kw_local;
use crate::grammar::lemma_token_at_chars;
use crate::grammar::options_have_name;
use crate::grammar::attributes_have_name;
use crate::grammar::or_empty_attributes;
use crate::grammar::or_empty_options;
use crate::grammar::spec_attributes_loop;
use crate::grammar::spec_decl_loop;
use crate::grammar::spec_finish_expression;
use crate::grammar::spec_finish_markup;
use crate::grammar::spec_is_escapable;
use crate::grammar::spec_options_loop;
use crate::grammar::spec_parse;
use crate::grammar::spec_parse_attributes;
use crate::grammar::spec_parse_expression_or_markup;
use crate::grammar::spec_parse_input_declaration;
use crate::grammar::spec_parse_literal;
use crate::grammar::spec_parse_local_declaration;
use crate::grammar::spec_parse_options;
use crate::grammar::spec_parse_pattern;
use crate::grammar::spec_parse_quoted_literal;
use crate::grammar::spec_parse_variant;
use crate::grammar::spec_pattern_loop;
use crate::grammar::spec_quoted_rest;
use crate::grammar::spec_selectors_loop;
use crate::grammar::spec_variant_keys_loop;
use crate::grammar::spec_variants_loop;
use crate::grammar::token_at;
use crate::grammar::ws_end;
use crate::grammar::SpecExprOrMarkup;
use crate::grammar::SpecValue;
use crate::model::SpecAttributeEntry;
use crate::model::SpecDeclaration;
use crate::model::SpecExpression;
use crate::model::SpecFunctionRef;
use crate::model::SpecMarkup;
use crate::model::SpecMessage;
use crate::model::SpecOptionEntry;
use crate::model::SpecPatternItem;
use crate::model::SpecVariant;

verus! {

// ---------------------------------------------------------------------------
// Determinism
// ---------------------------------------------------------------------------

/// Parsing is a pure function of the input text: equal inputs have
/// equal outcomes, the same message or the identical error.  Since
/// [`crate::parser::Mf2Parser::parse`] is proved to return exactly
/// [`spec_parse`] of its input, two runs of the parser over equal
/// inputs agree.
pub proof fn lemma_parse_deterministic(src1: Seq<char>, src2: Seq<char>)
    requires
        src1 == src2,
    ensures
        spec_parse(src1) == spec_parse(src2),
{
}

// ---------------------------------------------------------------------------
// Pattern order
// ---------------------------------------------------------------------------

/// Pattern items accumulate in input order: whatever the pattern scan
/// has already collected stands unchanged, and in the same order, at
/// the front of its final item sequence.  The order of `PatternItem`s
/// in a parsed pattern is therefore the left-to-right order of the
/// text runs, expressions and markup in the input.
pub proof fn lemma_pattern_items_in_input_order(
    src: Seq<char>,
    pos: int,
    acc: Seq<SpecPatternItem>,
    text: Seq<char>,
    quoted: bool,
)
    requires
        0 <= pos <= src.len(),
    ensures
        spec_pattern_loop(src, pos, acc, text, quoted) matches Ok((items, p)) ==> items.len()
            >= acc.len() && items.take(acc.len() as int) == acc,
    decreases src.len() - pos,
{
    if let Ok((items, p)) = spec_pattern_loop(src, pos, acc, text, quoted) {
        if pos >= src.len() || (quoted && src[pos] == '}') {
            assert(flush_text(acc, text).take(acc.len() as int) =~= acc);
        } else if src[pos] == '{' {
            crate::grammar::lemma_parse_expression_or_markup(src, pos, true);
            match spec_parse_expression_or_markup(src, pos, true) {
                Err(e) => {},
                Ok((eom, p2)) => {
                    let item = match eom {
                        SpecExprOrMarkup::Expression(e) => SpecPatternItem::Expression(e),
                        SpecExprOrMarkup::Markup(m) => SpecPatternItem::Markup(m),
                    };
                    let acc2 = flush_text(acc, text).push(item);
                    lemma_pattern_items_in_input_order(src, p2, acc2, Seq::empty(), quoted);
                    assert(items.take(acc2.len() as int).take(acc.len() as int) =~= items.take(
                        acc.len() as int,
                    ));
                    assert(acc2.take(acc.len() as int) =~= acc);
                },
            }
        } else {
            lemma_pattern_items_in_input_order(src, pos + 1, acc, text.push(src[pos]), quoted);
        }
    }
}

// ---------------------------------------------------------------------------
// Escapes and unterminated literals
// ---------------------------------------------------------------------------

/// Escape closure, error side: whenever the quoted-literal scan reports
/// a bad escape, the error spans exactly the two characters starting at
/// the backslash, and the escaped character is indeed none of `{`, `}`,
/// `|`, `\`.
pub proof fn lemma_quoted_rest_bad_escape(src: Seq<char>, pos: int, acc: Seq<char>)
    requires
        0 <= pos <= src.len(),
    ensures
        spec_quoted_rest(src, pos, acc) matches Err(SpecSyntaxError::BadEscape(e)) ==> {
            &&& e.end == e.start + 2
            &&& 0 <= e.start
            &&& e.start + 1 < src.len()
            &&& src[e.start] == '\\'
            &&& !spec_is_escapable(src[e.start + 1])
        },
    decreases src.len() - pos,
{
    if pos < src.len() {
        if src[pos] == '\\' {
            if pos + 1 < src.len() && spec_is_escapable(src[pos + 1]) {
                lemma_quoted_rest_bad_escape(src, pos + 2, acc + seq!['\\', src[pos + 1]]);
            }
        } else if src[pos] != '|' {
            lemma_quoted_rest_bad_escape(src, pos + 1, acc.push(src[pos]));
        }
    }
}

/// As [`lemma_quoted_rest_bad_escape`], stated of a whole quoted
/// literal.
pub proof fn lemma_quoted_literal_bad_escape(src: Seq<char>, pos: int)
    requires
        0 <= pos < src.len(),
    ensures
        spec_parse_quoted_literal(src, pos) matches Err(SpecSyntaxError::BadEscape(e)) ==> {
            &&& e.end == e.start + 2
            &&& src[e.start] == '\\'
            &&& !spec_is_escapable(src[e.start + 1])
        },
{
    lemma_quoted_rest_bad_escape(src, pos + 1, Seq::empty());
}

/// Unterminated literal: whenever the quoted-literal scan fails for
/// want of a closing `|`, the error is anchored at the input length and
/// expects exactly `|`.
pub proof fn lemma_quoted_rest_unterminated(src: Seq<char>, pos: int, acc: Seq<char>)
    requires
        0 <= pos <= src.len(),
    ensures
        spec_quoted_rest(src, pos, acc) matches Err(SpecSyntaxError::MissingSyntax(e)) ==> {
            &&& e.start == src.len()
            &&& e.end == src.len() + 1
            &&& e.expected == seq!['|']
        },
    decreases src.len() - pos,
{
    if pos < src.len() {
        if src[pos] == '\\' {
            if pos + 1 < src.len() && spec_is_escapable(src[pos + 1]) {
                lemma_quoted_rest_unterminated(src, pos + 2, acc + seq!['\\', src[pos + 1]]);
            }
        } else if src[pos] != '|' {
            lemma_quoted_rest_unterminated(src, pos + 1, acc.push(src[pos]));
        }
    }
}

/// Escape closure, rejection side: a `\\` followed by any character
/// other than `{`, `}`, `|`, `\\` fails the quoted-literal scan with a
/// `BadEscape` spanning exactly those two characters.
pub proof fn lemma_illegal_escape_is_rejected(src: Seq<char>, pos: int, acc: Seq<char>)
    requires
        0 <= pos,
        pos + 1 < src.len(),
        src[pos] == '\\',
        !spec_is_escapable(src[pos + 1]),
    ensures
        spec_quoted_rest(src, pos, acc) == Err::<(Seq<char>, int), SpecSyntaxError>(
            SpecSyntaxError::BadEscape(err_span(pos, pos + 2)),
        ),
{
}

/// A quoted-literal scan that reaches the end of the input without a
/// closing `|` fails with `MissingSyntax` anchored at the input length,
/// expecting `|`.
pub proof fn lemma_scan_at_end_is_unterminated(src: Seq<char>, pos: int, acc: Seq<char>)
    requires
        pos >= src.len(),
    ensures
        spec_quoted_rest(src, pos, acc) == Err::<(Seq<char>, int), SpecSyntaxError>(
            SpecSyntaxError::MissingSyntax(err_expect(src.len() as int, seq!['|'])),
        ),
{
}

/// As [`lemma_quoted_rest_unterminated`], stated of a whole quoted
/// literal.
pub proof fn lemma_quoted_literal_unterminated(src: Seq<char>, pos: int)
    requires
        0 <= pos < src.len(),
    ensures
        spec_parse_quoted_literal(src, pos) matches Err(SpecSyntaxError::MissingSyntax(e)) ==> {
            &&& e.start == src.len()
            &&& e.expected == seq!['|']
        },
{
    lemma_quoted_rest_unterminated(src, pos + 1, Seq::empty());
}

// ---------------------------------------------------------------------------
// No duplicate option or attribute names
// ---------------------------------------------------------------------------

/// Pairwise-distinct option names.
pub open spec fn distinct_option_names(s: Seq<SpecOptionEntry>) -> bool {
    forall|i: int, j: int| 0 <= i < j < s.len() ==> s[i].name != s[j].name
}

/// Pairwise-distinct attribute names.
pub open spec fn distinct_attribute_names(s: Seq<SpecAttributeEntry>) -> bool {
    forall|i: int, j: int| 0 <= i < j < s.len() ==> s[i].name != s[j].name
}

/// A well-formed function reference: distinct option names.
pub open spec fn wf_function_ref(f: SpecFunctionRef) -> bool {
    distinct_option_names(f.options)
}

/// A well-formed optional function reference.
pub open spec fn wf_opt_function(f: Option<SpecFunctionRef>) -> bool {
    match f {
        Some(fr) => wf_function_ref(fr),
        None => true,
    }
}

/// A well-formed expression: its function's option names and its own
/// attribute names are each pairwise distinct.
pub open spec fn wf_expression(e: SpecExpression) -> bool {
    match e {
        SpecExpression::Literal(le) => wf_opt_function(le.function) && distinct_attribute_names(
            le.attributes,
        ),
        SpecExpression::Variable(ve) => wf_opt_function(ve.function) && distinct_attribute_names(
            ve.attributes,
        ),
        SpecExpression::Function(fe) => wf_function_ref(fe.function) && distinct_attribute_names(
            fe.attributes,
        ),
    }
}

/// A well-formed markup: distinct option and attribute names.
pub open spec fn wf_markup(m: SpecMarkup) -> bool {
    distinct_option_names(m.options) && distinct_attribute_names(m.attributes)
}

/// A well-formed pattern item.
pub open spec fn wf_pattern_item(item: SpecPatternItem) -> bool {
    match item {
        SpecPatternItem::String(s) => true,
        SpecPatternItem::Expression(e) => wf_expression(e),
        SpecPatternItem::Markup(m) => wf_markup(m),
    }
}

/// A well-formed pattern: every item is well-formed.
pub open spec fn wf_pattern(items: Seq<SpecPatternItem>) -> bool {
    forall|i: int| 0 <= i < items.len() ==> wf_pattern_item(#[trigger] items[i])
}

/// A well-formed declaration.
pub open spec fn wf_declaration(d: SpecDeclaration) -> bool {
    match d {
        SpecDeclaration::Input(i) => wf_expression(SpecExpression::Variable(i.value)),
        SpecDeclaration::Local(l) => wf_expression(l.value),
    }
}

/// Well-formed declarations.
pub open spec fn wf_declarations(ds: Seq<SpecDeclaration>) -> bool {
    forall|i: int| 0 <= i < ds.len() ==> wf_declaration(#[trigger] ds[i])
}

/// A well-formed variant: its pattern is well-formed.
pub open spec fn wf_variant(v: SpecVariant) -> bool {
    wf_pattern(v.value)
}

/// A well-formed message: every expression and markup anywhere in it
/// has pairwise-distinct option names and attribute names.
pub open spec fn wf_message(m: SpecMessage) -> bool {
    match m {
        SpecMessage::Pattern(pm) => wf_declarations(pm.declarations) && wf_pattern(pm.pattern),
        SpecMessage::Select(sm) => wf_declarations(sm.declarations) && (forall|i: int|
            0 <= i < sm.variants.len() ==> wf_variant(#[trigger] sm.variants[i])),
    }
}

proof fn lemma_options_loop_distinct(src: Seq<char>, pos: int, acc: Seq<SpecOptionEntry>)
    requires
        0 <= pos <= src.len(),
        distinct_option_names(acc),
    ensures
        spec_options_loop(src, pos, acc) matches Ok((o, p)) ==> distinct_option_names(o),
    decreases src.len() - pos,
{
    crate::grammar::lemma_parse_identifier(src, pos);
    if pos < src.len() && !(src[pos] == '/' || src[pos] == '}' || src[pos] == '@') {
        if let Ok((name, p1)) = crate::grammar::spec_parse_identifier(src, pos) {
            if !options_have_name(acc, name) {
                let p2 = ws_end(src, p1);
                crate::grammar::lemma_ws_end(src, p1);
                if token_at(src, p2, seq!['=']) {
                    lemma_token_at_chars(src, p2, seq!['=']);
                    let p4 = ws_end(src, p2 + 1);
                    crate::grammar::lemma_ws_end(src, p2 + 1);
                    crate::grammar::lemma_parse_value(src, p4, true);
                    if let Ok((v, p5)) = crate::grammar::spec_parse_value(src, p4, true) {
                        if !(v is Absent) {
                            let value = match v {
                                SpecValue::Lit(l) => crate::model::SpecOptionValue::Literal(l),
                                SpecValue::Var(vr) => crate::model::SpecOptionValue::VariableRef(
                                    vr,
                                ),
                                SpecValue::Absent => crate::model::SpecOptionValue::Literal(
                                    crate::model::SpecLiteral { value: Seq::empty() },
                                ),
                            };
                            let acc2 = acc.push(SpecOptionEntry { name, value });
                            assert(distinct_option_names(acc2));
                            crate::grammar::lemma_ws_end(src, p5);
                            lemma_options_loop_distinct(src, ws_end(src, p5), acc2);
                        }
                    }
                }
            }
        }
    }
}

/// The option list a placeholder collects has pairwise-distinct names.
pub proof fn lemma_parse_options_distinct(src: Seq<char>, pos: int)
    requires
        0 <= pos <= src.len(),
    ensures
        spec_parse_options(src, pos) matches Ok((o, p)) ==> distinct_option_names(
            or_empty_options(o),
        ),
{
    crate::grammar::lemma_ws_end(src, pos);
    lemma_options_loop_distinct(src, ws_end(src, pos), Seq::empty());
}

proof fn lemma_attributes_loop_distinct(src: Seq<char>, pos: int, acc: Seq<SpecAttributeEntry>)
    requires
        0 <= pos <= src.len(),
        distinct_attribute_names(acc),
    ensures
        spec_attributes_loop(src, pos, acc) matches Ok((a, p)) ==> distinct_attribute_names(a),
    decreases src.len() - pos,
{
    if pos < src.len() && src[pos] == '@' {
        crate::grammar::lemma_parse_identifier(src, pos + 1);
        if let Ok((name, p1)) = crate::grammar::spec_parse_identifier(src, pos + 1) {
            if !attributes_have_name(acc, name) {
                let p2 = ws_end(src, p1);
                crate::grammar::lemma_ws_end(src, p1);
                if p2 < src.len() && src[p2] == '=' {
                    let p4 = ws_end(src, p2 + 1);
                    crate::grammar::lemma_ws_end(src, p2 + 1);
                    crate::grammar::lemma_parse_literal(src, p4, true);
                    if let Ok((Some(l), p5)) = spec_parse_literal(src, p4, true) {
                        let acc2 = acc.push(
                            SpecAttributeEntry {
                                name,
                                value: crate::model::SpecAttributeValue::Literal(l.value),
                            },
                        );
                        assert(distinct_attribute_names(acc2));
                        lemma_attributes_loop_distinct(src, p5, acc2);
                    }
                } else {
                    let acc2 = acc.push(
                        SpecAttributeEntry {
                            name,
                            value: crate::model::SpecAttributeValue::True(true),
                        },
                    );
                    assert(distinct_attribute_names(acc2));
                    lemma_attributes_loop_distinct(src, p2, acc2);
                }
            }
        }
    }
}

/// The attribute list a placeholder collects has pairwise-distinct
/// names.
pub proof fn lemma_parse_attributes_distinct(src: Seq<char>, pos: int)
    requires
        0 <= pos <= src.len(),
    ensures
        spec_parse_attributes(src, pos) matches Ok((a, p)) ==> distinct_attribute_names(
            or_empty_attributes(a),
        ),
{
    lemma_attributes_loop_distinct(src, pos, Seq::empty());
}

proof fn lemma_finish_expression_wf(
    src: Seq<char>,
    start: int,
    arg: SpecValue,
    func: Option<SpecFunctionRef>,
    pos: int,
)
    requires
        0 <= pos <= src.len(),
        wf_opt_function(func),
    ensures
        spec_finish_expression(src, start, arg, func, pos) matches Ok((r, p)) ==> r matches
            SpecExprOrMarkup::Expression(e) && wf_expression(e),
{
    lemma_parse_attributes_distinct(src, pos);
}

proof fn lemma_finish_markup_wf(
    src: Seq<char>,
    name: Seq<char>,
    kind: crate::model::MarkupKind,
    opts: Option<Seq<SpecOptionEntry>>,
    pos: int,
)
    requires
        0 <= pos <= src.len(),
        distinct_option_names(or_empty_options(opts)),
    ensures
        spec_finish_markup(src, name, kind, opts, pos) matches Ok((r, p)) ==> r matches
            SpecExprOrMarkup::Markup(m) && wf_markup(m),
{
    lemma_parse_attributes_distinct(src, pos);
}

/// Every expression or markup a placeholder parses to is well-formed:
/// its option names and attribute names are pairwise distinct.
pub proof fn lemma_expression_or_markup_wf(src: Seq<char>, pos: int, allow_markup: bool)
    requires
        0 <= pos < src.len(),
    ensures
        spec_parse_expression_or_markup(src, pos, allow_markup) matches Ok((r, p)) ==> (match r {
            SpecExprOrMarkup::Expression(e) => wf_expression(e),
            SpecExprOrMarkup::Markup(m) => wf_markup(m),
        }),
{
    reveal(spec_parse_expression_or_markup);
    let p1 = ws_end(src, pos + 1);
    crate::grammar::lemma_ws_end(src, pos + 1);
    crate::grammar::lemma_parse_value(src, p1, false);
    if let Ok((arg, p2)) = crate::grammar::spec_parse_value(src, p1, false) {
        crate::grammar::lemma_ws_end(src, p2);
        let p3opt = if !(arg is Absent) {
            crate::grammar::spec_skip_ws_cond(src, p2, seq!['}'])
        } else {
            Ok(p2)
        };
        if let Ok(p3) = p3opt {
            if p3 < src.len() {
                if src[p3] == '@' || src[p3] == '}' {
                    lemma_finish_expression_wf(src, pos, arg, None, p3);
                } else if src[p3] == ':' {
                    crate::grammar::lemma_parse_identifier(src, p3 + 1);
                    if let Ok((fname, p4)) = crate::grammar::spec_parse_identifier(src, p3 + 1) {
                        crate::grammar::lemma_parse_options(src, p4);
                        lemma_parse_options_distinct(src, p4);
                        if let Ok((opts, p5)) = spec_parse_options(src, p4) {
                            lemma_finish_expression_wf(
                                src,
                                pos,
                                arg,
                                Some(
                                    SpecFunctionRef {
                                        name: fname,
                                        options: or_empty_options(opts),
                                    },
                                ),
                                p5,
                            );
                        }
                    }
                } else if (src[p3] == '#' || src[p3] == '/') && allow_markup && arg is Absent {
                    let kind = if src[p3] == '#' {
                        crate::model::MarkupKind::Open
                    } else {
                        crate::model::MarkupKind::Close
                    };
                    crate::grammar::lemma_parse_identifier(src, p3 + 1);
                    if let Ok((mname, p4)) = crate::grammar::spec_parse_identifier(src, p3 + 1) {
                        crate::grammar::lemma_parse_options(src, p4);
                        lemma_parse_options_distinct(src, p4);
                        if let Ok((opts, p5)) = spec_parse_options(src, p4) {
                            lemma_finish_markup_wf(src, mname, kind, opts, p5);
                        }
                    }
                }
            }
        }
    }
}

proof fn lemma_pattern_loop_wf(
    src: Seq<char>,
    pos: int,
    acc: Seq<SpecPatternItem>,
    text: Seq<char>,
    quoted: bool,
)
    requires
        0 <= pos <= src.len(),
        wf_pattern(acc),
    ensures
        spec_pattern_loop(src, pos, acc, text, quoted) matches Ok((items, p)) ==> wf_pattern(
            items,
        ),
    decreases src.len() - pos,
{
    assert(wf_pattern(flush_text(acc, text)));
    if pos < src.len() {
        if src[pos] == '{' {
            crate::grammar::lemma_parse_expression_or_markup(src, pos, true);
            lemma_expression_or_markup_wf(src, pos, true);
            match spec_parse_expression_or_markup(src, pos, true) {
                Err(e) => {},
                Ok((SpecExprOrMarkup::Expression(e), p)) => {
                    let acc2 = flush_text(acc, text).push(SpecPatternItem::Expression(e));
                    assert(wf_pattern(acc2));
                    lemma_pattern_loop_wf(src, p, acc2, Seq::empty(), quoted);
                },
                Ok((SpecExprOrMarkup::Markup(m), p)) => {
                    let acc2 = flush_text(acc, text).push(SpecPatternItem::Markup(m));
                    assert(wf_pattern(acc2));
                    lemma_pattern_loop_wf(src, p, acc2, Seq::empty(), quoted);
                },
            }
        } else if src[pos] != '}' {
            lemma_pattern_loop_wf(src, pos + 1, acc, text.push(src[pos]), quoted);
        }
    }
}

/// Every pattern a parse produces is well-formed.
pub proof fn lemma_parse_pattern_wf(src: Seq<char>, pos: int, quoted: bool)
    requires
        0 <= pos <= src.len(),
    ensures
        spec_parse_pattern(src, pos, quoted) matches Ok((items, p)) ==> wf_pattern(items),
{
    if quoted && token_at(src, pos, seq!['{', '{']) {
        lemma_token_at_chars(src, pos, seq!['{', '{']);
        lemma_pattern_loop_wf(src, pos + 2, Seq::empty(), Seq::empty(), quoted);
    } else if !quoted {
        lemma_pattern_loop_wf(src, pos, Seq::empty(), Seq::empty(), quoted);
    }
}

proof fn lemma_parse_variant_wf(src: Seq<char>, pos: int)
    requires
        0 <= pos <= src.len(),
    ensures
        spec_parse_variant(src, pos) matches Ok((v, p)) ==> wf_variant(v),
{
    crate::grammar::lemma_variant_keys_loop(src, pos, Seq::empty());
    if let Ok((keys, p1)) = spec_variant_keys_loop(src, pos, Seq::empty()) {
        lemma_parse_pattern_wf(src, p1, true);
    }
}

proof fn lemma_variants_loop_wf(src: Seq<char>, pos: int, acc: Seq<SpecVariant>)
    requires
        0 <= pos <= src.len(),
        forall|i: int| 0 <= i < acc.len() ==> wf_variant(#[trigger] acc[i]),
    ensures
        spec_variants_loop(src, pos, acc) matches Ok((vs, p)) ==> forall|i: int|
            0 <= i < vs.len() ==> wf_variant(#[trigger] vs[i]),
    decreases src.len() - pos,
{
    if pos < src.len() {
        crate::grammar::lemma_parse_variant(src, pos);
        lemma_parse_variant_wf(src, pos);
        if let Ok((v, p1)) = spec_parse_variant(src, pos) {
            crate::grammar::lemma_ws_end(src, p1);
            let acc2 = acc.push(v);
            assert(forall|i: int| 0 <= i < acc2.len() ==> wf_variant(#[trigger] acc2[i]));
            lemma_variants_loop_wf(src, ws_end(src, p1), acc2);
        }
    }
}

proof fn lemma_parse_input_declaration_wf(src: Seq<char>, pos: int)
    requires
        0 <= pos <= src.len(),
    ensures
        spec_parse_input_declaration(src, pos) matches Ok((d, p)) ==> wf_declaration(
            SpecDeclaration::Input(d),
        ),
{
    let p1 = ws_end(src, pos);
    crate::grammar::lemma_ws_end(src, pos);
    if token_at(src, p1, seq!['{']) {
        lemma_token_at_chars(src, p1, seq!['{']);
        lemma_expression_or_markup_wf(src, p1, false);
    }
}

proof fn lemma_parse_local_declaration_wf(src: Seq<char>, pos: int)
    requires
        0 <= pos <= src.len(),
    ensures
        spec_parse_local_declaration(src, pos) matches Ok((d, p)) ==> wf_declaration(
            SpecDeclaration::Local(d),
        ),
{
    crate::grammar::lemma_ws_end(src, pos);
    let p1 = ws_end(src, pos);
    if crate::grammar::ws_has_real(src, pos) && token_at(src, p1, seq!['$']) {
        lemma_token_at_chars(src, p1, seq!['$']);
        crate::grammar::lemma_parse_name(src, p1 + 1);
        if let Ok((name, p2)) = crate::grammar::spec_parse_name(src, p1 + 1) {
            let p3 = ws_end(src, p2);
            crate::grammar::lemma_ws_end(src, p2);
            if token_at(src, p3, seq!['=']) {
                lemma_token_at_chars(src, p3, seq!['=']);
                let p4 = ws_end(src, p3 + 1);
                crate::grammar::lemma_ws_end(src, p3 + 1);
                if token_at(src, p4, seq!['{']) {
                    lemma_token_at_chars(src, p4, seq!['{']);
                    lemma_expression_or_markup_wf(src, p4, false);
                }
            }
        }
    }
}

proof fn lemma_decl_loop_wf(src: Seq<char>, pos: int, acc: Seq<SpecDeclaration>)
    requires
        0 <= pos <= src.len(),
        wf_declarations(acc),
    ensures
        spec_decl_loop(src, pos, acc) matches Ok((dm, p)) ==> wf_declarations(dm.0),
    decreases src.len() - pos,
{
    if pos < src.len() && src[pos] == '.' {
        if token_at(src, pos, kw_input()) {
            lemma_token_at_chars(src, pos, kw_input());
            crate::grammar::lemma_parse_input_declaration(src, pos + 6);
            lemma_parse_input_declaration_wf(src, pos + 6);
            if let Ok((d, p1)) = spec_parse_input_declaration(src, pos + 6) {
                crate::grammar::lemma_ws_end(src, p1);
                let acc2 = acc.push(SpecDeclaration::Input(d));
                assert(wf_declarations(acc2));
                lemma_decl_loop_wf(src, ws_end(src, p1), acc2);
            }
        } else if token_at(src, pos, kw_local()) {
            lemma_token_at_chars(src, pos, kw_local());
            crate::grammar::lemma_parse_local_declaration(src, pos + 6);
            lemma_parse_local_declaration_wf(src, pos + 6);
            if let Ok((d, p1)) = spec_parse_local_declaration(src, pos + 6) {
                crate::grammar::lemma_ws_end(src, p1);
                let acc2 = acc.push(SpecDeclaration::Local(d));
                assert(wf_declarations(acc2));
                lemma_decl_loop_wf(src, ws_end(src, p1), acc2);
            }
        }
    }
}

/// No duplicate keys: in every successfully parsed message, option
/// names and attribute names are pairwise distinct on every function,
/// expression and markup anywhere in the message.
pub proof fn lemma_parse_no_duplicate_names(src: Seq<char>)
    ensures
        spec_parse(src) matches Ok(m) ==> wf_message(m),
{
    crate::grammar::lemma_ws_end(src, 0);
    let p0 = ws_end(src, 0);
    lemma_decl_loop_wf(src, p0, Seq::empty());
    crate::grammar::lemma_decl_loop(src, p0, Seq::empty());
    if let Ok(((decls, is_match), p1)) = spec_decl_loop(src, p0, Seq::empty()) {
        if is_match {
            if let Ok(p1b) = crate::grammar::spec_skip_ws_required(src, p1) {
                crate::grammar::lemma_ws_end(src, p1);
                crate::grammar::lemma_selectors_loop(src, p1b, Seq::empty());
                if let Ok((sels, p2)) = spec_selectors_loop(src, p1b, Seq::empty()) {
                    if sels.len() > 0 {
                        lemma_variants_loop_wf(src, p2, Seq::empty());
                    }
                }
            }
        } else {
            let p2 = ws_end(src, p1);
            crate::grammar::lemma_ws_end(src, p1);
            let quoted = token_at(src, p2, seq!['{', '{']);
            let p3 = if !quoted && p2 > 0 {
                0
            } else {
                p2
            };
            lemma_parse_pattern_wf(src, p3, quoted);
        }
    }
}

} // verus!
