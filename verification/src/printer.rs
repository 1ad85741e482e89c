//! Rendering of parsed messages.
//!
//! [`MF2Printer`] renders a pattern message against a set of named
//! variables: text runs are copied through, a variable expression is
//! replaced by the named value, or by a `{$name}` placeholder when the
//! name is unbound.  Literal and function expressions, markup, and
//! select messages are rendered as fixed placeholders until their
//! rendering is defined.

use vstd::prelude::*;
use vstd::string::StringExecFns;

use crate::model::Expression;
use crate::model::Message;
use crate::model::PatternItem;
use crate::model::PatternMessage;
use crate::model::SpecExpression;
use crate::model::SpecMessage;
use crate::model::SpecPatternItem;
use crate::model::SpecPatternMessage;

verus! {

/// A value that can stand in for a variable when a message is rendered.
pub trait FormatValue {
    /// The text this value renders to.
    spec fn format_spec(&self) -> Seq<char>;

    /// Renders the value.
    fn format_value(&self) -> (r: String)
        ensures
            r@ == self.format_spec(),
    ;
}

impl FormatValue for String {
    open spec fn format_spec(&self) -> Seq<char> {
        self@
    }

    fn format_value(&self) -> (r: String) {
        self.clone()
    }
}

/// The bindings a message is rendered against: names paired with the
/// text their values render to.
pub open spec fn var_specs<T: FormatValue>(vars: Seq<(String, T)>) -> Seq<(Seq<char>, Seq<char>)> {
    vars.map_values(|p: (String, T)| (p.0@, p.1.format_spec()))
}

/// The first binding of `name`, if any.
pub open spec fn spec_lookup(vars: Seq<(Seq<char>, Seq<char>)>, name: Seq<char>) -> Option<
    Seq<char>,
>
    decreases vars.len(),
{
    if vars.len() == 0 {
        None
    } else if vars[0].0 == name {
        Some(vars[0].1)
    } else {
        spec_lookup(vars.skip(1), name)
    }
}

/// What one pattern item renders to.
pub open spec fn spec_format_item(item: SpecPatternItem, vars: Seq<(Seq<char>, Seq<char>)>) -> Seq<
    char,
> {
    match item {
        SpecPatternItem::String(s) => s,
        SpecPatternItem::Expression(SpecExpression::Variable(ve)) => match spec_lookup(
            vars,
            ve.arg.name,
        ) {
            Some(v) => v,
            None => ("{$")@ + ve.arg.name + ("}")@,
        },
        SpecPatternItem::Expression(SpecExpression::Literal(e)) => ("[literal]")@,
        SpecPatternItem::Expression(SpecExpression::Function(e)) => ("[function]")@,
        SpecPatternItem::Markup(m) => ("[markup]")@,
    }
}

/// What a sequence of pattern items renders to: the items' renderings,
/// concatenated in order.
pub open spec fn spec_format_items(
    items: Seq<SpecPatternItem>,
    vars: Seq<(Seq<char>, Seq<char>)>,
) -> Seq<char>
    decreases items.len(),
{
    if items.len() == 0 {
        Seq::empty()
    } else {
        spec_format_items(items.drop_last(), vars) + spec_format_item(items.last(), vars)
    }
}

/// What a pattern message renders to.
pub open spec fn spec_format_pattern(
    msg: SpecPatternMessage,
    vars: Seq<(Seq<char>, Seq<char>)>,
) -> Seq<char> {
    spec_format_items(msg.pattern, vars)
}

/// What a whole message renders to: its pattern for a pattern message,
/// and a fixed placeholder for a select message.
pub open spec fn spec_print(msg: SpecMessage, vars: Seq<(Seq<char>, Seq<char>)>) -> Seq<char> {
    match msg {
        SpecMessage::Pattern(pm) => spec_format_pattern(pm, vars),
        SpecMessage::Select(sm) => ("[select message not implemented]")@,
    }
}

/// The index of the first binding of `name` in `variables`, if any.
fn lookup_index<T: FormatValue>(variables: &Vec<(String, T)>, name: &String) -> (r: Option<usize>)
    ensures
        match r {
            Some(i) => i < variables@.len() && variables@[i as int].0@ == name@ && (forall|k: int|
                0 <= k < i ==> variables@[k].0@ != name@),
            None => forall|k: int| 0 <= k < variables@.len() ==> variables@[k].0@ != name@,
        },
{
    let mut i: usize = 0;
    while i < variables.len()
        invariant
            0 <= i <= variables@.len(),
            forall|k: int| 0 <= k < i ==> variables@[k].0@ != name@,
        decreases variables@.len() - i,
    {
        if variables[i].0.eq(name) {
            return Some(i);
        }
        i = i + 1;
    }
    None
}

/// The first match found by a left-to-right scan is what
/// [`spec_lookup`] returns.
proof fn lemma_lookup_first(vars: Seq<(Seq<char>, Seq<char>)>, name: Seq<char>, i: int)
    requires
        0 <= i < vars.len(),
        vars[i].0 == name,
        forall|k: int| 0 <= k < i ==> vars[k].0 != name,
    ensures
        spec_lookup(vars, name) == Some(vars[i].1),
    decreases i,
{
    if i > 0 {
        lemma_lookup_first(vars.skip(1), name, i - 1);
        assert(forall|k: int| 0 <= k < i - 1 ==> vars.skip(1)[k] == vars[k + 1]);
        assert(vars.skip(1)[i - 1] == vars[i]);
    }
}

/// A scan that found no match means [`spec_lookup`] returns nothing.
proof fn lemma_lookup_none(vars: Seq<(Seq<char>, Seq<char>)>, name: Seq<char>)
    requires
        forall|k: int| 0 <= k < vars.len() ==> vars[k].0 != name,
    ensures
        spec_lookup(vars, name) is None,
    decreases vars.len(),
{
    if vars.len() > 0 {
        assert(forall|k: int| 0 <= k < vars.len() - 1 ==> vars.skip(1)[k] == vars[k + 1]);
        lemma_lookup_none(vars.skip(1), name);
    }
}

/// Renders parsed messages against named variables.
pub struct MF2Printer;

impl MF2Printer {
    /// Renders a pattern message: text runs verbatim, variable
    /// expressions by name lookup with a `{$name}` placeholder for an
    /// unbound name, and fixed placeholders for the unrendered forms.
    pub fn format_pattern<T: FormatValue>(
        pattern_msg: &PatternMessage,
        variables: &Vec<(String, T)>,
    ) -> (r: String)
        ensures
            r@ == spec_format_pattern(pattern_msg@, var_specs(variables@)),
    {
        let mut result = String::new();
        let items = pattern_msg.pattern();
        let ghost svars = var_specs(variables@);
        let mut i: usize = 0;
        while i < items.len()
            invariant
                0 <= i <= items@.len(),
                svars == var_specs(variables@),
                crate::model::views(items@) == pattern_msg@.pattern,
                result@ == spec_format_items(pattern_msg@.pattern.take(i as int), svars),
            decreases items@.len() - i,
        {
            let ghost items_v = pattern_msg@.pattern;
            proof {
                assert(items_v.take(i + 1).drop_last() =~= items_v.take(i as int));
                assert(items_v.take(i + 1).last() == items_v[i as int]);
                assert(items_v[i as int] == items@[i as int]@);
            }
            match &items[i] {
                PatternItem::String(s) => {
                    result.append(s.as_str());
                },
                PatternItem::Expression(Expression::Variable(var_expr)) => {
                    let var_name = var_expr.get_variable_name();
                    match lookup_index(variables, &var_name) {
                        Some(j) => {
                            proof {
                                assert(svars[j as int] == (variables@[j as int].0@, variables@[
                                    j as int].1.format_spec()));
                                assert(forall|k: int|
                                    0 <= k < j ==> svars[k] == (variables@[k].0@, variables@[
                                        k].1.format_spec()));
                                lemma_lookup_first(svars, var_name@, j as int);
                            }
                            let formatted = variables[j].1.format_value();
                            result.append(formatted.as_str());
                        },
                        None => {
                            proof {
                                assert(forall|k: int|
                                    0 <= k < svars.len() ==> svars[k] == (variables@[k].0@,
                                    variables@[k].1.format_spec()));
                                lemma_lookup_none(svars, var_name@);
                            }
                            result.append("{$");
                            result.append(var_name.as_str());
                            result.append("}");
                        },
                    }
                },
                PatternItem::Expression(Expression::Literal(_)) => {
                    result.append("[literal]");
                },
                PatternItem::Expression(Expression::Function(_)) => {
                    result.append("[function]");
                },
                PatternItem::Markup(_) => {
                    result.append("[markup]");
                },
            }
            i = i + 1;
        }
        proof {
            assert(pattern_msg@.pattern.take(i as int) =~= pattern_msg@.pattern);
        }
        result
    }

    /// Renders a whole message: the pattern for a pattern message, a
    /// fixed placeholder for a select message.
    pub fn print<T: FormatValue>(message: &Message, variables: &Vec<(String, T)>) -> (r: String)
        ensures
            r@ == spec_print(message@, var_specs(variables@)),
    {
        match message {
            Message::Pattern(pattern_msg) => Self::format_pattern(pattern_msg, variables),
            Message::Select(_) => String::from_str("[select message not implemented]"),
        }
    }
}

} // verus!
