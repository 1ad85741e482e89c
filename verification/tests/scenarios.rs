use mf2_parser::model::{
    AttributeEntry, AttributeValue, CatchallKey, Declaration, Expression, Literal,
    LiteralExpression, LocalDeclaration, Message, OptionEntry, OptionValue, PatternItem,
    PatternMessage, SelectMessage, Variant, VariantKey, VariableExpression, VariableRef,
};
use mf2_parser::parser::Mf2Parser;

fn variable_ref(name: &str) -> VariableRef {
    let mut r = VariableRef::new();
    r.set_name(name.to_string());
    r
}

fn variable_expression(name: &str) -> VariableExpression {
    let mut e = VariableExpression::new();
    e.set_variable_ref(variable_ref(name));
    e
}

#[test]
fn test_scenario_simple_pattern() {
    let mut parser = Mf2Parser::new("Hello {$name}!");
    let msg = parser.parse().expect("simple pattern should parse");

    let mut expected = PatternMessage::new();
    expected.set_pattern(vec![
        PatternItem::String("Hello ".to_string()),
        PatternItem::Expression(Expression::Variable(variable_expression("name"))),
        PatternItem::String("!".to_string()),
    ]);
    assert_eq!(msg, Message::Pattern(expected));
}

#[test]
fn test_scenario_local_declaration() {
    let mut parser = Mf2Parser::new(".local $x = {42}\n{{You have {$x} items}}");
    let msg = parser.parse().expect("local declaration should parse");

    let mut literal_expr = LiteralExpression::new();
    literal_expr.set_literal(Literal::new("42".to_string()));
    let mut decl = LocalDeclaration::new(Expression::Literal(literal_expr));
    decl.set_name("x".to_string());

    let mut expected = PatternMessage::new();
    expected.set_declarations(vec![Declaration::Local(decl)]);
    expected.set_pattern(vec![
        PatternItem::String("You have ".to_string()),
        PatternItem::Expression(Expression::Variable(variable_expression("x"))),
        PatternItem::String(" items".to_string()),
    ]);
    assert_eq!(msg, Message::Pattern(expected));
}

#[test]
fn test_scenario_select_message() {
    let mut parser = Mf2Parser::new(".match $n\n0 {{no items}}\n* {{items}}");
    let msg = parser.parse().expect("select message should parse");

    let mut zero_variant = Variant::new();
    zero_variant.set_keys(vec![VariantKey::Literal(Literal::new("0".to_string()))]);
    zero_variant.set_value(vec![PatternItem::String("no items".to_string())]);

    let mut catchall_variant = Variant::new();
    catchall_variant.set_keys(vec![VariantKey::CatchallKey(CatchallKey::new())]);
    catchall_variant.set_value(vec![PatternItem::String("items".to_string())]);

    let mut expected = SelectMessage::new();
    expected.set_selectors(vec![variable_ref("n")]);
    expected.set_variants(vec![zero_variant, catchall_variant]);
    assert_eq!(msg, Message::Select(expected));
}

#[test]
fn test_scenario_input_declaration() {
    let mut parser = Mf2Parser::new(".input {$count}\n{{Count: {$count}}}");
    let msg = parser.parse().expect("input declaration should parse");
    match msg {
        Message::Pattern(_) => {}
        other => panic!("expected a pattern message, got {:?}", other),
    }
}

#[test]
fn test_markup_standalone() {
    let mut parser = Mf2Parser::new("a {#img/} b");
    let msg = parser.parse().expect("stand-alone markup should parse");
    match &msg {
        Message::Pattern(pm) => {
            assert_eq!(pm.pattern().len(), 3);
            match &pm.pattern()[1] {
                PatternItem::Markup(m) => {
                    assert_eq!(m.kind, mf2_parser::model::MarkupKind::StandAlone)
                }
                other => panic!("expected markup, got {:?}", other),
            }
        }
        other => panic!("expected a pattern message, got {:?}", other),
    }
}

#[test]
fn test_function_with_options_and_attributes() {
    let mut parser = Mf2Parser::new("{$n :number style=decimal @draft @locale=en}");
    let msg = parser.parse().expect("function expression should parse");

    let mut function_ref = mf2_parser::model::FunctionRef::new();
    function_ref.set_name("number".to_string());
    function_ref.set_options(vec![OptionEntry::new(
        "style".to_string(),
        OptionValue::Literal(Literal::new("decimal".to_string())),
    )]);

    let mut var_expr = variable_expression("n");
    var_expr.set_function(function_ref);
    var_expr.set_attributes(vec![
        AttributeEntry::new("draft".to_string(), AttributeValue::True(true)),
        AttributeEntry::new(
            "locale".to_string(),
            AttributeValue::Literal("en".to_string()),
        ),
    ]);

    let mut expected = PatternMessage::new();
    expected.set_pattern(vec![PatternItem::Expression(Expression::Variable(var_expr))]);
    assert_eq!(msg, Message::Pattern(expected));
}

#[test]
fn test_quoted_literal_preserves_escapes() {
    let mut parser = Mf2Parser::new("{|a\\\\b\\|c|}");
    let msg = parser.parse().expect("escaped quoted literal should parse");

    let mut literal_expr = LiteralExpression::new();
    literal_expr.set_literal(Literal::new("a\\\\b\\|c".to_string()));
    let mut expected = PatternMessage::new();
    expected.set_pattern(vec![PatternItem::Expression(Expression::Literal(literal_expr))]);
    assert_eq!(msg, Message::Pattern(expected));
}

#[test]
fn test_empty_input_is_empty_pattern() {
    let mut parser = Mf2Parser::new("");
    let msg = parser.parse().expect("empty input should parse");
    assert_eq!(msg, Message::Pattern(PatternMessage::new()));
}

#[test]
fn test_leading_whitespace_is_text() {
    let mut parser = Mf2Parser::new(" hi");
    let msg = parser.parse().expect("leading whitespace should parse");
    let mut expected = PatternMessage::new();
    expected.set_pattern(vec![PatternItem::String(" hi".to_string())]);
    assert_eq!(msg, Message::Pattern(expected));
}

#[test]
fn test_parse_is_deterministic() {
    let mut first = Mf2Parser::new(".local $x = {42}\n{{You have {$x} items}}");
    let mut second = Mf2Parser::new(".local $x = {42}\n{{You have {$x} items}}");
    assert_eq!(first.parse(), second.parse());

    let mut bad_first = Mf2Parser::new("{|foo\\qbar|}");
    let mut bad_second = Mf2Parser::new("{|foo\\qbar|}");
    assert_eq!(bad_first.parse(), bad_second.parse());
}

#[test]
fn test_pattern_items_keep_input_order() {
    let mut parser = Mf2Parser::new("a{$x}b{#m}c");
    let msg = parser.parse().expect("mixed pattern should parse");
    match &msg {
        Message::Pattern(pm) => {
            let items = pm.pattern();
            assert_eq!(items.len(), 5);
            assert!(matches!(items[0], PatternItem::String(ref s) if s == "a"));
            assert!(matches!(items[1], PatternItem::Expression(_)));
            assert!(matches!(items[2], PatternItem::String(ref s) if s == "b"));
            assert!(matches!(items[3], PatternItem::Markup(_)));
            assert!(matches!(items[4], PatternItem::String(ref s) if s == "c"));
        }
        other => panic!("expected a pattern message, got {:?}", other),
    }
}

#[test]
fn test_leading_bidi_in_variable_name() {
    let mut parser = Mf2Parser::new("{$\u{200E}x}");
    let msg = parser.parse().expect("bidi-prefixed variable should parse");
    let mut expected = PatternMessage::new();
    expected.set_pattern(vec![PatternItem::Expression(Expression::Variable(
        variable_expression("x"),
    ))]);
    assert_eq!(msg, Message::Pattern(expected));
}

#[test]
fn test_ideographic_space_is_whitespace() {
    let mut parser = Mf2Parser::new(".local\u{3000}$x = {1}\n{{{$x}}}");
    assert!(parser.parse().is_ok());
}

#[test]
fn test_whitespace_optional_before_closing_brace() {
    let mut parser = Mf2Parser::new("{$x}");
    assert!(parser.parse().is_ok());
}

#[test]
fn test_quoted_pattern_without_declarations() {
    let mut parser = Mf2Parser::new("{{ hi }}");
    let msg = parser.parse().expect("quoted pattern should parse");
    let mut expected = PatternMessage::new();
    expected.set_pattern(vec![PatternItem::String(" hi ".to_string())]);
    assert_eq!(msg, Message::Pattern(expected));
}

#[test]
fn test_quoted_pattern_allows_trailing_whitespace() {
    let mut parser = Mf2Parser::new("{{x}}  ");
    let msg = parser.parse().expect("trailing whitespace should be accepted");
    let mut expected = PatternMessage::new();
    expected.set_pattern(vec![PatternItem::String("x".to_string())]);
    assert_eq!(msg, Message::Pattern(expected));
}
