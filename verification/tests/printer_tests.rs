use mf2_parser::model::Message;
use mf2_parser::parser::Mf2Parser;
use mf2_parser::printer::MF2Printer;

fn parse(src: &str) -> Message {
    let mut parser = Mf2Parser::new(src);
    parser.parse().expect("input should parse")
}

#[test]
fn test_format_simple_pattern() {
    let msg = parse("Hello {$place}!");
    let variables = vec![("place".to_string(), "world".to_string())];
    assert_eq!(MF2Printer::print(&msg, &variables), "Hello world!");
}

#[test]
fn test_format_unbound_variable_placeholder() {
    let msg = parse("Hello {$name}!");
    let variables: Vec<(String, String)> = Vec::new();
    assert_eq!(MF2Printer::print(&msg, &variables), "Hello {$name}!");
}

#[test]
fn test_format_first_binding_wins() {
    let msg = parse("{$x}");
    let variables = vec![
        ("x".to_string(), "first".to_string()),
        ("x".to_string(), "second".to_string()),
    ];
    assert_eq!(MF2Printer::print(&msg, &variables), "first");
}

#[test]
fn test_format_unrendered_forms() {
    let msg = parse("{|lit|} and {:func} and {#tag}");
    let variables: Vec<(String, String)> = Vec::new();
    assert_eq!(
        MF2Printer::print(&msg, &variables),
        "[literal] and [function] and [markup]"
    );
}

#[test]
fn test_format_select_placeholder() {
    let msg = parse(".match $n\n* {{x}}");
    let variables: Vec<(String, String)> = Vec::new();
    assert_eq!(
        MF2Printer::print(&msg, &variables),
        "[select message not implemented]"
    );
}

#[test]
fn test_format_pattern_directly() {
    let msg = parse("You have {$n} items");
    let variables = vec![("n".to_string(), "3".to_string())];
    match msg {
        Message::Pattern(pm) => {
            assert_eq!(
                MF2Printer::format_pattern(&pm, &variables),
                "You have 3 items"
            );
        }
        other => panic!("expected a pattern message, got {:?}", other),
    }
}
