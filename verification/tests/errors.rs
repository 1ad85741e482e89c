use mf2_parser::error::SyntaxError;
use mf2_parser::parser::Mf2Parser;

#[test]
fn test_duplicate_option_name() {
    let mut parser = Mf2Parser::new("{:func a=1 a=2}");
    match parser.parse() {
        Err(SyntaxError::DuplicateOptionName(e)) => {
            assert_eq!(e.start(), 11);
            assert_eq!(e.end(), 12);
        }
        other => panic!("expected DuplicateOptionName, got {:?}", other),
    }
}

#[test]
fn test_duplicate_attribute() {
    let mut parser = Mf2Parser::new("{$x @a @a}");
    match parser.parse() {
        Err(SyntaxError::DuplicateAttribute(e)) => {
            assert_eq!(e.start(), 7);
            assert_eq!(e.end(), 9);
        }
        other => panic!("expected DuplicateAttribute, got {:?}", other),
    }
}

#[test]
fn test_bad_escape() {
    let mut parser = Mf2Parser::new("{|foo\\qbar|}");
    match parser.parse() {
        Err(SyntaxError::BadEscape(e)) => {
            assert_eq!(e.start(), 5);
            assert_eq!(e.end(), 7);
        }
        other => panic!("expected BadEscape, got {:?}", other),
    }
}

#[test]
fn test_unterminated_quoted_literal() {
    let mut parser = Mf2Parser::new("{|foo");
    match parser.parse() {
        Err(SyntaxError::MissingSyntax(e)) => {
            assert_eq!(e.start(), 5);
            assert_eq!(e.expected(), "|");
        }
        other => panic!("expected MissingSyntax, got {:?}", other),
    }
}

#[test]
fn test_backslash_at_end_of_input() {
    let mut parser = Mf2Parser::new("{|foo\\");
    match parser.parse() {
        Err(SyntaxError::MissingSyntax(e)) => {
            assert_eq!(e.start(), 6);
            assert_eq!(e.expected(), "|");
        }
        other => panic!("expected MissingSyntax, got {:?}", other),
    }
}

#[test]
fn test_extra_content_after_bare_quoted_pattern() {
    let mut parser = Mf2Parser::new("{{ stray }} extra");
    match parser.parse() {
        Err(SyntaxError::ExtraContent(e)) => {
            assert_eq!(e.start(), 12);
            assert_eq!(e.end(), 13);
        }
        other => panic!("expected ExtraContent, got {:?}", other),
    }
}

#[test]
fn test_extra_content_after_quoted_pattern() {
    let mut parser = Mf2Parser::new(".local $x = {1}\n{{ stray }} extra");
    match parser.parse() {
        Err(SyntaxError::ExtraContent(e)) => {
            assert_eq!(e.start(), 28);
            assert_eq!(e.end(), 29);
        }
        other => panic!("expected ExtraContent, got {:?}", other),
    }
}

#[test]
fn test_unknown_keyword() {
    let mut parser = Mf2Parser::new(".other $x");
    match parser.parse() {
        Err(SyntaxError::ParseError(e)) => {
            assert_eq!(e.start(), 0);
        }
        other => panic!("expected ParseError, got {:?}", other),
    }
}

#[test]
fn test_unbalanced_closing_brace() {
    let mut parser = Mf2Parser::new("oops } here");
    match parser.parse() {
        Err(SyntaxError::ParseError(e)) => {
            assert_eq!(e.start(), 5);
        }
        other => panic!("expected ParseError, got {:?}", other),
    }
}

#[test]
fn test_empty_expression() {
    let mut parser = Mf2Parser::new("{}");
    match parser.parse() {
        Err(SyntaxError::EmptyToken(e)) => {
            assert_eq!(e.start(), 0);
        }
        other => panic!("expected EmptyToken, got {:?}", other),
    }
}

#[test]
fn test_missing_required_whitespace() {
    let mut parser = Mf2Parser::new(".local$x = {1}\n{{y}}");
    match parser.parse() {
        Err(SyntaxError::EmptyToken(e)) => {
            assert_eq!(e.start(), 6);
        }
        other => panic!("expected EmptyToken, got {:?}", other),
    }
}

#[test]
fn test_missing_equals_in_local_declaration() {
    let mut parser = Mf2Parser::new(".local $x {1}\n{{y}}");
    match parser.parse() {
        Err(SyntaxError::MissingSyntax(e)) => {
            assert_eq!(e.start(), 10);
            assert_eq!(e.expected(), "=");
        }
        other => panic!("expected MissingSyntax, got {:?}", other),
    }
}

#[test]
fn test_bad_input_expression() {
    let mut parser = Mf2Parser::new(".input {42}\n{{y}}");
    match parser.parse() {
        Err(SyntaxError::BadInputExpression(e)) => {
            assert_eq!(e.start(), 7);
        }
        other => panic!("expected BadInputExpression, got {:?}", other),
    }
}

#[test]
fn test_select_without_selectors() {
    let mut parser = Mf2Parser::new(".match \n* {{x}}");
    match parser.parse() {
        Err(SyntaxError::EmptyToken(_)) => {}
        other => panic!("expected EmptyToken, got {:?}", other),
    }
}

#[test]
fn test_markup_not_allowed_in_declaration() {
    let mut parser = Mf2Parser::new(".local $x = {#tag}\n{{y}}");
    match parser.parse() {
        Err(SyntaxError::ParseError(e)) => {
            assert_eq!(e.start(), 12);
        }
        other => panic!("expected ParseError, got {:?}", other),
    }
}

#[test]
fn test_unterminated_expression() {
    let mut parser = Mf2Parser::new("{$x");
    match parser.parse() {
        Err(SyntaxError::EmptyToken(e)) => {
            assert_eq!(e.start(), 3);
        }
        other => panic!("expected EmptyToken, got {:?}", other),
    }
}

#[test]
fn test_missing_whitespace_before_function() {
    let mut parser = Mf2Parser::new("{$x:func}");
    match parser.parse() {
        Err(SyntaxError::EmptyToken(e)) => {
            assert_eq!(e.start(), 3);
        }
        other => panic!("expected EmptyToken, got {:?}", other),
    }
}

#[test]
fn test_markup_with_operand_is_rejected() {
    let mut parser = Mf2Parser::new("{$x #tag}");
    match parser.parse() {
        Err(SyntaxError::ParseError(e)) => {
            assert_eq!(e.start(), 0);
        }
        other => panic!("expected ParseError, got {:?}", other),
    }
}
