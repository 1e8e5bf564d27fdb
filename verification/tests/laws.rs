use lox_interp::environment::Environment;
use lox_interp::error::ParseError;
use lox_interp::interpreter::{binary_operation, unary_operation, BinaryStep};
use lox_interp::parser::Parser;
use lox_interp::scanner::Scanner;
use lox_interp::text::decimal;
use lox_interp::token::{Token, TokenType};
use lox_interp::value::{number_less, Object};

fn ident(name: &str) -> Token {
    Token::new(TokenType::Identifier, name.to_string(), None, 1)
}

#[test]
fn scanned_tokens_end_with_one_eof() {
    for source in ["", "print 1;", "\"open", "@@", "a\nb\n\nc // end"] {
        let tokens = Scanner::new(source.to_string()).parse();
        assert_eq!(tokens.last().unwrap().token_type, TokenType::Eof);
        let eofs = tokens.iter().filter(|t| t.token_type == TokenType::Eof).count();
        assert_eq!(eofs, 1);
        let lines: Vec<usize> = tokens.iter().map(|t| t.line).collect();
        let mut sorted = lines.clone();
        sorted.sort();
        assert_eq!(lines, sorted);
        assert!(lines.iter().all(|l| *l >= 1));
    }
}

#[test]
fn string_spanning_lines_takes_its_last_line() {
    let tokens = Scanner::new("\"a\nb\" x".to_string()).parse();
    assert_eq!(tokens[0].token_type, TokenType::String);
    assert_eq!(tokens[0].line, 2);
    assert_eq!(tokens[1].line, 2);
}

#[test]
fn get_after_define_and_other_names_untouched() {
    let mut env = Environment::new();
    env.define(0, "x".to_string(), Some(Object::Boolean(true)));
    env.define(0, "y".to_string(), Some(Object::Null));
    assert!(env.get(0, &ident("x")).unwrap().equals(&Object::Boolean(true)));
    let inner = env.new_scope(0);
    env.define(inner, "y".to_string(), Some(Object::Boolean(false)));
    assert!(env.get(inner, &ident("x")).unwrap().equals(&Object::Boolean(true)));
    assert!(matches!(env.get(0, &ident("y")).unwrap(), Object::Null));
}

#[test]
fn failed_assign_changes_nothing() {
    let mut env = Environment::new();
    let inner = env.new_scope(0);
    assert!(env.assign(inner, &ident("ghost"), Object::Null).is_err());
    assert!(env.get(inner, &ident("ghost")).is_err());
    assert!(env.get(0, &ident("ghost")).is_err());
}

#[test]
fn negating_twice_gives_the_number_back() {
    let minus = Token::new(TokenType::Minus, "-".to_string(), None, 1);
    for n in [0.0f64, -0.0, 1.5, -7.25, f64::INFINITY] {
        let once = unary_operation(&minus, Object::Number(n.to_bits())).unwrap().unwrap();
        let twice = unary_operation(&minus, once).unwrap().unwrap();
        match twice {
            Object::Number(b) => assert_eq!(b, n.to_bits()),
            other => panic!("unexpected {:?}", other),
        }
    }
}

#[test]
fn equality_is_symmetric_and_not_equal_negates_it() {
    let values = [
        Object::Null,
        Object::Boolean(true),
        Object::Number(1.0f64.to_bits()),
        Object::Number(f64::NAN.to_bits()),
        Object::String("1".to_string()),
    ];
    for a in &values {
        for b in &values {
            assert_eq!(a.equals(b), b.equals(a));
            let eq = binary_operation(&Token::new(TokenType::EqualEqual, "==".to_string(), None, 1), a.copy(), b.copy());
            let ne = binary_operation(&Token::new(TokenType::BangEqual, "!=".to_string(), None, 1), a.copy(), b.copy());
            match (eq, ne) {
                (Ok(BinaryStep::Value(Object::Boolean(x))), Ok(BinaryStep::Value(Object::Boolean(y)))) => {
                    assert_eq!(x, !y)
                }
                other => panic!("unexpected {:?}", other),
            }
        }
    }
}

#[test]
fn number_order_agrees_with_floating_point() {
    let samples = [-f64::INFINITY, -3.5, -1.0, -0.0, 0.0, 0.25, 2.0, 1e300, f64::INFINITY, f64::NAN];
    for a in samples {
        for b in samples {
            assert_eq!(number_less(a.to_bits(), b.to_bits()), a < b, "{a} < {b}");
        }
    }
}

#[test]
fn decimals() {
    assert_eq!(decimal(0), "0");
    assert_eq!(decimal(7), "7");
    assert_eq!(decimal(1204), "1204");
}

#[test]
fn too_many_arguments_are_refused() {
    let args = vec!["0"; 256].join(", ");
    let source = format!("f({args})");
    let tokens = Scanner::new(source).parse();
    let mut parser = Parser::new(&tokens);
    let err = parser.parse_expression().unwrap_err();
    assert!(matches!(err, ParseError::FunctionArgsLimitExceeded { line: 1 }));
    assert_eq!(err.message(), "[line 1] Error: Can't have more than 255 arguments.");
}
