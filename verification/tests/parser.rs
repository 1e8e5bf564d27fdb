use lox_interp::ast::{ExprEnum, StmtEnum};
use lox_interp::error::ParseError;
use lox_interp::parser::{ParseRun, Parser};
use lox_interp::printer::AstPrinter;
use lox_interp::scanner::Scanner;
use lox_interp::token::Token;

fn tokens(source: &str) -> Vec<Token> {
    Scanner::new(source.to_string()).parse()
}

fn expression(source: &str) -> Result<ExprEnum, ParseError> {
    let toks = tokens(source);
    let mut parser = Parser::new(&toks);
    parser.parse_expression()
}

fn printed(source: &str) -> String {
    let expr = expression(source).expect("the expression parses");
    AstPrinter::new().print(&expr)
}

fn program(source: &str) -> Result<Vec<StmtEnum>, ParseError> {
    let toks = tokens(source);
    let mut parser = Parser::new(&toks);
    parser.parse()
}

fn shown_program(source: &str) -> Vec<String> {
    program(source)
        .expect("the program parses")
        .iter()
        .map(|s| s.to_display_string())
        .collect()
}

#[test]
fn factor_binds_tighter_than_term() {
    assert_eq!(printed("1 + 2 * 3"), "(+ 1 (* 2 3))");
    assert_eq!(printed("1 * 2 + 3"), "(+ (* 1 2) 3)");
}

#[test]
fn binary_operators_associate_left() {
    assert_eq!(printed("1 - 2 - 3"), "(- (- 1 2) 3)");
    assert_eq!(printed("8 / 4 / 2"), "(/ (/ 8 4) 2)");
}

#[test]
fn comparison_and_equality_levels() {
    assert_eq!(printed("1 < 2 == true"), "(== (< 1 2) true)");
    assert_eq!(printed("\"a\" != \"b\""), "(!= a b)");
}

#[test]
fn grouping_and_unary() {
    assert_eq!(printed("(1)"), "(group 1)");
    assert_eq!(printed("-(-2)"), "(- (group (- 2)))");
    assert_eq!(printed("!!nil"), "(! (! nil))");
    assert_eq!(printed("(-123) * (45.67)"), "(* (group (- 123)) (group 45.67))");
}

#[test]
fn logical_operators() {
    assert_eq!(printed("a or b and c"), "(or a (and b c))");
}

#[test]
fn assignment_is_right_associative() {
    assert_eq!(printed("a = b = 3"), "(= a (= b 3))");
}

#[test]
fn calls_print_their_arguments() {
    assert_eq!(printed("f(1, x)(2)"), "f(1, x)(2)");
    assert_eq!(printed("clock()"), "clock()");
}

#[test]
fn missing_operand_is_an_error() {
    let err = expression("1 +").unwrap_err();
    assert!(matches!(&err, ParseError::ExpectedExpression { line: 1, got } if got.is_empty()));
    assert_eq!(err.message(), "[line 1] Error: Expected expression, got ");
}

#[test]
fn unclosed_group_is_an_error() {
    let err = expression("(1").unwrap_err();
    assert_eq!(err.message(), "[line 1] Error: Expected Expected ')' after expression but found ");
}

#[test]
fn invalid_assignment_target() {
    let err = expression("1 = 2").unwrap_err();
    assert!(matches!(err, ParseError::InvalidAssignment { line: 1 }));
    assert_eq!(err.message(), "[line 1] Error: Invalid assignment target");
}

#[test]
fn statements_are_shown() {
    assert_eq!(
        shown_program("print 1; var a = 2; var b; a;"),
        vec!["1", "a 2", "b nil", "a"]
    );
}

#[test]
fn block_and_if_are_shown() {
    assert_eq!(
        shown_program("{ print 1; print 2; } if (a) print 1; else print 2;"),
        vec!["{\n 1\n2 \n}", "if (a) 1else 2"]
    );
}

#[test]
fn for_loop_desugars_to_while() {
    assert_eq!(
        shown_program("for (var i = 0; i < 3; i = i + 1) print i;"),
        vec!["{\n i 0\nwhile ((< i 3)) {\n i\n(= i (+ i 1)) \n} \n}"]
    );
}

#[test]
fn function_declaration_is_shown() {
    assert_eq!(
        shown_program("fun add(a, b) { return a + b; }"),
        vec!["fun IDENTIFIER add null (IDENTIFIER a null, IDENTIFIER b null) {\nreturn (+ a b)\n}"]
    );
}

#[test]
fn missing_semicolon_is_reported() {
    let err = program("print 1").unwrap_err();
    assert_eq!(err.message(), "[line 1] Error: Expected Expect ';' after value. but found ");
}

#[test]
fn parser_recovers_and_reports_every_error() {
    let toks = tokens("var = 1; print 2; var 3;\nprint 4;");
    let mut parser = Parser::new(&toks);
    let result = parser.parse_program();
    let messages: Vec<String> = parser.errors().iter().map(|e| e.message()).collect();
    assert_eq!(
        messages,
        vec![
            "[line 1] Error: Expected Expected variable name. but found =",
            "[line 1] Error: Expected Expected variable name. but found 3",
        ]
    );
    match result {
        ParseRun::Finished(Err(e)) => {
            assert_eq!(e.message(), "[line 1] Error: Expected Expected variable name. but found 3")
        }
        _ => panic!("the last error is given back"),
    }
}

#[test]
fn running_out_of_tokens_is_told() {
    let toks = tokens("print 1 +");
    let mut parser = Parser::new(&toks);
    assert!(matches!(parser.parse_program(), ParseRun::OutOfTokens));
    assert_eq!(parser.errors().len(), 1);
}

#[test]
fn for_loop_with_every_clause_empty() {
    assert_eq!(shown_program("for (;;) x;"), vec!["while (true) x"]);
    assert_eq!(
        shown_program("for (var i = 0;; i = i + 1) print i;"),
        vec!["{\n i 0\nwhile (true) {\n i\n(= i (+ i 1)) \n} \n}"]
    );
}

#[test]
fn for_loop_with_a_condition_still_wants_its_semicolon() {
    let err = program("for (; x) y;").unwrap_err();
    assert_eq!(
        err.message(),
        "[line 1] Error: Expected Expect ';' after loop condition. but found )"
    );
}

#[test]
fn no_tokens_make_an_empty_program() {
    let toks: Vec<Token> = Vec::new();
    let mut parser = Parser::new(&toks);
    assert!(parser.parse().unwrap().is_empty());
    assert!(parser.errors().is_empty());
}
