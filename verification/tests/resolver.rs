use lox_interp::ast::StmtEnum;
use lox_interp::error::RuntimeError;
use lox_interp::interpreter::{Interpreter, LocalKey};
use lox_interp::parser::Parser;
use lox_interp::resolver::Resolver;
use lox_interp::scanner::Scanner;

fn program(source: &str) -> Vec<StmtEnum> {
    let toks = Scanner::new(source.to_string()).parse();
    let mut parser = Parser::new(&toks);
    parser.parse().expect("the program parses")
}

fn resolve(source: &str) -> (Result<(), RuntimeError>, Interpreter) {
    let stmts = program(source);
    let mut interp = Interpreter::new();
    let mut resolver = Resolver::new();
    let r = resolver.resolve(&mut interp, &stmts);
    (r, interp)
}

fn key(assign: bool, name: &str, line: usize) -> LocalKey {
    LocalKey { assign, name: name.to_string(), line, value: None }
}

fn assign_key(name: &str, line: usize, value: &str) -> LocalKey {
    let toks = Scanner::new(value.to_string()).parse();
    let mut parser = Parser::new(&toks);
    let value = parser.parse_expression().expect("the value parses");
    LocalKey { assign: true, name: name.to_string(), line, value: Some(value) }
}

#[test]
fn globals_are_not_placed() {
    let (r, interp) = resolve("var a = 1;\nprint a;");
    assert!(r.is_ok());
    assert_eq!(interp.local_depth(&key(false, "a", 2)), None);
}

#[test]
fn locals_are_placed_by_depth() {
    let (r, interp) = resolve("{\nvar a = 1;\n{\nprint a;\n}\nprint a;\n}");
    assert!(r.is_ok());
    assert_eq!(interp.local_depth(&key(false, "a", 4)), Some(1));
    assert_eq!(interp.local_depth(&key(false, "a", 6)), Some(0));
}

#[test]
fn assignments_are_placed() {
    let (r, interp) = resolve("{\nvar a;\na = 2;\n}");
    assert!(r.is_ok());
    assert_eq!(interp.local_depth(&assign_key("a", 3, "2")), Some(0));
}

#[test]
fn assignments_on_one_line_are_told_apart_by_their_values() {
    let (r, interp) = resolve("var a = 0; { a = 1; var a = 2; a = 3; }");
    assert!(r.is_ok());
    assert_eq!(interp.local_depth(&assign_key("a", 1, "1")), None);
    assert_eq!(interp.local_depth(&assign_key("a", 1, "3")), Some(0));
}

#[test]
fn parameters_are_locals_of_the_body() {
    let (r, interp) = resolve("fun f(x) {\nreturn x;\n}");
    assert!(r.is_ok());
    assert_eq!(interp.local_depth(&key(false, "x", 2)), Some(0));
}

#[test]
fn closures_reach_outer_functions() {
    let (r, interp) = resolve("fun outer() {\nvar c = 0;\nfun inner() {\nreturn c;\n}\nreturn inner;\n}");
    assert!(r.is_ok());
    assert_eq!(interp.local_depth(&key(false, "c", 4)), Some(1));
    assert_eq!(interp.local_depth(&key(false, "inner", 6)), Some(0));
}

#[test]
fn own_initializer_is_refused() {
    let (r, _) = resolve("{\nvar a = a;\n}");
    let e = r.unwrap_err();
    assert_eq!(e.message(), "[line 2] Error: Can't read local variable in its own initializer.");
}

#[test]
fn global_may_read_itself() {
    let (r, _) = resolve("var a = a;");
    assert!(r.is_ok());
}

#[test]
fn redeclaration_in_local_scope_is_refused() {
    let (r, _) = resolve("{\nvar a = 1;\nvar a = 2;\n}");
    let e = r.unwrap_err();
    assert_eq!(e.message(), "[line 3] Error: Already a variable with this name 'a' in this scope.");
}

#[test]
fn duplicate_parameters_are_refused() {
    let (r, _) = resolve("fun f(a, a) {}");
    assert!(r.is_err());
}

#[test]
fn top_level_return_is_refused() {
    let (r, _) = resolve("print 1;\nreturn 2;");
    let e = r.unwrap_err();
    assert!(matches!(&e, RuntimeError::Error { line: 2, .. }));
    assert_eq!(e.message(), "[line 2] Error: Can't return from top-level code.");
}

#[test]
fn return_inside_function_is_accepted() {
    let (r, _) = resolve("fun f() { return 1; }\nfun g() { if (true) return; }");
    assert!(r.is_ok());
}

#[test]
fn resolving_stops_at_first_error() {
    let (r, interp) = resolve("{\nvar a = a;\n}\n{\nvar b;\nprint b;\n}");
    assert!(r.is_err());
    assert_eq!(interp.local_depth(&key(false, "b", 6)), None);
}
