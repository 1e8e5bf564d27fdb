use lox_interp::ast::StmtEnum;
use lox_interp::callable::{Class, ClockFn, Function, Instance, Property};
use lox_interp::environment::Environment;
use lox_interp::error::RuntimeError;
use lox_interp::interpreter::{
    binary_operation, call_target, check_arity, logical_short_circuit, property_target,
    unary_operation, ArithOp, BinaryStep, Interpreter, LocalKey, CLOCK_ID,
};
use lox_interp::parser::Parser;
use lox_interp::scanner::Scanner;
use lox_interp::token::{Token, TokenType};
use lox_interp::value::{CallableRef, InstanceRef, Object};

fn num(n: f64) -> Object {
    Object::Number(n.to_bits())
}

fn string(s: &str) -> Object {
    Object::String(s.to_string())
}

fn ident(name: &str, line: usize) -> Token {
    Token::new(TokenType::Identifier, name.to_string(), None, line)
}

fn op(token_type: TokenType, lexeme: &str) -> Token {
    Token::new(token_type, lexeme.to_string(), None, 1)
}

fn value_of(step: Result<BinaryStep, RuntimeError>) -> Object {
    match step {
        Ok(BinaryStep::Value(v)) => v,
        other => panic!("expected a value, got {:?}", other),
    }
}

fn boolean(o: Object) -> bool {
    match o {
        Object::Boolean(b) => b,
        other => panic!("expected a boolean, got {:?}", other),
    }
}

// ---------------------------------------------------------------------------
// Values
// ---------------------------------------------------------------------------

#[test]
fn truthiness() {
    assert!(!Object::Null.is_truthy());
    assert!(!Object::Boolean(false).is_truthy());
    assert!(Object::Boolean(true).is_truthy());
    assert!(num(0.0).is_truthy());
    assert!(string("").is_truthy());
}

#[test]
fn equality_follows_ieee_and_identity() {
    assert!(num(0.0).equals(&num(-0.0)));
    assert!(!num(f64::NAN).equals(&num(f64::NAN)));
    assert!(num(2.5).equals(&num(2.5)));
    assert!(string("a").equals(&string("a")));
    assert!(!string("a").equals(&num(1.0)));
    assert!(Object::Null.equals(&Object::Null));
    let f = Object::Callable(CallableRef { id: 3, text: "<fn f>".to_string(), is_class: false });
    let g = Object::Callable(CallableRef { id: 4, text: "<fn f>".to_string(), is_class: false });
    assert!(f.equals(&f.copy()));
    assert!(!f.equals(&g));
}

#[test]
fn display_of_values_but_numbers() {
    assert_eq!(Object::Null.runtime_display(), Some("nil".to_string()));
    assert_eq!(Object::Boolean(true).runtime_display(), Some("true".to_string()));
    assert_eq!(string("hi").runtime_display(), Some("hi".to_string()));
    assert_eq!(num(1.0).runtime_display(), None);
    let i = Object::Instance(InstanceRef { id: 0, class_name: "Point".to_string() });
    assert_eq!(i.runtime_display(), Some("Point instance".to_string()));
}

// ---------------------------------------------------------------------------
// Operators
// ---------------------------------------------------------------------------

#[test]
fn arithmetic_is_named_for_numbers() {
    match binary_operation(&Token::new(TokenType::Plus, "+".to_string(), None, 1), num(1.0), num(2.0)) {
        Ok(BinaryStep::Arithmetic { op, left, right }) => {
            assert_eq!(op, ArithOp::Add);
            assert_eq!(left, 1.0f64.to_bits());
            assert_eq!(right, 2.0f64.to_bits());
        }
        other => panic!("unexpected {:?}", other),
    }
    assert!(matches!(
        binary_operation(&Token::new(TokenType::Star, "*".to_string(), None, 1), num(3.0), num(4.0)),
        Ok(BinaryStep::Arithmetic { op: ArithOp::Multiply, .. })
    ));
    assert!(matches!(
        binary_operation(&Token::new(TokenType::Minus, "-".to_string(), None, 1), num(3.0), num(4.0)),
        Ok(BinaryStep::Arithmetic { op: ArithOp::Subtract, .. })
    ));
    assert!(matches!(
        binary_operation(&Token::new(TokenType::Slash, "/".to_string(), None, 1), num(3.0), num(4.0)),
        Ok(BinaryStep::Arithmetic { op: ArithOp::Divide, .. })
    ));
}

#[test]
fn strings_concatenate() {
    match value_of(binary_operation(&Token::new(TokenType::Plus, "+".to_string(), None, 1), string("foo"), string("bar"))) {
        Object::String(s) => assert_eq!(s, "foobar"),
        other => panic!("unexpected {:?}", other),
    }
}

#[test]
fn operand_errors() {
    let e = binary_operation(&Token::new(TokenType::Plus, "+".to_string(), None, 1), string("a"), num(1.0)).unwrap_err();
    assert!(matches!(e, RuntimeError::PlusTypeMismatch));
    assert_eq!(e.message(), "Operands must be two numbers or two strings");
    let e = binary_operation(&Token::new(TokenType::Minus, "-".to_string(), None, 1), string("a"), string("b")).unwrap_err();
    assert!(matches!(e, RuntimeError::NonNumericOperands));
    assert_eq!(e.message(), "Operands must be numbers");
    let e = binary_operation(&Token::new(TokenType::Less, "<".to_string(), None, 1), Object::Null, num(1.0)).unwrap_err();
    assert!(matches!(e, RuntimeError::NonNumericOperands));
}

#[test]
fn division_by_zero_is_refused() {
    let e = binary_operation(&Token::new(TokenType::Slash, "/".to_string(), None, 1), num(1.0), num(0.0)).unwrap_err();
    assert!(matches!(e, RuntimeError::DivisionByZero));
    assert_eq!(e.message(), "Division by zero");
    let e = binary_operation(&Token::new(TokenType::Slash, "/".to_string(), None, 1), num(1.0), num(-0.0)).unwrap_err();
    assert!(matches!(e, RuntimeError::DivisionByZero));
}

#[test]
fn comparisons_of_numbers() {
    assert!(boolean(value_of(binary_operation(&Token::new(TokenType::Less, "<".to_string(), None, 1), num(1.0), num(2.0)))));
    assert!(!boolean(value_of(binary_operation(&Token::new(TokenType::Less, "<".to_string(), None, 1), num(2.0), num(1.0)))));
    assert!(boolean(value_of(binary_operation(&Token::new(TokenType::Less, "<".to_string(), None, 1), num(-2.0), num(-1.0)))));
    assert!(boolean(value_of(binary_operation(&Token::new(TokenType::Less, "<".to_string(), None, 1), num(-1.0), num(0.5)))));
    assert!(boolean(value_of(binary_operation(&Token::new(TokenType::LessEqual, "<=".to_string(), None, 1), num(-0.0), num(0.0)))));
    assert!(!boolean(value_of(binary_operation(&Token::new(TokenType::Less, "<".to_string(), None, 1), num(-0.0), num(0.0)))));
    assert!(boolean(value_of(binary_operation(&Token::new(TokenType::Greater, ">".to_string(), None, 1), num(3.0), num(2.0)))));
    assert!(boolean(value_of(binary_operation(&Token::new(TokenType::GreaterEqual, ">=".to_string(), None, 1), num(2.0), num(2.0)))));
    assert!(!boolean(value_of(binary_operation(&Token::new(TokenType::Greater, ">".to_string(), None, 1), num(f64::NAN), num(1.0)))));
    assert!(boolean(value_of(binary_operation(&Token::new(TokenType::Less, "<".to_string(), None, 1),
        num(1.0),
        num(f64::INFINITY)
    ))));
}

#[test]
fn equality_operators() {
    assert!(boolean(value_of(binary_operation(&Token::new(TokenType::EqualEqual, "==".to_string(), None, 1), num(1.0), num(1.0)))));
    assert!(!boolean(value_of(binary_operation(&Token::new(TokenType::EqualEqual, "==".to_string(), None, 1), num(1.0), string("1")))));
    assert!(boolean(value_of(binary_operation(&Token::new(TokenType::BangEqual, "!=".to_string(), None, 1), Object::Null, Object::Boolean(false)))));
}

#[test]
fn token_that_is_no_operator_is_refused_with_its_operands() {
    let and = Token::new(TokenType::And, "and".to_string(), None, 1);
    let e = binary_operation(&and, string("a"), Object::Null).unwrap_err();
    assert_eq!(e.message(), "Unary not implemented for AND and null and a nil");
    let e = unary_operation(&op(TokenType::Plus, "+"), string("s")).unwrap().unwrap_err();
    assert_eq!(e.message(), "Unary not implemented for PLUS + null and s");
}

#[test]
fn token_that_is_no_binary_operator() {
    assert!(matches!(
        binary_operation(&Token::new(TokenType::And, "and".to_string(), None, 1), num(1.0), num(2.0)),
        Ok(BinaryStep::Unsupported)
    ));
}

#[test]
fn unary_minus_and_bang() {
    match unary_operation(&op(TokenType::Minus, "-"), num(2.5)) {
        Some(Ok(Object::Number(n))) => assert_eq!(f64::from_bits(n), -2.5),
        other => panic!("unexpected {:?}", other),
    }
    assert!(matches!(
        unary_operation(&op(TokenType::Bang, "!"), num(0.0)),
        Some(Ok(Object::Boolean(true)))
    ));
    assert!(matches!(
        unary_operation(&op(TokenType::Bang, "!"), num(3.0)),
        Some(Ok(Object::Boolean(false)))
    ));
    assert!(matches!(
        unary_operation(&op(TokenType::Bang, "!"), Object::Null),
        Some(Ok(Object::Boolean(true)))
    ));
    assert!(matches!(
        unary_operation(&op(TokenType::Bang, "!"), Object::Boolean(true)),
        Some(Ok(Object::Boolean(false)))
    ));
    assert!(unary_operation(&op(TokenType::Plus, "+"), num(1.0)).is_none());
}

#[test]
fn unary_mismatch_names_operator_and_operand() {
    let e = unary_operation(&op(TokenType::Minus, "-"), string("x")).unwrap().unwrap_err();
    assert_eq!(e.message(), "Unary not implemented for MINUS - null and x");
    let e = unary_operation(&op(TokenType::Bang, "!"), string("s")).unwrap().unwrap_err();
    assert!(matches!(&e, RuntimeError::UnaryTypeMismatch { operator, operand }
        if operator == "BANG ! null" && operand == "s"));
    let e = unary_operation(&op(TokenType::Minus, "-"), Object::Null).unwrap().unwrap_err();
    assert_eq!(e.message(), "Unary not implemented for MINUS - null and nil");
}

#[test]
fn logical_operators_stop_early() {
    assert!(logical_short_circuit(TokenType::Or, &Object::Boolean(true)));
    assert!(!logical_short_circuit(TokenType::Or, &Object::Null));
    assert!(logical_short_circuit(TokenType::And, &Object::Null));
    assert!(!logical_short_circuit(TokenType::And, &num(1.0)));
}

#[test]
fn calls_are_checked() {
    let f = Object::Callable(CallableRef { id: 7, text: "<fn f>".to_string(), is_class: false });
    assert_eq!(call_target(&f).unwrap(), 7);
    let e = call_target(&string("f")).unwrap_err();
    assert!(matches!(e, RuntimeError::FunctionCallError));
    assert_eq!(e.message(), "Can only call functions and classes.");
    assert!(check_arity(2, 2).is_ok());
    let e = check_arity(2, 3).unwrap_err();
    assert!(matches!(e, RuntimeError::FunctionCallArgsError { required: 2, passed: 3 }));
    assert_eq!(e.message(), "Expected 2 arguments but got 3.");
}

#[test]
fn only_instances_have_properties() {
    let i = Object::Instance(InstanceRef { id: 5, class_name: "P".to_string() });
    assert_eq!(property_target(&i, &ident("x", 3)).unwrap(), 5);
    let e = property_target(&num(1.0), &ident("x", 3)).unwrap_err();
    assert_eq!(e.message(), "[line 3] Error: Only instances have properties.");
}

// ---------------------------------------------------------------------------
// Scopes
// ---------------------------------------------------------------------------

#[test]
fn define_then_get() {
    let mut env = Environment::new();
    env.define(0, "a".to_string(), Some(num(1.0)));
    assert!(env.get(0, &ident("a", 1)).unwrap().equals(&num(1.0)));
    env.define(0, "b".to_string(), None);
    assert!(matches!(env.get(0, &ident("b", 1)).unwrap(), Object::Null));
}

#[test]
fn redefining_replaces() {
    let mut env = Environment::new();
    env.define(0, "a".to_string(), Some(num(1.0)));
    env.define(0, "a".to_string(), Some(string("two")));
    assert!(env.get(0, &ident("a", 1)).unwrap().equals(&string("two")));
}

#[test]
fn undefined_variable() {
    let env = Environment::new();
    let e = env.get(0, &ident("nope", 1)).unwrap_err();
    assert!(matches!(&e, RuntimeError::UndefinedVariable { name } if name == "nope"));
    assert_eq!(e.message(), "Undefined variable 'nope'.");
}

#[test]
fn inner_scope_sees_outer_and_shadows() {
    let mut env = Environment::new();
    env.define(0, "a".to_string(), Some(num(1.0)));
    let inner = env.new_scope(0);
    assert_eq!(inner, 1);
    assert!(env.get(inner, &ident("a", 1)).unwrap().equals(&num(1.0)));
    env.define(inner, "a".to_string(), Some(num(2.0)));
    assert!(env.get(inner, &ident("a", 1)).unwrap().equals(&num(2.0)));
    assert!(env.get(0, &ident("a", 1)).unwrap().equals(&num(1.0)));
}

#[test]
fn assign_writes_the_holder() {
    let mut env = Environment::new();
    env.define(0, "a".to_string(), Some(num(1.0)));
    let inner = env.new_scope(0);
    env.assign(inner, &ident("a", 1), num(5.0)).unwrap();
    assert!(env.get(0, &ident("a", 1)).unwrap().equals(&num(5.0)));
    let e = env.assign(inner, &ident("b", 1), num(5.0)).unwrap_err();
    assert_eq!(e.message(), "Undefined variable 'b'.");
    assert!(env.get(inner, &ident("b", 1)).is_err());
}

#[test]
fn distances_reach_ancestors() {
    let mut env = Environment::new();
    let s1 = env.new_scope(0);
    let s2 = env.new_scope(s1);
    env.define(s1, "x".to_string(), Some(num(1.0)));
    assert_eq!(env.ancestor(s2, 0), Some(s2));
    assert_eq!(env.ancestor(s2, 1), Some(s1));
    assert_eq!(env.ancestor(s2, 2), Some(0));
    assert_eq!(env.ancestor(s2, 3), None);
    assert!(env.get_at(s2, 1, &ident("x", 1)).unwrap().equals(&num(1.0)));
    assert!(env.get_at(s2, 0, &ident("x", 1)).is_err());
    env.assign_at(s2, 0, &ident("x", 1), num(9.0)).unwrap();
    assert!(env.get_at(s2, 0, &ident("x", 1)).unwrap().equals(&num(9.0)));
    assert!(env.get_at(s2, 1, &ident("x", 1)).unwrap().equals(&num(1.0)));
    assert!(env.assign_at(s2, 5, &ident("x", 1), num(0.0)).is_err());
}

#[test]
fn interpreter_starts_with_clock() {
    let interp = Interpreter::new();
    let key = LocalKey { assign: false, name: "clock".to_string(), line: 1, value: None };
    match interp.lookup_variable(&ident("clock", 1), &key).unwrap() {
        Object::Callable(c) => {
            assert_eq!(c.id, CLOCK_ID);
            assert_eq!(c.text, "<native fn>");
        }
        other => panic!("unexpected {:?}", other),
    }
    assert_eq!(interp.current_scope(), 0);
}

#[test]
fn resolved_variables_are_read_where_placed() {
    let mut interp = Interpreter::new();
    interp.define("a".to_string(), Some(num(1.0)));
    let block = interp.new_scope(0);
    let previous = interp.enter(block);
    assert_eq!(previous, 0);
    interp.define("a".to_string(), Some(num(2.0)));
    let local = LocalKey { assign: false, name: "a".to_string(), line: 2, value: None };
    let global = LocalKey { assign: false, name: "a".to_string(), line: 3, value: None };
    interp.resolve(local.copy(), 0);
    assert_eq!(interp.local_depth(&local), Some(0));
    assert_eq!(interp.local_depth(&global), None);
    assert!(interp.lookup_variable(&ident("a", 2), &local).unwrap().equals(&num(2.0)));
    assert!(interp.lookup_variable(&ident("a", 3), &global).unwrap().equals(&num(1.0)));
    let assign = LocalKey { assign: true, name: "a".to_string(), line: 4, value: None };
    interp.resolve(assign.copy(), 0);
    interp.assign_variable(&ident("a", 4), &assign, num(7.0)).unwrap();
    assert!(interp.lookup_variable(&ident("a", 2), &local).unwrap().equals(&num(7.0)));
    assert!(interp.lookup_variable(&ident("a", 3), &global).unwrap().equals(&num(1.0)));
    interp.enter(previous);
    assert_eq!(interp.current_scope(), 0);
}

#[test]
fn later_resolution_replaces_earlier() {
    let mut interp = Interpreter::new();
    let key = LocalKey { assign: false, name: "a".to_string(), line: 1, value: None };
    interp.resolve(key.copy(), 2);
    interp.resolve(key.copy(), 1);
    assert_eq!(interp.local_depth(&key), Some(1));
}

// ---------------------------------------------------------------------------
// Functions, classes and instances
// ---------------------------------------------------------------------------

fn parsed_function(source: &str) -> lox_interp::ast::Fun {
    let toks = Scanner::new(source.to_string()).parse();
    let mut parser = Parser::new(&toks);
    let mut stmts = parser.parse().expect("parses");
    match stmts.remove(0) {
        StmtEnum::Function(f) => f,
        _ => panic!("a function declaration"),
    }
}

#[test]
fn function_from_declaration() {
    let fun = parsed_function("fun add(a, b) { return a + b; }");
    let f = Function::new(4, &fun, 0, false);
    assert_eq!(f.declaration, 4);
    assert_eq!(f.name, "add");
    assert_eq!(f.params, vec!["a".to_string(), "b".to_string()]);
    assert_eq!(f.arity(), 2);
    assert_eq!(f.to_display_string(), "<fn add>");
}

#[test]
fn call_scope_binds_arguments() {
    let fun = parsed_function("fun add(a, b) { return a + b; }");
    let f = Function::new(0, &fun, 0, false);
    let mut interp = Interpreter::new();
    let scope = f.call_scope(&mut interp, vec![num(1.0), num(2.0)]);
    assert_eq!(scope, 1);
    let env = interp.environments();
    assert!(env.get(scope, &ident("a", 1)).unwrap().equals(&num(1.0)));
    assert!(env.get(scope, &ident("b", 1)).unwrap().equals(&num(2.0)));
    assert!(env.get(scope, &ident("clock", 1)).is_ok());
}

#[test]
fn what_a_call_gives_back() {
    let fun = parsed_function("fun f() {}");
    let f = Function::new(0, &fun, 0, false);
    let interp = Interpreter::new();
    assert!(matches!(f.finish_call(&interp, Ok(())), Ok(Object::Null)));
    let returned = f.finish_call(&interp, Err(RuntimeError::ReturnValue { value: num(3.0) }));
    assert!(returned.unwrap().equals(&num(3.0)));
    let failed = f.finish_call(&interp, Err(RuntimeError::DivisionByZero));
    assert!(matches!(failed, Err(RuntimeError::DivisionByZero)));
}

#[test]
fn initializer_gives_back_its_instance() {
    let fun = parsed_function("fun init() {}");
    let init = Function::new(0, &fun, 0, true);
    let mut interp = Interpreter::new();
    let this = Object::Instance(InstanceRef { id: 9, class_name: "P".to_string() });
    let bound = init.bind(&mut interp, this);
    assert_eq!(bound.closure, 1);
    let r = bound.finish_call(&interp, Err(RuntimeError::ReturnValue { value: Object::Null }));
    assert!(matches!(r, Ok(Object::Instance(InstanceRef { id: 9, .. }))));
    let r = bound.finish_call(&interp, Ok(()));
    assert!(matches!(r, Ok(Object::Instance(InstanceRef { id: 9, .. }))));
}

#[test]
fn methods_are_found_through_superclasses() {
    let greet = Function::new(0, &parsed_function("fun greet() {}"), 0, false);
    let init = Function::new(1, &parsed_function("fun init(a, b) {}"), 0, true);
    let base = Class::new("Base".to_string(), vec![greet, init], None);
    let own = Function::new(2, &parsed_function("fun own() {}"), 0, false);
    let derived = Class::new("Derived".to_string(), vec![own], Some(base));
    assert_eq!(derived.find_method(&"greet".to_string()).unwrap().declaration, 0);
    assert_eq!(derived.find_method(&"own".to_string()).unwrap().declaration, 2);
    assert!(derived.find_method(&"missing".to_string()).is_none());
    assert_eq!(derived.arity(), 2);
    assert_eq!(derived.initializer().unwrap().declaration, 1);
    assert_eq!(derived.to_display_string(), "Derived");
    let plain = Class::new("Plain".to_string(), vec![], None);
    assert_eq!(plain.arity(), 0);
}

#[test]
fn later_method_replaces_earlier() {
    let first = Function::new(0, &parsed_function("fun m() {}"), 0, false);
    let second = Function::new(1, &parsed_function("fun m() {}"), 0, false);
    let c = Class::new("C".to_string(), vec![first, second], None);
    assert_eq!(c.find_method(&"m".to_string()).unwrap().declaration, 1);
}

#[test]
fn instance_properties() {
    let method = Function::new(3, &parsed_function("fun area() {}"), 0, false);
    let class = Class::new("Square".to_string(), vec![method], None);
    let mut instance = Instance::new(class);
    let this = Object::Instance(InstanceRef { id: 0, class_name: "Square".to_string() });
    let mut interp = Interpreter::new();
    assert_eq!(instance.to_display_string(), "Square instance");
    instance.set(&ident("side", 1), num(2.0));
    match instance.get(&this, &ident("side", 1), &mut interp).unwrap() {
        Property::Field(v) => assert!(v.equals(&num(2.0))),
        other => panic!("unexpected {:?}", other),
    }
    match instance.get(&this, &ident("area", 1), &mut interp).unwrap() {
        Property::Method(f) => {
            assert_eq!(f.declaration, 3);
            let this_token = Token::new(TokenType::This, "this".to_string(), None, 0);
            let seen = interp.environments().get(f.closure, &this_token).unwrap();
            assert!(seen.equals(&this));
        }
        other => panic!("unexpected {:?}", other),
    }
    let e = instance.get(&this, &ident("color", 5), &mut interp).unwrap_err();
    assert_eq!(e.message(), "[line 5] Error: Undefined property 'color'.");
}

#[test]
fn clock_takes_nothing() {
    assert_eq!(ClockFn.arity(), 0);
    assert_eq!(ClockFn.to_display_string(), "<native fn>");
}

#[test]
fn remaining_error_messages() {
    let e = RuntimeError::Error { line: 12, msg: "Boom.".to_string() };
    assert_eq!(e.message(), "[line 12] Error: Boom.");
    let e = RuntimeError::ReturnValue { value: Object::Null };
    assert_eq!(e.message(), "Can't return from top-level code.");
    let e = RuntimeError::UnaryTypeMismatch { operator: "op".to_string(), operand: "x y".to_string() };
    assert_eq!(e.message(), "Unary not implemented for op and x y");
}

#[test]
fn only_instances_have_fields() {
    let i = Object::Instance(InstanceRef { id: 2, class_name: "P".to_string() });
    assert_eq!(lox_interp::interpreter::field_target(&i, &ident("x", 1)).unwrap(), 2);
    let e = lox_interp::interpreter::field_target(&Object::Null, &ident("x", 4)).unwrap_err();
    assert_eq!(e.message(), "[line 4] Error: Only instances have fields.");
}

#[test]
fn superclass_must_be_a_class() {
    let class = Object::Callable(CallableRef { id: 6, text: "Base".to_string(), is_class: true });
    let fun = Object::Callable(CallableRef { id: 7, text: "<fn f>".to_string(), is_class: false });
    assert_eq!(lox_interp::interpreter::superclass_target(&class, &ident("Base", 1)).unwrap(), 6);
    let e = lox_interp::interpreter::superclass_target(&fun, &ident("f", 2)).unwrap_err();
    assert_eq!(e.message(), "[line 2] Error: Superclass must be a class.");
    assert!(lox_interp::interpreter::superclass_target(&num(1.0), &ident("n", 2)).is_err());
}

#[test]
fn class_declared_from_its_statement() {
    let decl = lox_interp::ast::Class::new(
        ident("Point", 1),
        vec![
            StmtEnum::Function(parsed_function("fun init(x, y) {}")),
            StmtEnum::Function(parsed_function("fun norm() {}")),
        ],
        None,
    );
    let class = Class::declare(&decl, 10, 3, None);
    assert_eq!(class.name, "Point");
    assert_eq!(class.methods.len(), 2);
    assert_eq!(class.methods[0].declaration, 10);
    assert!(class.methods[0].is_initializer);
    assert_eq!(class.methods[0].params, vec!["x".to_string(), "y".to_string()]);
    assert_eq!(class.methods[1].declaration, 11);
    assert!(!class.methods[1].is_initializer);
    assert_eq!(class.methods[1].closure, 3);
    assert_eq!(class.arity(), 2);
}

#[test]
fn a_field_shadows_a_method() {
    let method = Function::new(0, &parsed_function("fun size() {}"), 0, false);
    let mut instance = Instance::new(Class::new("Box".to_string(), vec![method], None));
    let this = Object::Instance(InstanceRef { id: 0, class_name: "Box".to_string() });
    let mut interp = Interpreter::new();
    assert!(matches!(
        instance.get(&this, &ident("size", 1), &mut interp).unwrap(),
        Property::Method(_)
    ));
    instance.set(&ident("size", 1), num(4.0));
    match instance.get(&this, &ident("size", 1), &mut interp).unwrap() {
        Property::Field(v) => assert!(v.equals(&num(4.0))),
        other => panic!("unexpected {:?}", other),
    }
}
