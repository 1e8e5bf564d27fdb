//! What the interpreter decides while it walks a program: the outcome of each
//! operator on its operands, when `and` and `or` stop early, when a call is
//! refused, and where each variable is read and written.
//!
//! The sums, differences, products and quotients of numbers are floating-point
//! operations; the decisions here name them (`BinaryStep::Arithmetic`) and leave
//! the arithmetic to the caller.
use vstd::prelude::*;
use crate::environment::{ancestor, bound, chain_ordered, holder, lookup, Environment, ScopeView};
use crate::ast::{ExprEnum, ExprView};
use crate::error::{RuntimeError, RuntimeErrorView};
use crate::token::{spec_token_text, Token, TokenType};
use crate::value::{
    is_zero, number_is_zero, number_le, number_less, number_less_equal, number_lt, object_text,
    objects_equal, truthy, CallableRef, Object, ObjectView, SIGN_BIT,
};

verus! {

/// An arithmetic operation on two numbers.
#[derive(Clone, Copy, Debug, PartialEq, Eq, Structural)]
pub enum ArithOp {
    Add,
    Subtract,
    Multiply,
    Divide,
}

/// What a binary operator gives: a value, an arithmetic operation on two
/// numbers for the caller to carry out, or, for a token that is no binary
/// operator used on a number, nothing: the error names the operands by their
/// text, and a number's text is a matter of floating point.
#[derive(Debug)]
pub enum BinaryStep {
    Value(Object),
    Arithmetic { op: ArithOp, left: u64, right: u64 },
    Unsupported,
}

/// The abstract value of a binary step.
pub enum BinaryStepView {
    Value(ObjectView),
    Arithmetic { op: ArithOp, left: u64, right: u64 },
    Unsupported,
}

impl View for BinaryStep {
    type V = BinaryStepView;

    open spec fn view(&self) -> BinaryStepView {
        match self {
            BinaryStep::Value(o) => BinaryStepView::Value(o@),
            BinaryStep::Arithmetic { op, left, right } => BinaryStepView::Arithmetic {
                op: *op,
                left: *left,
                right: *right,
            },
            BinaryStep::Unsupported => BinaryStepView::Unsupported,
        }
    }
}

/// A step that applies `op` to two numbers, or the error for other operands.
pub open spec fn numeric(op: ArithOp, l: ObjectView, r: ObjectView) -> Result<
    BinaryStepView,
    RuntimeErrorView,
> {
    match (l, r) {
        (ObjectView::Number(a), ObjectView::Number(b)) => Ok(
            BinaryStepView::Arithmetic { op, left: a, right: b },
        ),
        _ => Err(RuntimeErrorView::NonNumericOperands),
    }
}

/// A comparison of two numbers, or the error for other operands.
pub open spec fn comparison(holds: spec_fn(u64, u64) -> bool, l: ObjectView, r: ObjectView) -> Result<
    BinaryStepView,
    RuntimeErrorView,
> {
    match (l, r) {
        (ObjectView::Number(a), ObjectView::Number(b)) => Ok(
            BinaryStepView::Value(ObjectView::Boolean(holds(a, b))),
        ),
        _ => Err(RuntimeErrorView::NonNumericOperands),
    }
}

/// What the binary operator `op`, shown as `operator_text`, gives on `l` and `r`.
/// A token that is no binary operator is refused with an error that names it
/// and both operands by their texts.
pub open spec fn binary_result(op: TokenType, operator_text: Seq<char>, l: ObjectView, r: ObjectView) -> Result<
    BinaryStepView,
    RuntimeErrorView,
> {
    match op {
        TokenType::Plus => match (l, r) {
            (ObjectView::Number(a), ObjectView::Number(b)) => Ok(
                BinaryStepView::Arithmetic { op: ArithOp::Add, left: a, right: b },
            ),
            (ObjectView::String(a), ObjectView::String(b)) => Ok(
                BinaryStepView::Value(ObjectView::String(a + b)),
            ),
            _ => Err(RuntimeErrorView::PlusTypeMismatch),
        },
        TokenType::Minus => numeric(ArithOp::Subtract, l, r),
        TokenType::Star => numeric(ArithOp::Multiply, l, r),
        TokenType::Slash => match (l, r) {
            (ObjectView::Number(_), ObjectView::Number(b)) if number_is_zero(b) => Err(
                RuntimeErrorView::DivisionByZero,
            ),
            _ => numeric(ArithOp::Divide, l, r),
        },
        TokenType::Greater => comparison(|a: u64, b: u64| number_lt(b, a), l, r),
        TokenType::GreaterEqual => comparison(|a: u64, b: u64| number_le(b, a), l, r),
        TokenType::Less => comparison(|a: u64, b: u64| number_lt(a, b), l, r),
        TokenType::LessEqual => comparison(|a: u64, b: u64| number_le(a, b), l, r),
        TokenType::EqualEqual => Ok(BinaryStepView::Value(ObjectView::Boolean(objects_equal(l, r)))),
        TokenType::BangEqual => Ok(BinaryStepView::Value(ObjectView::Boolean(!objects_equal(l, r)))),
        _ => match (object_text(l), object_text(r)) {
            (Some(a), Some(b)) => Err(
                RuntimeErrorView::UnaryTypeMismatch { operator: operator_text, operand: a + " "@ + b },
            ),
            _ => Ok(BinaryStepView::Unsupported),
        },
    }
}

fn numeric_step(op: ArithOp, left: Object, right: Object) -> (r: Result<BinaryStep, RuntimeError>)
    ensures
        match (r, numeric(op, left@, right@)) {
            (Ok(s), Ok(t)) => s@ == t,
            (Err(e), Err(f)) => e@ == f,
            _ => false,
        },
{
    match (left, right) {
        (Object::Number(a), Object::Number(b)) => Ok(BinaryStep::Arithmetic { op, left: a, right: b }),
        _ => Err(RuntimeError::NonNumericOperands),
    }
}

/// What the binary operator `operator` gives on `left` and `right`: the value of
/// a concatenation, comparison or equality, the arithmetic operation to carry
/// out on two numbers, or the error that the operands call for.
pub fn binary_operation(operator: &Token, left: Object, right: Object) -> (r: Result<
    BinaryStep,
    RuntimeError,
>)
    ensures
        match (r, binary_result(operator.token_type, spec_token_text(operator@), left@, right@)) {
            (Ok(s), Ok(t)) => s@ == t,
            (Err(e), Err(f)) => e@ == f,
            _ => false,
        },
{
    match operator.token_type {
        TokenType::Plus => match (left, right) {
            (Object::Number(a), Object::Number(b)) => Ok(
                BinaryStep::Arithmetic { op: ArithOp::Add, left: a, right: b },
            ),
            (Object::String(a), Object::String(b)) => {
                let mut s = a;
                s.append(b.as_str());
                Ok(BinaryStep::Value(Object::String(s)))
            },
            _ => Err(RuntimeError::PlusTypeMismatch),
        },
        TokenType::Minus => numeric_step(ArithOp::Subtract, left, right),
        TokenType::Star => numeric_step(ArithOp::Multiply, left, right),
        TokenType::Slash => {
            if let Object::Number(b) = &right {
                if let Object::Number(_) = &left {
                    if is_zero(*b) {
                        return Err(RuntimeError::DivisionByZero);
                    }
                }
            }
            numeric_step(ArithOp::Divide, left, right)
        },
        TokenType::Greater | TokenType::GreaterEqual | TokenType::Less | TokenType::LessEqual => {
            match (&left, &right) {
                (Object::Number(a), Object::Number(b)) => {
                    let v = match operator.token_type {
                        TokenType::Greater => number_less(*b, *a),
                        TokenType::GreaterEqual => number_less_equal(*b, *a),
                        TokenType::Less => number_less(*a, *b),
                        _ => number_less_equal(*a, *b),
                    };
                    Ok(BinaryStep::Value(Object::Boolean(v)))
                },
                _ => Err(RuntimeError::NonNumericOperands),
            }
        },
        TokenType::EqualEqual => Ok(BinaryStep::Value(Object::Boolean(left.equals(&right)))),
        TokenType::BangEqual => Ok(BinaryStep::Value(Object::Boolean(!left.equals(&right)))),
        _ => match (left.runtime_display(), right.runtime_display()) {
            (Some(a), Some(b)) => {
                let mut operand = a;
                operand.append(" ");
                operand.append(b.as_str());
                Err(RuntimeError::UnaryTypeMismatch { operator: operator.to_display_string(), operand })
            },
            _ => Ok(BinaryStep::Unsupported),
        },
    }
}

/// What the unary operator `op` gives on `r`: a value or an error. The error
/// names the operator as its token shows (`operator_text`) and the operand by
/// its text; `None` for a token that is neither `-` nor `!` used on a number,
/// whose text is a matter of floating point.
pub open spec fn unary_result(op: TokenType, operator_text: Seq<char>, r: ObjectView) -> Option<
    Result<ObjectView, RuntimeErrorView>,
> {
    let mismatch = Err(
        RuntimeErrorView::UnaryTypeMismatch {
            operator: operator_text,
            operand: object_text(r)->0,
        },
    );
    match op {
        TokenType::Minus => Some(
            match r {
                ObjectView::Number(n) => Ok(ObjectView::Number(n ^ SIGN_BIT)),
                _ => mismatch,
            },
        ),
        TokenType::Bang => Some(
            match r {
                ObjectView::Boolean(b) => Ok(ObjectView::Boolean(!b)),
                ObjectView::Number(n) => Ok(ObjectView::Boolean(number_is_zero(n))),
                ObjectView::Null => Ok(ObjectView::Boolean(true)),
                _ => mismatch,
            },
        ),
        _ => match object_text(r) {
            Some(_) => Some(mismatch),
            None => None,
        },
    }
}

fn unary_mismatch(operator: &Token, right: &Object) -> (e: RuntimeError)
    requires
        !(right@ is Number),
    ensures
        e@ == (RuntimeErrorView::UnaryTypeMismatch {
            operator: spec_token_text(operator@),
            operand: object_text(right@)->0,
        }),
{
    let operand = match right.runtime_display() {
        Some(t) => t,
        None => String::new(),
    };
    RuntimeError::UnaryTypeMismatch { operator: operator.to_display_string(), operand }
}

/// What the unary operator `operator` gives on `right`: negation flips a
/// number's sign, `!` gives `true` for `nil`, `false` and zero, the negation of a
/// boolean, and an error for the rest, as for a token that is neither `-` nor `!`;
/// `None` for such a token on a number.
pub fn unary_operation(operator: &Token, right: Object) -> (r: Option<Result<Object, RuntimeError>>)
    ensures
        match (r, unary_result(operator.token_type, spec_token_text(operator@), right@)) {
            (Some(Ok(v)), Some(Ok(w))) => v@ == w,
            (Some(Err(e)), Some(Err(f))) => e@ == f,
            (None, None) => true,
            _ => false,
        },
{
    match operator.token_type {
        TokenType::Minus => match right {
            Object::Number(n) => Some(Ok(Object::Number(n ^ SIGN_BIT))),
            _ => Some(Err(unary_mismatch(operator, &right))),
        },
        TokenType::Bang => match right {
            Object::Boolean(b) => Some(Ok(Object::Boolean(!b))),
            Object::Number(n) => Some(Ok(Object::Boolean(is_zero(n)))),
            Object::Null => Some(Ok(Object::Boolean(true))),
            _ => Some(Err(unary_mismatch(operator, &right))),
        },
        _ => match right.runtime_display() {
            Some(_) => Some(Err(unary_mismatch(operator, &right))),
            None => None,
        },
    }
}

/// Whether a logical operator's value is its left operand, without evaluating
/// the right one: `or` stops at a true value, `and` at a false one.
pub open spec fn short_circuits(op: TokenType, left: ObjectView) -> bool {
    if op == TokenType::Or {
        truthy(left)
    } else {
        !truthy(left)
    }
}

/// Whether the logical operator `operator` stops at `left`.
pub fn logical_short_circuit(operator: TokenType, left: &Object) -> (b: bool)
    ensures
        b == short_circuits(operator, left@),
{
    if operator == TokenType::Or {
        left.is_truthy()
    } else {
        !left.is_truthy()
    }
}

/// The callable that a call names: its identity, or the error for a value that
/// cannot be called.
pub fn call_target(callee: &Object) -> (r: Result<usize, RuntimeError>)
    ensures
        match callee@ {
            ObjectView::Callable { id, .. } => r matches Ok(i) && i == id,
            _ => r matches Err(e) && e@ == RuntimeErrorView::FunctionCallError,
        },
{
    match callee {
        Object::Callable(c) => Ok(c.id),
        _ => Err(RuntimeError::FunctionCallError),
    }
}

/// A call goes ahead only with as many arguments as the callable takes.
pub fn check_arity(arity: usize, passed: usize) -> (r: Result<(), RuntimeError>)
    ensures
        arity == passed ==> r is Ok,
        arity != passed ==> (r matches Err(e) && e@ == (RuntimeErrorView::FunctionCallArgsError {
            required: arity as nat,
            passed: passed as nat,
        })),
{
    if arity != passed {
        Err(RuntimeError::FunctionCallArgsError { required: arity, passed })
    } else {
        Ok(())
    }
}

/// The instance whose property is read, or the error for a value that has no properties.
pub fn property_target(object: &Object, name: &Token) -> (r: Result<usize, RuntimeError>)
    ensures
        match object@ {
            ObjectView::Instance { id, .. } => r matches Ok(i) && i == id,
            _ => r matches Err(e) && e@ == (RuntimeErrorView::Error {
                line: name.line as nat,
                msg: "Only instances have properties."@,
            }),
        },
{
    match object {
        Object::Instance(i) => Ok(i.id),
        _ => Err(
            RuntimeError::Error {
                line: name.line,
                msg: String::from_str("Only instances have properties."),
            },
        ),
    }
}

/// The instance whose field is set, or the error for a value that has no fields.
pub fn field_target(object: &Object, name: &Token) -> (r: Result<usize, RuntimeError>)
    ensures
        match object@ {
            ObjectView::Instance { id, .. } => r matches Ok(i) && i == id,
            _ => r matches Err(e) && e@ == (RuntimeErrorView::Error {
                line: name.line as nat,
                msg: "Only instances have fields."@,
            }),
        },
{
    match object {
        Object::Instance(i) => Ok(i.id),
        _ => Err(
            RuntimeError::Error {
                line: name.line,
                msg: String::from_str("Only instances have fields."),
            },
        ),
    }
}

/// The class that a superclass clause, `name`, names, or the error for a value
/// that is no class.
pub fn superclass_target(value: &Object, name: &Token) -> (r: Result<usize, RuntimeError>)
    ensures
        match value@ {
            ObjectView::Callable { id, is_class: true, .. } => r matches Ok(i) && i == id,
            _ => r matches Err(e) && e@ == (RuntimeErrorView::Error {
                line: name.line as nat,
                msg: "Superclass must be a class."@,
            }),
        },
{
    match value {
        Object::Callable(c) if c.is_class => Ok(c.id),
        _ => Err(
            RuntimeError::Error {
                line: name.line,
                msg: String::from_str("Superclass must be a class."),
            },
        ),
    }
}

// ---------------------------------------------------------------------------
// Where variables live
// ---------------------------------------------------------------------------

/// The identity of the native `clock` function.
pub const CLOCK_ID: usize = 0;

/// A variable expression or assignment that the resolver placed: whether it is
/// an assignment, the name, the line where it stands, and for an assignment the
/// expression it assigns, so that two assignments are the same key only when
/// they are the same expression.
#[derive(Debug)]
pub struct LocalKey {
    pub assign: bool,
    pub name: String,
    pub line: usize,
    pub value: Option<ExprEnum>,
}

/// The abstract value of a local key.
pub struct LocalKeyView {
    pub assign: bool,
    pub name: Seq<char>,
    pub line: nat,
    pub value: Option<ExprView>,
}

impl View for LocalKey {
    type V = LocalKeyView;

    open spec fn view(&self) -> LocalKeyView {
        LocalKeyView {
            assign: self.assign,
            name: self.name@,
            line: self.line as nat,
            value: match &self.value {
                Some(e) => Some(e.view()),
                None => None,
            },
        }
    }
}

impl LocalKey {
    /// A copy of this key.
    pub fn copy(&self) -> (k: LocalKey)
        ensures
            k@ == self@,
    {
        let value = match &self.value {
            Some(e) => Some(e.copy()),
            None => None,
        };
        LocalKey { assign: self.assign, name: self.name.clone(), line: self.line, value }
    }

    /// Whether this key is `other`.
    pub fn same(&self, other: &LocalKey) -> (b: bool)
        ensures
            b == (self@ == other@),
    {
        let value_same = match (&self.value, &other.value) {
            (Some(a), Some(b)) => a.same_as(b),
            (None, None) => true,
            _ => false,
        };
        self.assign == other.assign && self.line == other.line && self.name == other.name
            && value_same
    }
}

/// The depth recorded last for `key`: a later record replaces an earlier one.
pub open spec fn depth_of(locals: Seq<(LocalKeyView, nat)>, key: LocalKeyView) -> Option<nat>
    decreases locals.len(),
{
    if locals.len() == 0 {
        None
    } else if locals.last().0 == key {
        Some(locals.last().1)
    } else {
        depth_of(locals.drop_last(), key)
    }
}

/// The global scope as a program starts: `clock` and nothing else.
pub open spec fn initial_globals() -> ScopeView {
    ScopeView {
        enclosing: None,
        values: map![
            "clock"@ => ObjectView::Callable {
                id: CLOCK_ID as nat,
                text: "<native fn>"@,
                is_class: false,
            },
        ],
    }
}

/// The value that a variable expression reads: from the scope `depth` steps
/// out where the resolver placed it, else from the globals.
pub open spec fn variable_value(
    scopes: Seq<ScopeView>,
    current: nat,
    depth: Option<nat>,
    name: Seq<char>,
) -> Option<ObjectView> {
    match depth {
        Some(d) => match ancestor(scopes, current, d) {
            Some(a) => if scopes[a as int].values.contains_key(name) {
                Some(scopes[a as int].values[name])
            } else {
                None
            },
            None => None,
        },
        None => lookup(scopes, 0, name),
    }
}

/// The state of a running program that the interpreter keeps: all scopes, the
/// current one, and the depth at which the resolver placed each local variable.
pub struct Interpreter {
    environments: Environment,
    environment: usize,
    locals: Vec<(LocalKey, usize)>,
}

impl Interpreter {
    /// The scopes.
    pub closed spec fn scopes(&self) -> Seq<ScopeView> {
        self.environments@
    }

    /// The number of the current scope.
    pub closed spec fn current(&self) -> nat {
        self.environment as nat
    }

    /// The recorded depths.
    pub closed spec fn locals(&self) -> Seq<(LocalKeyView, nat)> {
        Seq::new(self.locals@.len(), |i: int| (self.locals@[i].0@, self.locals@[i].1 as nat))
    }

    /// The scopes are well formed and the current one exists.
    pub closed spec fn wf(&self) -> bool {
        &&& self.environments.wf()
        &&& self.environment < self.environments@.len()
    }

    /// A well-formed interpreter has a global scope and a current scope.
    pub proof fn lemma_wf(&self)
        requires
            self.wf(),
        ensures
            self.scopes().len() > 0,
            self.current() < self.scopes().len(),
            crate::environment::chain_ordered(self.scopes()),
    {
        self.environments.lemma_wf();
    }

    /// An interpreter whose globals hold the native `clock`, in the global scope,
    /// with no local placed.
    pub fn new() -> (i: Interpreter)
        ensures
            i.wf(),
            i.scopes() == seq![initial_globals()],
            i.current() == 0,
            i.locals() == Seq::<(LocalKeyView, nat)>::empty(),
    {
        let mut environments = Environment::new();
        let clock = Object::Callable(
            CallableRef { id: CLOCK_ID, text: String::from_str("<native fn>"), is_class: false },
        );
        environments.define(0, String::from_str("clock"), Some(clock));
        let i = Interpreter { environments, environment: 0, locals: Vec::new() };
        assert(i.scopes() =~= seq![initial_globals()]);
        assert(i.locals() =~= Seq::<(LocalKeyView, nat)>::empty());
        i
    }

    /// The scopes, for reading.
    pub fn environments(&self) -> (e: &Environment)
        ensures
            e@ == self.scopes(),
            self.wf() ==> e.wf(),
    {
        &self.environments
    }

    /// The number of the current scope.
    pub fn current_scope(&self) -> (n: usize)
        ensures
            n == self.current(),
    {
        self.environment
    }

    /// Records that the variable expression `key` refers to the scope `depth`
    /// steps out from where it is evaluated.
    pub fn resolve(&mut self, key: LocalKey, depth: usize)
        ensures
            final(self).scopes() == old(self).scopes(),
            final(self).current() == old(self).current(),
            final(self).locals() == old(self).locals().push((key@, depth as nat)),
            old(self).wf() ==> final(self).wf(),
    {
        let ghost kv = key@;
        self.locals.push((key, depth));
        assert(self.locals() =~= old(self).locals().push((kv, depth as nat)));
    }

    /// The depth recorded for `key`.
    pub fn local_depth(&self, key: &LocalKey) -> (r: Option<usize>)
        ensures
            match r {
                Some(d) => depth_of(self.locals(), key@) == Some(d as nat),
                None => depth_of(self.locals(), key@) is None,
            },
    {
        let mut i = self.locals.len();
        assert(self.locals().subrange(0, i as int) =~= self.locals());
        while i > 0
            invariant
                i <= self.locals@.len(),
                depth_of(self.locals(), key@) == depth_of(self.locals().subrange(0, i as int), key@),
            decreases i,
        {
            let ghost sub = self.locals().subrange(0, i as int);
            assert(sub.last() == (self.locals@[i - 1].0@, self.locals@[i - 1].1 as nat));
            if self.locals[i - 1].0.same(key) {
                return Some(self.locals[i - 1].1);
            }
            assert(sub.drop_last() =~= self.locals().subrange(0, i - 1));
            i = i - 1;
        }
        None
    }

    /// Makes a new empty scope enclosed by scope `enclosing`, and returns its number.
    pub fn new_scope(&mut self, enclosing: usize) -> (id: usize)
        requires
            old(self).wf(),
            enclosing < old(self).scopes().len(),
            old(self).scopes().len() < usize::MAX,
        ensures
            final(self).wf(),
            id == old(self).scopes().len(),
            final(self).scopes() == old(self).scopes().push(
                ScopeView { enclosing: Some(enclosing as nat), values: Map::empty() },
            ),
            final(self).current() == old(self).current(),
            final(self).locals() == old(self).locals(),
    {
        self.environments.new_scope(enclosing)
    }

    /// Makes scope `scope` the current one, and returns the number of the one before.
    pub fn enter(&mut self, scope: usize) -> (previous: usize)
        requires
            old(self).wf(),
            scope < old(self).scopes().len(),
        ensures
            final(self).wf(),
            previous == old(self).current(),
            final(self).current() == scope,
            final(self).scopes() == old(self).scopes(),
            final(self).locals() == old(self).locals(),
    {
        let previous = self.environment;
        self.environment = scope;
        previous
    }

    /// Binds `name` in the current scope to `value`, or to `nil` where there is none.
    pub fn define(&mut self, name: String, value: Option<Object>)
        requires
            old(self).wf(),
        ensures
            final(self).wf(),
            final(self).scopes() == bound(
                old(self).scopes(),
                old(self).current(),
                name@,
                match value {
                    Some(v) => v@,
                    None => ObjectView::Null,
                },
            ),
            final(self).current() == old(self).current(),
            final(self).locals() == old(self).locals(),
    {
        self.environments.define(self.environment, name, value);
    }

    /// Binds `name` in scope `scope` to `value`.
    pub fn define_in(&mut self, scope: usize, name: String, value: Object)
        requires
            old(self).wf(),
            scope < old(self).scopes().len(),
        ensures
            final(self).wf(),
            final(self).scopes() == bound(old(self).scopes(), scope as nat, name@, value@),
            final(self).current() == old(self).current(),
            final(self).locals() == old(self).locals(),
    {
        self.environments.define(scope, name, Some(value));
    }

    /// The value of the variable expression `key` named `name`: read from the
    /// scope where the resolver placed it, else from the globals.
    pub fn lookup_variable(&self, name: &Token, key: &LocalKey) -> (r: Result<Object, RuntimeError>)
        requires
            self.wf(),
        ensures
            match variable_value(self.scopes(), self.current(), depth_of(self.locals(), key@), name.lexeme@) {
                Some(v) => r matches Ok(o) && o@ == v,
                None => r matches Err(e) && e@ == (RuntimeErrorView::UndefinedVariable {
                    name: name.lexeme@,
                }),
            },
    {
        match self.local_depth(key) {
            Some(d) => self.environments.get_at(self.environment, d, name),
            None => self.environments.get(0, name),
        }
    }

    /// Gives the variable of the assignment `key`, named `name`, the value
    /// `value`: in the scope where the resolver placed it, else in the globals.
    pub fn assign_variable(&mut self, name: &Token, key: &LocalKey, value: Object) -> (r: Result<
        (),
        RuntimeError,
    >)
        requires
            old(self).wf(),
        ensures
            final(self).wf(),
            final(self).current() == old(self).current(),
            final(self).locals() == old(self).locals(),
            match depth_of(old(self).locals(), key@) {
                Some(d) => match ancestor(old(self).scopes(), old(self).current(), d) {
                    Some(a) => r is Ok && final(self).scopes() == bound(
                        old(self).scopes(),
                        a,
                        name.lexeme@,
                        value@,
                    ),
                    None => r is Err && final(self).scopes() == old(self).scopes(),
                },
                None => match holder(old(self).scopes(), 0, name.lexeme@) {
                    Some(k) => r is Ok && final(self).scopes() == bound(
                        old(self).scopes(),
                        k,
                        name.lexeme@,
                        value@,
                    ),
                    None => r is Err && final(self).scopes() == old(self).scopes(),
                },
            },
    {
        let r = match self.local_depth(key) {
            Some(d) => self.environments.assign_at(self.environment, d, name, value),
            None => self.environments.assign(0, name, value),
        };
        r
    }
}

// ---------------------------------------------------------------------------
// Laws
// ---------------------------------------------------------------------------

/// A variable defined in the current scope is read back by an expression that
/// the resolver placed at depth 0.
pub proof fn law_read_local_after_define(scopes: Seq<ScopeView>, current: nat, name: Seq<char>, v: ObjectView)
    requires
        current < scopes.len(),
    ensures
        variable_value(bound(scopes, current, name, v), current, Some(0), name) == Some(v),
{
}

/// A global defined at global level is read back by an expression that the
/// resolver did not place.
pub proof fn law_read_global_after_define(scopes: Seq<ScopeView>, name: Seq<char>, v: ObjectView)
    requires
        scopes.len() > 0,
    ensures
        variable_value(bound(scopes, 0, name, v), 0, None, name) == Some(v),
{
}

/// An assignment placed at depth `d` is read back by a variable expression
/// placed at the same depth from the same scope.
pub proof fn law_read_after_assign_at(scopes: Seq<ScopeView>, current: nat, d: nat, name: Seq<char>, v: ObjectView)
    requires
        chain_ordered(scopes),
        ancestor(scopes, current, d) is Some,
    ensures
        variable_value(bound(scopes, ancestor(scopes, current, d)->0, name, v), current, Some(d), name)
            == Some(v),
{
    let a = ancestor(scopes, current, d)->0;
    lemma_ancestor_bound(scopes, current, d);
    lemma_ancestor_keeps(scopes, a, name, v, current, d);
}

proof fn lemma_ancestor_bound(scopes: Seq<ScopeView>, id: nat, d: nat)
    ensures
        ancestor(scopes, id, d) matches Some(a) ==> a < scopes.len(),
    decreases d,
{
    if id < scopes.len() && d > 0 {
        match scopes[id as int].enclosing {
            Some(p) => lemma_ancestor_bound(scopes, p, (d - 1) as nat),
            None => {},
        }
    }
}

/// Binding a name changes no scope's enclosing scope, so no ancestor.
proof fn lemma_ancestor_keeps(scopes: Seq<ScopeView>, k: nat, name: Seq<char>, v: ObjectView, id: nat, d: nat)
    requires
        k < scopes.len(),
    ensures
        ancestor(bound(scopes, k, name, v), id, d) == ancestor(scopes, id, d),
    decreases d,
{
    let t = bound(scopes, k, name, v);
    if id < scopes.len() && d > 0 {
        assert(t[id as int].enclosing == scopes[id as int].enclosing);
        match scopes[id as int].enclosing {
            Some(p) => lemma_ancestor_keeps(scopes, k, name, v, p, (d - 1) as nat),
            None => {},
        }
    }
}

/// `!=` is the negation of `==` on every pair of values.
pub proof fn law_not_equal_negates_equal(ne: Seq<char>, eq: Seq<char>, l: ObjectView, r: ObjectView)
    ensures
        binary_result(TokenType::BangEqual, ne, l, r) matches Ok(BinaryStepView::Value(ObjectView::Boolean(b)))
            && binary_result(TokenType::EqualEqual, eq, l, r) == Ok::<BinaryStepView, RuntimeErrorView>(
            BinaryStepView::Value(ObjectView::Boolean(!b)),
        ),
{
}

/// `a > b` holds exactly when `b < a` does, and `a >= b` exactly when `b <= a`.
pub proof fn law_comparisons_mirror(t1: Seq<char>, t2: Seq<char>, a: u64, b: u64)
    ensures
        binary_result(TokenType::Greater, t1, ObjectView::Number(a), ObjectView::Number(b)) == binary_result(
            TokenType::Less,
            t2,
            ObjectView::Number(b),
            ObjectView::Number(a),
        ),
        binary_result(TokenType::GreaterEqual, t1, ObjectView::Number(a), ObjectView::Number(b))
            == binary_result(TokenType::LessEqual, t2, ObjectView::Number(b), ObjectView::Number(a)),
{
}

/// `and` stops at its left operand exactly when that operand is `nil` or
/// false, and `or` exactly when it is neither.
pub proof fn law_short_circuit_on_falsey(left: ObjectView)
    ensures
        short_circuits(TokenType::And, left) == (left == ObjectView::Null || left == ObjectView::Boolean(
            false,
        )),
        short_circuits(TokenType::Or, left) == !(left == ObjectView::Null || left
            == ObjectView::Boolean(false)),
{
}

/// `==` on `nil`, booleans and strings is true exactly when the operands are
/// the same value, and `!=` exactly when they are not.
pub proof fn law_equality_operators_on_plain_values(eq: Seq<char>, ne: Seq<char>, l: ObjectView, r: ObjectView)
    requires
        crate::value::is_plain(l),
        crate::value::is_plain(r),
    ensures
        binary_result(TokenType::EqualEqual, eq, l, r) == Ok::<BinaryStepView, RuntimeErrorView>(
            BinaryStepView::Value(ObjectView::Boolean(l == r)),
        ),
        binary_result(TokenType::BangEqual, ne, l, r) == Ok::<BinaryStepView, RuntimeErrorView>(
            BinaryStepView::Value(ObjectView::Boolean(l != r)),
        ),
{
}

/// `!` on a number is true exactly when the number equals `0.0`, and `-`
/// flips its sign: negating twice gives the number back.
pub proof fn law_unary_on_numbers(bang: Seq<char>, minus: Seq<char>, n: u64)
    ensures
        unary_result(TokenType::Bang, bang, ObjectView::Number(n)) == Some(
            Ok::<ObjectView, RuntimeErrorView>(ObjectView::Boolean(crate::value::number_eq(n, 0))),
        ),
        unary_result(TokenType::Minus, minus, ObjectView::Number(n)) matches Some(Ok(ObjectView::Number(m)))
            && unary_result(TokenType::Minus, minus, ObjectView::Number(m)) == Some(
            Ok::<ObjectView, RuntimeErrorView>(ObjectView::Number(n)),
        ),
{
    crate::value::law_zero_is_equal_to_zero(n);
    crate::value::law_negation_involutive(n);
}

} // verus!
