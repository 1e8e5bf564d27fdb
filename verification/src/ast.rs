//! The syntax tree of Lox programs, and its abstract values.
use vstd::prelude::*;
use crate::scanner::tokens_view;
use crate::token::{Token, TokenView};

verus! {

// ---------------------------------------------------------------------------
// Abstract syntax
// ---------------------------------------------------------------------------

/// The abstract value of a literal.
pub enum LiteralView {
    Null,
    String(Seq<char>),
    Number(Seq<char>),
    Boolean(bool),
}

/// The abstract value of an expression.
#[allow(inconsistent_fields)]
pub enum ExprView {
    Assign { name: TokenView, value: Box<ExprView> },
    Binary { left: Box<ExprView>, operator: TokenView, right: Box<ExprView> },
    Call { callee: Box<ExprView>, args: Seq<ExprView> },
    Get { object: Box<ExprView>, name: TokenView },
    Grouping { expression: Box<ExprView> },
    Literal { value: LiteralView },
    Logical { left: Box<ExprView>, operator: TokenView, right: Box<ExprView> },
    SetExpr { object: Box<ExprView>, name: TokenView, value: Box<ExprView> },
    Super { keyword: TokenView, method: TokenView },
    This { keyword: TokenView },
    Unary { operator: TokenView, right: Box<ExprView> },
    Variable { name: TokenView },
}

/// The abstract value of a statement.
#[allow(inconsistent_fields)]
pub enum StmtView {
    Expression { expression: ExprView },
    Print { expression: ExprView },
    Var { name: TokenView, initializer: Option<ExprView> },
    Block { statements: Seq<StmtView> },
    If { condition: ExprView, then_branch: Box<StmtView>, else_branch: Option<Box<StmtView>> },
    While { condition: ExprView, body: Box<StmtView> },
    Function { name: TokenView, params: Seq<TokenView>, body: Seq<StmtView> },
    Return { keyword: TokenView, value: Option<ExprView> },
    Class { name: TokenView, superclass: Option<TokenView>, methods: Seq<StmtView> },
}

// ---------------------------------------------------------------------------
// Expressions
// ---------------------------------------------------------------------------

/// A constant written in the source: `nil`, a string, a number (kept as its
/// digits) or a boolean.
#[derive(Debug, Clone)]
pub enum Literal {
    Null,
    String(String),
    Number(String),
    Boolean(bool),
}

impl View for Literal {
    type V = LiteralView;

    open spec fn view(&self) -> LiteralView {
        match self {
            Literal::Null => LiteralView::Null,
            Literal::String(s) => LiteralView::String(s@),
            Literal::Number(s) => LiteralView::Number(s@),
            Literal::Boolean(b) => LiteralView::Boolean(*b),
        }
    }
}

/// The truth value of a literal: `nil` and `false` are false, all else is true.
pub open spec fn spec_literal_truthy(l: LiteralView) -> bool {
    match l {
        LiteralView::Null => false,
        LiteralView::Boolean(b) => b,
        _ => true,
    }
}

impl Literal {
    /// The text that shows this literal as `print` shows it, for every literal but
    /// a number, whose text is a matter of floating point (`None`).
    pub fn runtime_display(&self) -> (s: Option<String>)
        ensures
            match self@ {
                LiteralView::Null => s matches Some(t) && t@ == "nil"@,
                LiteralView::String(v) => s matches Some(t) && t@ == v,
                LiteralView::Number(_) => s is None,
                LiteralView::Boolean(b) => s matches Some(t) && t@ == (if b {
                    "true"@
                } else {
                    "false"@
                }),
            },
    {
        match self {
            Literal::Null => Some(String::from_str("nil")),
            Literal::String(s) => Some(s.clone()),
            Literal::Number(_) => None,
            Literal::Boolean(b) => if *b {
                Some(String::from_str("true"))
            } else {
                Some(String::from_str("false"))
            },
        }
    }

    /// The truth value of this literal: `nil` and `false` are false, all else is true.
    pub fn is_truthy(&self) -> (b: bool)
        ensures
            b == spec_literal_truthy(self@),
    {
        match self {
            Literal::Null => false,
            Literal::Boolean(b) => *b,
            _ => true,
        }
    }
}

#[derive(Debug)]
pub struct Assign {
    pub name: Token,
    pub value: Box<ExprEnum>,
}

#[derive(Debug)]
pub struct Binary {
    pub left: Box<ExprEnum>,
    pub operator: Token,
    pub right: Box<ExprEnum>,
}

#[derive(Debug)]
pub struct Call {
    pub callee: Box<ExprEnum>,
    pub args: Vec<ExprEnum>,
}

#[derive(Debug)]
pub struct Get {
    pub object: Box<ExprEnum>,
    pub name: Token,
}

#[derive(Debug)]
pub struct Grouping {
    pub expression: Box<ExprEnum>,
}

#[derive(Debug)]
pub struct Logical {
    pub left: Box<ExprEnum>,
    pub operator: Token,
    pub right: Box<ExprEnum>,
}

#[derive(Debug)]
pub struct SetExpr {
    pub object: Box<ExprEnum>,
    pub name: Token,
    pub value: Box<ExprEnum>,
}

#[derive(Debug)]
pub struct Super {
    pub keyword: Token,
    pub method: Token,
}

#[derive(Debug)]
pub struct This {
    pub keyword: Token,
}

#[derive(Debug)]
pub struct Unary {
    pub operator: Token,
    pub right: Box<ExprEnum>,
}

#[derive(Debug)]
pub struct Variable {
    pub name: Token,
}

/// An expression.
#[derive(Debug)]
pub enum ExprEnum {
    Assign(Assign),
    Binary(Binary),
    Call(Call),
    Get(Get),
    Grouping(Grouping),
    Literal(Literal),
    Logical(Logical),
    SetExpr(SetExpr),
    Super(Super),
    This(This),
    Unary(Unary),
    Variable(Variable),
}

impl ExprEnum {
    /// The abstract value of this expression.
    pub open spec fn view(&self) -> ExprView
        decreases self,
    {
        match self {
            ExprEnum::Assign(a) => ExprView::Assign { name: a.name@, value: Box::new(a.value.view()) },
            ExprEnum::Binary(b) => ExprView::Binary {
                left: Box::new(b.left.view()),
                operator: b.operator@,
                right: Box::new(b.right.view()),
            },
            ExprEnum::Call(c) => ExprView::Call {
                callee: Box::new(c.callee.view()),
                args: exprs_view(c.args@),
            },
            ExprEnum::Get(g) => ExprView::Get { object: Box::new(g.object.view()), name: g.name@ },
            ExprEnum::Grouping(g) => ExprView::Grouping { expression: Box::new(g.expression.view()) },
            ExprEnum::Literal(l) => ExprView::Literal { value: l@ },
            ExprEnum::Logical(l) => ExprView::Logical {
                left: Box::new(l.left.view()),
                operator: l.operator@,
                right: Box::new(l.right.view()),
            },
            ExprEnum::SetExpr(s) => ExprView::SetExpr {
                object: Box::new(s.object.view()),
                name: s.name@,
                value: Box::new(s.value.view()),
            },
            ExprEnum::Super(s) => ExprView::Super { keyword: s.keyword@, method: s.method@ },
            ExprEnum::This(t) => ExprView::This { keyword: t.keyword@ },
            ExprEnum::Unary(u) => ExprView::Unary { operator: u.operator@, right: Box::new(u.right.view()) },
            ExprEnum::Variable(v) => ExprView::Variable { name: v.name@ },
        }
    }
}

/// The abstract values of a sequence of expressions.
pub open spec fn exprs_view(s: Seq<ExprEnum>) -> Seq<ExprView>
    decreases s,
{
    if s.len() == 0 {
        Seq::empty()
    } else {
        seq![s[0].view()] + exprs_view(s.subrange(1, s.len() as int))
    }
}

/// `exprs_view` maps each expression to its abstract value.
pub proof fn lemma_exprs_view(s: Seq<ExprEnum>)
    ensures
        exprs_view(s).len() == s.len(),
        forall|i: int| 0 <= i < s.len() ==> #[trigger] exprs_view(s)[i] == s[i].view(),
    decreases s.len(),
{
    if s.len() > 0 {
        lemma_exprs_view(s.subrange(1, s.len() as int));
    }
}

/// Appending an expression appends its abstract value.
pub proof fn lemma_exprs_view_push(s: Seq<ExprEnum>, e: ExprEnum)
    ensures
        exprs_view(s.push(e)) == exprs_view(s).push(e.view()),
        exprs_view(s).len() == s.len(),
{
    lemma_exprs_view(s);
    lemma_exprs_view(s.push(e));
    assert(exprs_view(s.push(e)) =~= exprs_view(s).push(e.view()));
}

// ---------------------------------------------------------------------------
// Statements
// ---------------------------------------------------------------------------

#[derive(Debug)]
pub struct Block {
    pub statements: Vec<StmtEnum>,
}

#[derive(Debug)]
pub struct Class {
    pub name: Token,
    pub superclass: Option<Variable>,
    pub methods: Vec<StmtEnum>,
}

#[derive(Debug)]
pub struct Expression {
    pub expression: Box<ExprEnum>,
}

#[derive(Debug)]
pub struct Fun {
    pub name: Token,
    pub params: Vec<Token>,
    pub body: Vec<StmtEnum>,
}

#[derive(Debug)]
pub struct IfStmt {
    pub condition: ExprEnum,
    pub then_branch: Box<StmtEnum>,
    pub else_branch: Option<Box<StmtEnum>>,
}

#[derive(Debug)]
pub struct Print {
    pub expression: Box<ExprEnum>,
}

#[derive(Debug)]
pub struct ReturnStmt {
    pub keyword: Token,
    pub value: Option<ExprEnum>,
}

#[derive(Debug)]
pub struct Var {
    pub name: Token,
    pub initializer: Option<Box<ExprEnum>>,
}

#[derive(Debug)]
pub struct WhileStmt {
    pub condition: ExprEnum,
    pub body: Box<StmtEnum>,
}

/// A statement.
#[derive(Debug)]
pub enum StmtEnum {
    Expression(Expression),
    Print(Print),
    Var(Var),
    Block(Block),
    IfStmt(IfStmt),
    WhileStmt(WhileStmt),
    Function(Fun),
    ReturnStmt(ReturnStmt),
    Class(Class),
}

impl StmtEnum {
    /// The abstract value of this statement.
    pub open spec fn view(&self) -> StmtView
        decreases self,
    {
        match self {
            StmtEnum::Expression(e) => StmtView::Expression { expression: e.expression.view() },
            StmtEnum::Print(p) => StmtView::Print { expression: p.expression.view() },
            StmtEnum::Var(v) => StmtView::Var {
                name: v.name@,
                initializer: match &v.initializer {
                    Some(e) => Some(e.view()),
                    None => None,
                },
            },
            StmtEnum::Block(b) => StmtView::Block { statements: stmts_view(b.statements@) },
            StmtEnum::IfStmt(i) => StmtView::If {
                condition: i.condition.view(),
                then_branch: Box::new(i.then_branch.view()),
                else_branch: match &i.else_branch {
                    Some(s) => Some(Box::new(s.view())),
                    None => None,
                },
            },
            StmtEnum::WhileStmt(w) => StmtView::While {
                condition: w.condition.view(),
                body: Box::new(w.body.view()),
            },
            StmtEnum::Function(f) => StmtView::Function {
                name: f.name@,
                params: tokens_view(f.params@),
                body: stmts_view(f.body@),
            },
            StmtEnum::ReturnStmt(r) => StmtView::Return {
                keyword: r.keyword@,
                value: match &r.value {
                    Some(e) => Some(e.view()),
                    None => None,
                },
            },
            StmtEnum::Class(c) => StmtView::Class {
                name: c.name@,
                superclass: match &c.superclass {
                    Some(v) => Some(v.name@),
                    None => None,
                },
                methods: stmts_view(c.methods@),
            },
        }
    }
}

/// The abstract values of a sequence of statements.
pub open spec fn stmts_view(s: Seq<StmtEnum>) -> Seq<StmtView>
    decreases s,
{
    if s.len() == 0 {
        Seq::empty()
    } else {
        seq![s[0].view()] + stmts_view(s.subrange(1, s.len() as int))
    }
}

/// `stmts_view` maps each statement to its abstract value.
pub proof fn lemma_stmts_view(s: Seq<StmtEnum>)
    ensures
        stmts_view(s).len() == s.len(),
        forall|i: int| 0 <= i < s.len() ==> #[trigger] stmts_view(s)[i] == s[i].view(),
    decreases s.len(),
{
    if s.len() > 0 {
        lemma_stmts_view(s.subrange(1, s.len() as int));
    }
}

/// Appending a statement appends its abstract value.
pub proof fn lemma_stmts_view_push(s: Seq<StmtEnum>, e: StmtEnum)
    ensures
        stmts_view(s.push(e)) == stmts_view(s).push(e.view()),
        stmts_view(s).len() == s.len(),
{
    lemma_stmts_view(s);
    lemma_stmts_view(s.push(e));
    assert(stmts_view(s.push(e)) =~= stmts_view(s).push(e.view()));
}

// ---------------------------------------------------------------------------
// Constructors
// ---------------------------------------------------------------------------

impl Assign {
    pub fn new(name: Token, value: ExprEnum) -> (a: Assign)
        ensures
            a.name == name,
            *a.value == value,
    {
        Assign { name, value: Box::new(value) }
    }
}

impl Binary {
    pub fn new(left: ExprEnum, operator: Token, right: ExprEnum) -> (b: Binary)
        ensures
            *b.left == left,
            b.operator == operator,
            *b.right == right,
    {
        Binary { left: Box::new(left), operator, right: Box::new(right) }
    }
}

impl Call {
    /// A call of `callee` with `args`; the closing parenthesis is not kept.
    pub fn new(callee: ExprEnum, _paren: Token, args: Vec<ExprEnum>) -> (c: Call)
        ensures
            *c.callee == callee,
            c.args == args,
    {
        Call { callee: Box::new(callee), args }
    }
}

impl Get {
    pub fn new(object: ExprEnum, name: Token) -> (g: Get)
        ensures
            *g.object == object,
            g.name == name,
    {
        Get { object: Box::new(object), name }
    }
}

impl Grouping {
    pub fn new(expr: ExprEnum) -> (g: Grouping)
        ensures
            *g.expression == expr,
    {
        Grouping { expression: Box::new(expr) }
    }
}

impl Logical {
    pub fn new(left: ExprEnum, operator: Token, right: ExprEnum) -> (l: Logical)
        ensures
            *l.left == left,
            l.operator == operator,
            *l.right == right,
    {
        Logical { left: Box::new(left), operator, right: Box::new(right) }
    }
}

impl SetExpr {
    pub fn new(object: ExprEnum, name: Token, value: ExprEnum) -> (s: SetExpr)
        ensures
            *s.object == object,
            s.name == name,
            *s.value == value,
    {
        SetExpr { object: Box::new(object), name, value: Box::new(value) }
    }
}

impl Super {
    pub fn new(keyword: Token, method: Token) -> (s: Super)
        ensures
            s.keyword == keyword,
            s.method == method,
    {
        Super { keyword, method }
    }
}

impl This {
    pub fn new(keyword: Token) -> (t: This)
        ensures
            t.keyword == keyword,
    {
        This { keyword }
    }
}

impl Unary {
    pub fn new(operator: Token, right: ExprEnum) -> (u: Unary)
        ensures
            u.operator == operator,
            *u.right == right,
    {
        Unary { operator, right: Box::new(right) }
    }
}

impl Variable {
    pub fn new(name: Token) -> (v: Variable)
        ensures
            v.name == name,
    {
        Variable { name }
    }
}

impl ExprEnum {
    pub fn new_binary(left: ExprEnum, operator: Token, right: ExprEnum) -> (e: ExprEnum)
        ensures
            e.view() == (ExprView::Binary {
                left: Box::new(left.view()),
                operator: operator@,
                right: Box::new(right.view()),
            }),
    {
        ExprEnum::Binary(Binary::new(left, operator, right))
    }

    pub fn new_grouping(expr: ExprEnum) -> (e: ExprEnum)
        ensures
            e.view() == (ExprView::Grouping { expression: Box::new(expr.view()) }),
    {
        ExprEnum::Grouping(Grouping::new(expr))
    }

    pub fn new_unary(operator: Token, right: ExprEnum) -> (e: ExprEnum)
        ensures
            e.view() == (ExprView::Unary { operator: operator@, right: Box::new(right.view()) }),
    {
        ExprEnum::Unary(Unary::new(operator, right))
    }

    pub fn new_variable(name: Token) -> (e: ExprEnum)
        ensures
            e.view() == (ExprView::Variable { name: name@ }),
    {
        ExprEnum::Variable(Variable::new(name))
    }

    pub fn new_assign(name: Token, value: ExprEnum) -> (e: ExprEnum)
        ensures
            e.view() == (ExprView::Assign { name: name@, value: Box::new(value.view()) }),
    {
        ExprEnum::Assign(Assign::new(name, value))
    }
}

impl Block {
    pub fn new(statements: Vec<StmtEnum>) -> (b: Block)
        ensures
            b.statements == statements,
    {
        Block { statements }
    }
}

impl Class {
    pub fn new(name: Token, methods: Vec<StmtEnum>, superclass: Option<Variable>) -> (c: Class)
        ensures
            c.name == name,
            c.methods == methods,
            c.superclass == superclass,
    {
        Class { name, superclass, methods }
    }
}

impl Expression {
    pub fn new(expression: ExprEnum) -> (e: Expression)
        ensures
            *e.expression == expression,
    {
        Expression { expression: Box::new(expression) }
    }
}

impl Fun {
    pub fn new(name: Token, params: Vec<Token>, body: Vec<StmtEnum>) -> (f: Fun)
        ensures
            f.name == name,
            f.params == params,
            f.body == body,
    {
        Fun { name, params, body }
    }
}

impl IfStmt {
    pub fn new(condition: ExprEnum, then_branch: StmtEnum, else_branch: Option<StmtEnum>) -> (i: IfStmt)
        ensures
            i.condition == condition,
            *i.then_branch == then_branch,
            match else_branch {
                Some(e) => i.else_branch is Some && *i.else_branch->0 == e,
                None => i.else_branch is None,
            },
    {
        let else_branch = match else_branch {
            Some(e) => Some(Box::new(e)),
            None => None,
        };
        IfStmt { condition, then_branch: Box::new(then_branch), else_branch }
    }
}

impl Print {
    pub fn new(expression: ExprEnum) -> (p: Print)
        ensures
            *p.expression == expression,
    {
        Print { expression: Box::new(expression) }
    }
}

impl ReturnStmt {
    pub fn new(keyword: Token, value: Option<ExprEnum>) -> (r: ReturnStmt)
        ensures
            r.keyword == keyword,
            r.value == value,
    {
        ReturnStmt { keyword, value }
    }
}

impl Var {
    pub fn new(name: Token, expression: Option<ExprEnum>) -> (v: Var)
        ensures
            v.name == name,
            match expression {
                Some(e) => v.initializer is Some && *v.initializer->0 == e,
                None => v.initializer is None,
            },
    {
        let initializer = match expression {
            Some(e) => Some(Box::new(e)),
            None => None,
        };
        Var { name, initializer }
    }
}

impl WhileStmt {
    pub fn new(condition: ExprEnum, body: StmtEnum) -> (w: WhileStmt)
        ensures
            w.condition == condition,
            *w.body == body,
    {
        WhileStmt { condition, body: Box::new(body) }
    }
}

impl StmtEnum {
    pub fn new_expression(expr: ExprEnum) -> (s: StmtEnum)
        ensures
            s.view() == (StmtView::Expression { expression: expr.view() }),
    {
        StmtEnum::Expression(Expression::new(expr))
    }

    pub fn new_print(expr: ExprEnum) -> (s: StmtEnum)
        ensures
            s.view() == (StmtView::Print { expression: expr.view() }),
    {
        StmtEnum::Print(Print::new(expr))
    }

    pub fn new_var(name: Token, expr: Option<ExprEnum>) -> (s: StmtEnum)
        ensures
            s.view() == (StmtView::Var {
                name: name@,
                initializer: match expr {
                    Some(e) => Some(e.view()),
                    None => None,
                },
            }),
    {
        StmtEnum::Var(Var::new(name, expr))
    }

    pub fn new_block(statements: Vec<StmtEnum>) -> (s: StmtEnum)
        ensures
            s.view() == (StmtView::Block { statements: stmts_view(statements@) }),
    {
        StmtEnum::Block(Block::new(statements))
    }
}

// ---------------------------------------------------------------------------
// Copies
// ---------------------------------------------------------------------------

impl Literal {
    /// A copy of this literal.
    pub fn copy(&self) -> (l: Literal)
        ensures
            l@ == self@,
    {
        match self {
            Literal::Null => Literal::Null,
            Literal::String(s) => Literal::String(s.clone()),
            Literal::Number(s) => Literal::Number(s.clone()),
            Literal::Boolean(b) => Literal::Boolean(*b),
        }
    }
}

/// Copies of tokens.
pub fn copy_tokens(ts: &Vec<Token>) -> (out: Vec<Token>)
    ensures
        out@ == ts@,
{
    let mut out: Vec<Token> = Vec::new();
    let mut i: usize = 0;
    while i < ts.len()
        invariant
            i <= ts@.len(),
            out@ == ts@.subrange(0, i as int),
        decreases ts@.len() - i,
    {
        out.push(ts[i].copy());
        i = i + 1;
        assert(out@ =~= ts@.subrange(0, i as int));
    }
    assert(ts@.subrange(0, ts@.len() as int) =~= ts@);
    out
}

impl ExprEnum {
    /// A copy of this expression.
    pub fn copy(&self) -> (out: ExprEnum)
        ensures
            out.view() == self.view(),
        decreases self,
    {
        match self {
            ExprEnum::Assign(a) => ExprEnum::Assign(Assign { name: a.name.copy(), value: Box::new(a.value.copy()) }),
            ExprEnum::Binary(b) => ExprEnum::Binary(
                Binary { left: Box::new(b.left.copy()), operator: b.operator.copy(), right: Box::new(b.right.copy()) },
            ),
            ExprEnum::Call(c) => {
                let callee = Box::new(c.callee.copy());
                let mut args: Vec<ExprEnum> = Vec::new();
                let mut i: usize = 0;
                proof {
                    lemma_exprs_view(c.args@);
                    assert(exprs_view(args@) =~= Seq::<ExprView>::empty());
                }
                while i < c.args.len()
                    invariant
                        i <= c.args@.len(),
                        exprs_view(args@) == exprs_view(c.args@).subrange(0, i as int),
                        exprs_view(c.args@).len() == c.args@.len(),
                        forall|k: int| 0 <= k < c.args@.len() ==> #[trigger] exprs_view(c.args@)[k] == c.args@[k].view(),
                        *self == ExprEnum::Call(*c),
                    decreases c.args@.len() - i,
                {
                    proof {
                        assert(decreases_to!(*self => (*self)->Call_0));
                        assert((*self)->Call_0 == *c);
                        assert(decreases_to!(*c => c.args));
                        assert(decreases_to!(c.args => c.args@));
                        assert(decreases_to!(c.args@ => c.args@[i as int]));
                    }
                    let a = c.args[i].copy();
                    proof {
                        lemma_exprs_view_push(args@, a);
                    }
                    args.push(a);
                    i = i + 1;
                    assert(exprs_view(args@) =~= exprs_view(c.args@).subrange(0, i as int));
                }
                assert(exprs_view(c.args@).subrange(0, c.args@.len() as int) =~= exprs_view(c.args@));
                ExprEnum::Call(Call { callee, args })
            },
            ExprEnum::Get(g) => ExprEnum::Get(Get { object: Box::new(g.object.copy()), name: g.name.copy() }),
            ExprEnum::Grouping(g) => ExprEnum::Grouping(Grouping { expression: Box::new(g.expression.copy()) }),
            ExprEnum::Literal(l) => ExprEnum::Literal(l.copy()),
            ExprEnum::Logical(l) => ExprEnum::Logical(
                Logical { left: Box::new(l.left.copy()), operator: l.operator.copy(), right: Box::new(l.right.copy()) },
            ),
            ExprEnum::SetExpr(st) => ExprEnum::SetExpr(
                SetExpr {
                    object: Box::new(st.object.copy()),
                    name: st.name.copy(),
                    value: Box::new(st.value.copy()),
                },
            ),
            ExprEnum::Super(sp) => ExprEnum::Super(
                Super { keyword: sp.keyword.copy(), method: sp.method.copy() },
            ),
            ExprEnum::This(t) => ExprEnum::This(This { keyword: t.keyword.copy() }),
            ExprEnum::Unary(u) => ExprEnum::Unary(Unary { operator: u.operator.copy(), right: Box::new(u.right.copy()) }),
            ExprEnum::Variable(v) => ExprEnum::Variable(Variable { name: v.name.copy() }),
        }
    }
}

fn copy_opt_expr(e: &Option<ExprEnum>) -> (out: Option<ExprEnum>)
    ensures
        match (out, e) {
            (Some(a), Some(b)) => a.view() == b.view(),
            (None, None) => true,
            _ => false,
        },
{
    match e {
        Some(x) => Some(x.copy()),
        None => None,
    }
}

/// Copies of statements.
pub fn copy_stmts(ss: &Vec<StmtEnum>) -> (out: Vec<StmtEnum>)
    ensures
        stmts_view(out@) == stmts_view(ss@),
    decreases ss,
{
    let mut out: Vec<StmtEnum> = Vec::new();
    let mut i: usize = 0;
    proof {
        lemma_stmts_view(ss@);
        assert(stmts_view(out@) =~= Seq::<StmtView>::empty());
    }
    while i < ss.len()
        invariant
            i <= ss@.len(),
            stmts_view(out@) == stmts_view(ss@).subrange(0, i as int),
            stmts_view(ss@).len() == ss@.len(),
            forall|k: int| 0 <= k < ss@.len() ==> #[trigger] stmts_view(ss@)[k] == ss@[k].view(),
        decreases ss@.len() - i,
    {
        proof {
            assert(decreases_to!(*ss => ss@));
            assert(decreases_to!(ss@ => ss@[i as int]));
        }
        let s = ss[i].copy();
        proof {
            lemma_stmts_view_push(out@, s);
        }
        out.push(s);
        i = i + 1;
        assert(stmts_view(out@) =~= stmts_view(ss@).subrange(0, i as int));
    }
    assert(stmts_view(ss@).subrange(0, ss@.len() as int) =~= stmts_view(ss@));
    out
}

impl Fun {
    /// A copy of this function declaration.
    pub fn copy(&self) -> (f: Fun)
        ensures
            f.name == self.name,
            f.params@ == self.params@,
            stmts_view(f.body@) == stmts_view(self.body@),
        decreases self,
    {
        proof {
            assert(decreases_to!(*self => self.body));
        }
        Fun { name: self.name.copy(), params: copy_tokens(&self.params), body: copy_stmts(&self.body) }
    }
}

impl StmtEnum {
    /// A copy of this statement.
    pub fn copy(&self) -> (out: StmtEnum)
        ensures
            out.view() == self.view(),
        decreases self,
    {
        match self {
            StmtEnum::Expression(x) => StmtEnum::Expression(Expression { expression: Box::new(x.expression.copy()) }),
            StmtEnum::Print(p) => StmtEnum::Print(Print { expression: Box::new(p.expression.copy()) }),
            StmtEnum::Var(v) => {
                let initializer = match &v.initializer {
                    Some(e) => Some(Box::new(e.copy())),
                    None => None,
                };
                StmtEnum::Var(Var { name: v.name.copy(), initializer })
            },
            StmtEnum::Block(b) => {
                proof {
                    assert(decreases_to!(*self => (*self)->Block_0));
                    assert((*self)->Block_0 == *b);
                    assert(decreases_to!(*b => b.statements));
                }
                StmtEnum::Block(Block { statements: copy_stmts(&b.statements) })
            },
            StmtEnum::IfStmt(i) => {
                proof {
                    assert(decreases_to!(*self => (*self)->IfStmt_0));
                    assert((*self)->IfStmt_0 == *i);
                    assert(decreases_to!(*i => i.then_branch));
                }
                let then_branch = Box::new(i.then_branch.copy());
                let else_branch = match &i.else_branch {
                    Some(e) => {
                        proof {
                            assert(decreases_to!(*i => i.else_branch));
                            assert(decreases_to!(i.else_branch => i.else_branch->0));
                        }
                        Some(Box::new((**e).copy()))
                    },
                    None => None,
                };
                StmtEnum::IfStmt(IfStmt { condition: i.condition.copy(), then_branch, else_branch })
            },
            StmtEnum::WhileStmt(w) => {
                proof {
                    assert(decreases_to!(*self => (*self)->WhileStmt_0));
                    assert((*self)->WhileStmt_0 == *w);
                    assert(decreases_to!(*w => w.body));
                }
                StmtEnum::WhileStmt(WhileStmt { condition: w.condition.copy(), body: Box::new(w.body.copy()) })
            },
            StmtEnum::Function(f) => {
                proof {
                    assert(decreases_to!(*self => (*self)->Function_0));
                    assert((*self)->Function_0 == *f);
                }
                StmtEnum::Function(f.copy())
            },
            StmtEnum::ReturnStmt(r) => StmtEnum::ReturnStmt(
                ReturnStmt { keyword: r.keyword.copy(), value: copy_opt_expr(&r.value) },
            ),
            StmtEnum::Class(c) => {
                let superclass = match &c.superclass {
                    Some(v) => Some(Variable { name: v.name.copy() }),
                    None => None,
                };
                proof {
                    assert(decreases_to!(*self => (*self)->Class_0));
                    assert((*self)->Class_0 == *c);
                    assert(decreases_to!(*c => c.methods));
                }
                StmtEnum::Class(Class { name: c.name.copy(), superclass, methods: copy_stmts(&c.methods) })
            },
        }
    }
}

// ---------------------------------------------------------------------------
// Equality
// ---------------------------------------------------------------------------

impl Literal {
    /// Whether this literal is `other`.
    pub fn same(&self, other: &Literal) -> (b: bool)
        ensures
            b == (self@ == other@),
    {
        match (self, other) {
            (Literal::Null, Literal::Null) => true,
            (Literal::String(a), Literal::String(b)) => *a == *b,
            (Literal::Number(a), Literal::Number(b)) => *a == *b,
            (Literal::Boolean(a), Literal::Boolean(b)) => *a == *b,
            _ => false,
        }
    }
}

impl ExprEnum {
    /// Whether this expression is `other`, node for node.
    pub fn same_as(&self, other: &ExprEnum) -> (b: bool)
        ensures
            b == (self.view() == other.view()),
        decreases self,
    {
        match (self, other) {
            (ExprEnum::Assign(a), ExprEnum::Assign(b)) => a.name.same(&b.name) && a.value.same_as(&b.value),
            (ExprEnum::Binary(a), ExprEnum::Binary(b)) => a.operator.same(&b.operator) && a.left.same_as(
                &b.left,
            ) && a.right.same_as(&b.right),
            (ExprEnum::Call(a), ExprEnum::Call(b)) => {
                if !a.callee.same_as(&b.callee) {
                    return false;
                }
                proof {
                    lemma_exprs_view(a.args@);
                    lemma_exprs_view(b.args@);
                }
                if a.args.len() != b.args.len() {
                    assert(exprs_view(a.args@).len() != exprs_view(b.args@).len());
                    return false;
                }
                let mut i: usize = 0;
                while i < a.args.len()
                    invariant
                        i <= a.args@.len(),
                        a.args@.len() == b.args@.len(),
                        exprs_view(a.args@).len() == a.args@.len(),
                        exprs_view(b.args@).len() == b.args@.len(),
                        forall|k: int| 0 <= k < a.args@.len() ==> #[trigger] exprs_view(a.args@)[k] == a.args@[k].view(),
                        forall|k: int| 0 <= k < b.args@.len() ==> #[trigger] exprs_view(b.args@)[k] == b.args@[k].view(),
                        forall|k: int| 0 <= k < i ==> a.args@[k].view() == b.args@[k].view(),
                        *self == ExprEnum::Call(*a),
                        *other == ExprEnum::Call(*b),
                        a.callee.view() == b.callee.view(),
                    decreases a.args@.len() - i,
                {
                    proof {
                        assert(decreases_to!(*self => (*self)->Call_0));
                        assert((*self)->Call_0 == *a);
                        assert(decreases_to!(*a => a.args));
                        assert(decreases_to!(a.args => a.args@));
                        assert(decreases_to!(a.args@ => a.args@[i as int]));
                    }
                    if !a.args[i].same_as(&b.args[i]) {
                        assert(exprs_view(a.args@)[i as int] != exprs_view(b.args@)[i as int]);
                        return false;
                    }
                    i = i + 1;
                }
                assert(exprs_view(a.args@) =~= exprs_view(b.args@));
                true
            },
            (ExprEnum::Get(a), ExprEnum::Get(b)) => a.name.same(&b.name) && a.object.same_as(&b.object),
            (ExprEnum::Grouping(a), ExprEnum::Grouping(b)) => a.expression.same_as(&b.expression),
            (ExprEnum::Literal(a), ExprEnum::Literal(b)) => a.same(b),
            (ExprEnum::Logical(a), ExprEnum::Logical(b)) => a.operator.same(&b.operator) && a.left.same_as(
                &b.left,
            ) && a.right.same_as(&b.right),
            (ExprEnum::SetExpr(a), ExprEnum::SetExpr(b)) => a.name.same(&b.name) && a.object.same_as(
                &b.object,
            ) && a.value.same_as(&b.value),
            (ExprEnum::Super(a), ExprEnum::Super(b)) => a.keyword.same(&b.keyword) && a.method.same(&b.method),
            (ExprEnum::This(a), ExprEnum::This(b)) => a.keyword.same(&b.keyword),
            (ExprEnum::Unary(a), ExprEnum::Unary(b)) => a.operator.same(&b.operator) && a.right.same_as(&b.right),
            (ExprEnum::Variable(a), ExprEnum::Variable(b)) => a.name.same(&b.name),
            _ => false,
        }
    }
}

} // verus!
