//! The grammar of Lox, as the result of parsing a sequence of tokens from a
//! position: what is built, and where parsing goes on or which error stops it.
//!
//! ```text
//! program        → declaration* EOF ;
//! declaration    → funDecl | varDecl | statement ;
//! funDecl        → "fun" IDENTIFIER "(" parameters? ")" block ;
//! parameters     → IDENTIFIER ( "," IDENTIFIER )* ;
//! statement      → exprStmt | forStmt | ifStmt | printStmt | returnStmt | whileStmt | block ;
//! returnStmt     → "return" expression? ";" ;
//! forStmt        → "for" "(" ( varDecl | exprStmt | ";" ) expression? ";" expression? ")" statement ;
//! whileStmt      → "while" "(" expression ")" statement ;
//! ifStmt         → "if" "(" expression ")" statement ( "else" statement )? ;
//! block          → "{" declaration* "}" ;
//! exprStmt       → expression ";" ;
//! printStmt      → "print" expression ";" ;
//! expression     → assignment ;
//! assignment     → IDENTIFIER "=" assignment | logic_or ;
//! logic_or       → logic_and ( "or" logic_and )* ;
//! logic_and      → equality ( "and" equality )* ;
//! equality       → comparison ( ( "!=" | "==" ) comparison )* ;
//! comparison     → term ( ( ">" | ">=" | "<" | "<=" ) term )* ;
//! term           → factor ( ( "-" | "+" ) factor )* ;
//! factor         → unary ( ( "/" | "*" ) unary )* ;
//! unary          → ( "!" | "-" ) unary | call ;
//! call           → primary ( "(" arguments? ")" )* ;
//! arguments      → expression ( "," expression )* ;
//! primary        → NUMBER | STRING | "true" | "false" | "nil" | IDENTIFIER | "(" expression ")" ;
//! ```
use vstd::prelude::*;
use crate::ast::{ExprView, LiteralView, StmtView};
use crate::error::ParseErrorView;
use crate::token::{TokenType, TokenView};

verus! {

/// The outcome of parsing from a position: a value and the position after it,
/// or an error and the position parsing had reached.
pub enum Parsed<T> {
    Done { value: T, next: int },
    Fail { error: ParseErrorView, at: int },
}

/// Parsing has reached the end: past the last token, or at an end-of-file token.
pub open spec fn at_end(toks: Seq<TokenView>, p: int) -> bool {
    !(0 <= p < toks.len()) || toks[p].token_type == TokenType::Eof
}

/// The token at `p` has type `t` and parsing is not at the end.
pub open spec fn check(toks: Seq<TokenView>, p: int, t: TokenType) -> bool {
    !at_end(toks, p) && toks[p].token_type == t
}

/// The token at `p` has one of the types `ts` and parsing is not at the end.
pub open spec fn check_any(toks: Seq<TokenView>, p: int, ts: Seq<TokenType>) -> bool {
    !at_end(toks, p) && ts.contains(toks[p].token_type)
}

/// The token at `p`, or an empty end-of-file token past the end.
pub open spec fn tok_at(toks: Seq<TokenView>, p: int) -> TokenView {
    if 0 <= p < toks.len() {
        toks[p]
    } else {
        TokenView { token_type: TokenType::Eof, lexeme: Seq::empty(), literal: None, line: 0 }
    }
}

/// The error of a missing token at `p`, with the message `expected`.
pub open spec fn expected_token(toks: Seq<TokenView>, p: int, expected: Seq<char>) -> ParseErrorView {
    ParseErrorView::ExpectedToken {
        line: tok_at(toks, p).line,
        expected,
        found: tok_at(toks, p).lexeme,
    }
}

/// The value of an outcome that no parse reaches (a position that went back or past the end).
pub open spec fn stray<T>(p: int) -> Parsed<T> {
    Parsed::Fail { error: ParseErrorView::InvalidAssignment { line: 0 }, at: p }
}

/// Whether a result position `q` is one that parsing from `lo` may reach.
pub open spec fn in_range(toks: Seq<TokenView>, lo: int, q: int) -> bool {
    lo <= q < toks.len()
}

/// The operators of a binary level: 0 factor, 1 term, 2 comparison, 3 equality, 4 and, 5 or.
pub open spec fn level_ops(level: nat) -> Seq<TokenType> {
    if level == 0 {
        seq![TokenType::Slash, TokenType::Star]
    } else if level == 1 {
        seq![TokenType::Minus, TokenType::Plus]
    } else if level == 2 {
        seq![TokenType::Greater, TokenType::GreaterEqual, TokenType::Less, TokenType::LessEqual]
    } else if level == 3 {
        seq![TokenType::EqualEqual, TokenType::BangEqual]
    } else if level == 4 {
        seq![TokenType::And]
    } else {
        seq![TokenType::Or]
    }
}

/// The node that joins two operands at a binary level: logical for `and` and `or`.
pub open spec fn level_node(level: nat, left: ExprView, operator: TokenView, right: ExprView) -> ExprView {
    if level >= 4 {
        ExprView::Logical { left: Box::new(left), operator, right: Box::new(right) }
    } else {
        ExprView::Binary { left: Box::new(left), operator, right: Box::new(right) }
    }
}

/// The literal of a number or string token.
pub open spec fn token_literal(t: TokenView) -> LiteralView {
    match t.literal {
        Some(l) => if t.token_type == TokenType::Number {
            LiteralView::Number(l)
        } else {
            LiteralView::String(l)
        },
        None => LiteralView::Null,
    }
}

/// The keyword types at which recovery after an error stops.
pub open spec fn is_sync_keyword(t: TokenType) -> bool {
    t == TokenType::Var || t == TokenType::Fun || t == TokenType::Print || t == TokenType::Class
        || t == TokenType::For || t == TokenType::If || t == TokenType::While || t
        == TokenType::Return
}

/// Recovery after an error, from `q` on: the first position at the end, after a
/// `;`, or at a keyword that starts a statement.
pub open spec fn sync_from(toks: Seq<TokenView>, q: int) -> int
    decreases toks.len() - q,
{
    if at_end(toks, q) || q < 1 {
        q
    } else if toks[q - 1].token_type == TokenType::Semicolon {
        q
    } else if is_sync_keyword(toks[q].token_type) {
        q
    } else {
        sync_from(toks, q + 1)
    }
}

/// The parameters of a function, from `p`, after those already read.
pub open spec fn fun_params(toks: Seq<TokenView>, params: Seq<TokenView>, p: int) -> Parsed<
    Seq<TokenView>,
>
    decreases toks.len() - p,
{
    if params.len() >= 255 {
        Parsed::Fail {
            error: ParseErrorView::FunctionArgsLimitExceeded { line: tok_at(toks, p).line },
            at: p,
        }
    } else if !check(toks, p, TokenType::Identifier) {
        Parsed::Fail { error: expected_token(toks, p, "Expect parameter name."@), at: p }
    } else {
        let params2 = params.push(toks[p]);
        if check(toks, p + 1, TokenType::Comma) {
            fun_params(toks, params2, p + 2)
        } else {
            Parsed::Done { value: params2, next: p + 1 }
        }
    }
}

/// The closing `)` of a call with its arguments read.
pub open spec fn finish_close(toks: Seq<TokenView>, callee: ExprView, args: Seq<ExprView>, p: int) -> Parsed<ExprView> {
    if check(toks, p, TokenType::RightParen) {
        Parsed::Done { value: ExprView::Call { callee: Box::new(callee), args }, next: p + 1 }
    } else {
        Parsed::Fail { error: expected_token(toks, p, "Expect ')' after arguments."@), at: p }
    }
}

/// The `;` that ends a variable declaration.
pub open spec fn var_end(toks: Seq<TokenView>, name: TokenView, init: Option<ExprView>, p: int) -> Parsed<StmtView> {
    if check(toks, p, TokenType::Semicolon) {
        Parsed::Done { value: StmtView::Var { name, initializer: init }, next: p + 1 }
    } else {
        Parsed::Fail {
            error: expected_token(toks, p, "Expect ';' after variable declaration."@),
            at: p,
        }
    }
}

/// An expression followed by a `;` with the message `msg`, made into a statement by `make`.
pub open spec fn semicolon_after(toks: Seq<TokenView>, r: Parsed<ExprView>, lo: int, msg: Seq<char>, print: bool) -> Parsed<StmtView> {
    match r {
        Parsed::Done { value, next } => if !in_range(toks, lo, next) {
            stray(next)
        } else if check(toks, next, TokenType::Semicolon) {
            Parsed::Done {
                value: if print {
                    StmtView::Print { expression: value }
                } else {
                    StmtView::Expression { expression: value }
                },
                next: next + 1,
            }
        } else {
            Parsed::Fail { error: expected_token(toks, next, msg), at: next }
        },
        Parsed::Fail { error, at } => Parsed::Fail { error, at },
    }
}

/// The statement that a `for` loop stands for.
pub open spec fn desugar_for(init: Option<StmtView>, cond: ExprView, inc: Option<ExprView>, body: StmtView) -> StmtView {
    let b1 = match inc {
        Some(i) => StmtView::Block { statements: seq![body, StmtView::Expression { expression: i }] },
        None => body,
    };
    let w = StmtView::While { condition: cond, body: Box::new(b1) };
    match init {
        Some(s) => StmtView::Block { statements: seq![s, w] },
        None => w,
    }
}

// ---------------------------------------------------------------------------
// Expressions and statements, parsed from position `p`.
// ---------------------------------------------------------------------------

pub open spec fn primary(toks: Seq<TokenView>, p: int) -> Parsed<ExprView>
    decreases toks.len() - p, 1int,
{
    if !(0 <= p < toks.len()) {
        stray(p)
    } else {
        let t = toks[p];
        if t.token_type == TokenType::True {
            Parsed::Done { value: ExprView::Literal { value: LiteralView::Boolean(true) }, next: p + 1 }
        } else if t.token_type == TokenType::False {
            Parsed::Done { value: ExprView::Literal { value: LiteralView::Boolean(false) }, next: p + 1 }
        } else if t.token_type == TokenType::Nil {
            Parsed::Done { value: ExprView::Literal { value: LiteralView::Null }, next: p + 1 }
        } else if t.token_type == TokenType::Number || t.token_type == TokenType::String {
            Parsed::Done { value: ExprView::Literal { value: token_literal(t) }, next: p + 1 }
        } else if t.token_type == TokenType::Identifier {
            Parsed::Done { value: ExprView::Variable { name: t }, next: p + 1 }
        } else if t.token_type == TokenType::LeftParen {
            match expression(toks, p + 1) {
                Parsed::Done { value, next } => if !in_range(toks, p + 1, next) {
                    stray(next)
                } else if check(toks, next, TokenType::RightParen) {
                    Parsed::Done {
                        value: ExprView::Grouping { expression: Box::new(value) },
                        next: next + 1,
                    }
                } else {
                    Parsed::Fail {
                        error: expected_token(toks, next, "Expected ')' after expression"@),
                        at: next,
                    }
                },
                Parsed::Fail { error, at } => Parsed::Fail { error, at },
            }
        } else {
            Parsed::Fail {
                error: ParseErrorView::ExpectedExpression { line: t.line, got: t.lexeme },
                at: p + 1,
            }
        }
    }
}

pub open spec fn call_rest(toks: Seq<TokenView>, callee: ExprView, p: int) -> Parsed<ExprView>
    decreases toks.len() - p, 2int,
{
    if check(toks, p, TokenType::LeftParen) {
        match finish_call(toks, callee, p + 1) {
            Parsed::Done { value, next } => if !in_range(toks, p + 1, next) {
                stray(next)
            } else {
                call_rest(toks, value, next)
            },
            Parsed::Fail { error, at } => Parsed::Fail { error, at },
        }
    } else {
        Parsed::Done { value: callee, next: p }
    }
}

pub open spec fn call(toks: Seq<TokenView>, p: int) -> Parsed<ExprView>
    decreases toks.len() - p, 3int,
{
    match primary(toks, p) {
        Parsed::Done { value, next } => if !in_range(toks, p, next) {
            stray(next)
        } else {
            call_rest(toks, value, next)
        },
        Parsed::Fail { error, at } => Parsed::Fail { error, at },
    }
}

pub open spec fn unary(toks: Seq<TokenView>, p: int) -> Parsed<ExprView>
    decreases toks.len() - p, 4int,
{
    if check(toks, p, TokenType::Bang) || check(toks, p, TokenType::Minus) {
        match unary(toks, p + 1) {
            Parsed::Done { value, next } => Parsed::Done {
                value: ExprView::Unary { operator: toks[p], right: Box::new(value) },
                next,
            },
            Parsed::Fail { error, at } => Parsed::Fail { error, at },
        }
    } else {
        call(toks, p)
    }
}

/// An operand of a binary level: a unary expression for level 0, else the level below.
pub open spec fn operand(toks: Seq<TokenView>, level: nat, p: int) -> Parsed<ExprView>
    decreases toks.len() - p, 5 + 2 * level,
{
    if level == 0 {
        unary(toks, p)
    } else {
        binary(toks, (level - 1) as nat, p)
    }
}

pub open spec fn binary_rest(toks: Seq<TokenView>, level: nat, left: ExprView, p: int) -> Parsed<ExprView>
    decreases toks.len() - p, 5 + 2 * level,
{
    if check_any(toks, p, level_ops(level)) {
        match operand(toks, level, p + 1) {
            Parsed::Done { value, next } => if !in_range(toks, p + 1, next) {
                stray(next)
            } else {
                binary_rest(toks, level, level_node(level, left, toks[p], value), next)
            },
            Parsed::Fail { error, at } => Parsed::Fail { error, at },
        }
    } else {
        Parsed::Done { value: left, next: p }
    }
}

pub open spec fn binary(toks: Seq<TokenView>, level: nat, p: int) -> Parsed<ExprView>
    decreases toks.len() - p, 6 + 2 * level,
{
    match operand(toks, level, p) {
        Parsed::Done { value, next } => if !in_range(toks, p, next) {
            stray(next)
        } else {
            binary_rest(toks, level, value, next)
        },
        Parsed::Fail { error, at } => Parsed::Fail { error, at },
    }
}

pub open spec fn assignment(toks: Seq<TokenView>, p: int) -> Parsed<ExprView>
    decreases toks.len() - p, 17int,
{
    match binary(toks, 5, p) {
        Parsed::Done { value, next } => if !in_range(toks, p, next) {
            stray(next)
        } else if check(toks, next, TokenType::Equal) {
            match assignment(toks, next + 1) {
                Parsed::Done { value: v, next: n2 } => match value {
                    ExprView::Variable { name } => Parsed::Done {
                        value: ExprView::Assign { name, value: Box::new(v) },
                        next: n2,
                    },
                    _ => Parsed::Fail {
                        error: ParseErrorView::InvalidAssignment { line: toks[next].line },
                        at: n2,
                    },
                },
                Parsed::Fail { error, at } => Parsed::Fail { error, at },
            }
        } else {
            Parsed::Done { value, next }
        },
        Parsed::Fail { error, at } => Parsed::Fail { error, at },
    }
}

pub open spec fn expression(toks: Seq<TokenView>, p: int) -> Parsed<ExprView>
    decreases toks.len() - p, 18int,
{
    assignment(toks, p)
}

pub open spec fn arguments(toks: Seq<TokenView>, args: Seq<ExprView>, p: int) -> Parsed<Seq<ExprView>>
    decreases toks.len() - p, 19int,
{
    if args.len() >= 255 {
        Parsed::Fail {
            error: ParseErrorView::FunctionArgsLimitExceeded { line: tok_at(toks, p).line },
            at: p,
        }
    } else {
        match expression(toks, p) {
            Parsed::Done { value, next } => if !in_range(toks, p, next) {
                stray(next)
            } else if check(toks, next, TokenType::Comma) {
                arguments(toks, args.push(value), next + 1)
            } else {
                Parsed::Done { value: args.push(value), next }
            },
            Parsed::Fail { error, at } => Parsed::Fail { error, at },
        }
    }
}

pub open spec fn finish_call(toks: Seq<TokenView>, callee: ExprView, p: int) -> Parsed<ExprView>
    decreases toks.len() - p, 20int,
{
    if !check(toks, p, TokenType::RightParen) {
        match arguments(toks, Seq::empty(), p) {
            Parsed::Done { value, next } => if !in_range(toks, p, next) {
                stray(next)
            } else {
                finish_close(toks, callee, value, next)
            },
            Parsed::Fail { error, at } => Parsed::Fail { error, at },
        }
    } else {
        finish_close(toks, callee, Seq::empty(), p)
    }
}

pub open spec fn expression_statement(toks: Seq<TokenView>, p: int) -> Parsed<StmtView>
    decreases toks.len() - p, 21int,
{
    semicolon_after(toks, expression(toks, p), p, "Expect ';' after value."@, false)
}

pub open spec fn print_statement(toks: Seq<TokenView>, p: int) -> Parsed<StmtView>
    decreases toks.len() - p, 21int,
{
    semicolon_after(toks, expression(toks, p), p, "Expect ';' after value."@, true)
}

pub open spec fn return_statement(toks: Seq<TokenView>, keyword: TokenView, p: int) -> Parsed<StmtView>
    decreases toks.len() - p, 21int,
{
    if !check(toks, p, TokenType::Semicolon) {
        match expression(toks, p) {
            Parsed::Done { value, next } => if !in_range(toks, p, next) {
                stray(next)
            } else if check(toks, next, TokenType::Semicolon) {
                Parsed::Done { value: StmtView::Return { keyword, value: Some(value) }, next: next + 1 }
            } else {
                Parsed::Fail {
                    error: expected_token(toks, next, "Expect ';' after return value."@),
                    at: next,
                }
            },
            Parsed::Fail { error, at } => Parsed::Fail { error, at },
        }
    } else {
        Parsed::Done { value: StmtView::Return { keyword, value: None }, next: p + 1 }
    }
}

pub open spec fn var_declaration(toks: Seq<TokenView>, p: int) -> Parsed<StmtView>
    decreases toks.len() - p, 24int,
{
    if !check(toks, p, TokenType::Identifier) {
        Parsed::Fail { error: expected_token(toks, p, "Expected variable name."@), at: p }
    } else if check(toks, p + 1, TokenType::Equal) {
        match expression(toks, p + 2) {
            Parsed::Done { value, next } => if !in_range(toks, p + 2, next) {
                stray(next)
            } else {
                var_end(toks, toks[p], Some(value), next)
            },
            Parsed::Fail { error, at } => Parsed::Fail { error, at },
        }
    } else {
        var_end(toks, toks[p], None, p + 1)
    }
}

/// The body of a `for` loop, with its clauses read.
pub open spec fn for_body(toks: Seq<TokenView>, init: Option<StmtView>, cond: ExprView, inc: Option<ExprView>, p: int) -> Parsed<StmtView>
    decreases toks.len() - p, 24int,
{
    if !check(toks, p, TokenType::RightParen) {
        Parsed::Fail { error: expected_token(toks, p, "Expect ')' after for clauses."@), at: p }
    } else {
        match statement(toks, p + 1) {
            Parsed::Done { value, next } => Parsed::Done { value: desugar_for(init, cond, inc, value), next },
            Parsed::Fail { error, at } => Parsed::Fail { error, at },
        }
    }
}

/// The increment of a `for` loop, with its initializer and condition read.
pub open spec fn for_increment(toks: Seq<TokenView>, init: Option<StmtView>, cond: ExprView, p: int) -> Parsed<StmtView>
    decreases toks.len() - p, 25int,
{
    if !check(toks, p, TokenType::RightParen) {
        match expression(toks, p) {
            Parsed::Done { value, next } => if !in_range(toks, p, next) {
                stray(next)
            } else {
                for_body(toks, init, cond, Some(value), next)
            },
            Parsed::Fail { error, at } => Parsed::Fail { error, at },
        }
    } else {
        for_body(toks, init, cond, None, p)
    }
}

/// The `;` after the condition of a `for` loop.
pub open spec fn for_after_condition(toks: Seq<TokenView>, init: Option<StmtView>, cond: ExprView, p: int) -> Parsed<StmtView>
    decreases toks.len() - p, 25int,
{
    if check(toks, p, TokenType::Semicolon) {
        for_increment(toks, init, cond, p + 1)
    } else {
        Parsed::Fail { error: expected_token(toks, p, "Expect ';' after loop condition."@), at: p }
    }
}

/// The condition of a `for` loop, with its initializer read.
pub open spec fn for_condition(toks: Seq<TokenView>, init: Option<StmtView>, p: int) -> Parsed<StmtView>
    decreases toks.len() - p, 26int,
{
    if !check(toks, p, TokenType::Semicolon) {
        match expression(toks, p) {
            Parsed::Done { value, next } => if !in_range(toks, p, next) {
                stray(next)
            } else {
                for_after_condition(toks, init, value, next)
            },
            Parsed::Fail { error, at } => Parsed::Fail { error, at },
        }
    } else {
        for_after_condition(toks, init, ExprView::Literal { value: LiteralView::Boolean(true) }, p)
    }
}

pub open spec fn for_statement(toks: Seq<TokenView>, p: int) -> Parsed<StmtView>
    decreases toks.len() - p, 24int,
{
    if !check(toks, p, TokenType::LeftParen) {
        Parsed::Fail { error: expected_token(toks, p, "Expect '(' after 'for'."@), at: p }
    } else if check(toks, p + 1, TokenType::Semicolon) {
        for_condition(toks, None, p + 2)
    } else if check(toks, p + 1, TokenType::Var) {
        match var_declaration(toks, p + 2) {
            Parsed::Done { value, next } => if !in_range(toks, p + 2, next) {
                stray(next)
            } else {
                for_condition(toks, Some(value), next)
            },
            Parsed::Fail { error, at } => Parsed::Fail { error, at },
        }
    } else {
        match expression_statement(toks, p + 1) {
            Parsed::Done { value, next } => if !in_range(toks, p + 1, next) {
                stray(next)
            } else {
                for_condition(toks, Some(value), next)
            },
            Parsed::Fail { error, at } => Parsed::Fail { error, at },
        }
    }
}

pub open spec fn while_statement(toks: Seq<TokenView>, p: int) -> Parsed<StmtView>
    decreases toks.len() - p, 24int,
{
    if !check(toks, p, TokenType::LeftParen) {
        Parsed::Fail { error: expected_token(toks, p, "Expect '(' after 'while'."@), at: p }
    } else {
        match expression(toks, p + 1) {
            Parsed::Done { value, next } => if !in_range(toks, p + 1, next) {
                stray(next)
            } else if !check(toks, next, TokenType::RightParen) {
                Parsed::Fail {
                    error: expected_token(toks, next, "Expect ')' after while condition."@),
                    at: next,
                }
            } else {
                match statement(toks, next + 1) {
                    Parsed::Done { value: body, next: n2 } => Parsed::Done {
                        value: StmtView::While { condition: value, body: Box::new(body) },
                        next: n2,
                    },
                    Parsed::Fail { error, at } => Parsed::Fail { error, at },
                }
            },
            Parsed::Fail { error, at } => Parsed::Fail { error, at },
        }
    }
}

/// The optional `else` branch of an `if`, with its condition and then-branch read.
pub open spec fn if_else(toks: Seq<TokenView>, cond: ExprView, then_branch: StmtView, p: int) -> Parsed<StmtView>
    decreases toks.len() - p, 24int,
{
    if check(toks, p, TokenType::Else) {
        match statement(toks, p + 1) {
            Parsed::Done { value, next } => Parsed::Done {
                value: StmtView::If {
                    condition: cond,
                    then_branch: Box::new(then_branch),
                    else_branch: Some(Box::new(value)),
                },
                next,
            },
            Parsed::Fail { error, at } => Parsed::Fail { error, at },
        }
    } else {
        Parsed::Done {
            value: StmtView::If { condition: cond, then_branch: Box::new(then_branch), else_branch: None },
            next: p,
        }
    }
}

pub open spec fn if_statement(toks: Seq<TokenView>, p: int) -> Parsed<StmtView>
    decreases toks.len() - p, 24int,
{
    if !check(toks, p, TokenType::LeftParen) {
        Parsed::Fail { error: expected_token(toks, p, "Expect '(' after 'if'."@), at: p }
    } else {
        match expression(toks, p + 1) {
            Parsed::Done { value, next } => if !in_range(toks, p + 1, next) {
                stray(next)
            } else if !check(toks, next, TokenType::RightParen) {
                Parsed::Fail {
                    error: expected_token(toks, next, "Expect ')' after if condition."@),
                    at: next,
                }
            } else {
                match statement(toks, next + 1) {
                    Parsed::Done { value: t, next: n2 } => if !in_range(toks, next + 1, n2) {
                        stray(n2)
                    } else {
                        if_else(toks, value, t, n2)
                    },
                    Parsed::Fail { error, at } => Parsed::Fail { error, at },
                }
            },
            Parsed::Fail { error, at } => Parsed::Fail { error, at },
        }
    }
}

pub open spec fn block_items(toks: Seq<TokenView>, stmts: Seq<StmtView>, p: int) -> Parsed<Seq<StmtView>>
    decreases toks.len() - p, 28int,
{
    if !check(toks, p, TokenType::RightBrace) && !at_end(toks, p) {
        match declaration(toks, p) {
            Parsed::Done { value, next } => if !(p < next < toks.len()) {
                stray(next)
            } else {
                block_items(toks, stmts.push(value), next)
            },
            Parsed::Fail { error, at } => Parsed::Fail { error, at },
        }
    } else if check(toks, p, TokenType::RightBrace) {
        Parsed::Done { value: stmts, next: p + 1 }
    } else {
        Parsed::Fail { error: expected_token(toks, p, "Expect '}' after block."@), at: p }
    }
}

pub open spec fn block(toks: Seq<TokenView>, p: int) -> Parsed<Seq<StmtView>>
    decreases toks.len() - p, 29int,
{
    block_items(toks, Seq::empty(), p)
}

/// A function declaration, after `fun`.
pub open spec fn fun_declaration(toks: Seq<TokenView>, p: int) -> Parsed<StmtView>
    decreases toks.len() - p, 24int,
{
    if !check(toks, p, TokenType::Identifier) {
        Parsed::Fail { error: expected_token(toks, p, "Expect function name."@), at: p }
    } else if !check(toks, p + 1, TokenType::LeftParen) {
        Parsed::Fail { error: expected_token(toks, p + 1, "Expect '(' after function name."@), at: p + 1 }
    } else {
        let params = if !check(toks, p + 2, TokenType::RightParen) {
            fun_params(toks, Seq::empty(), p + 2)
        } else {
            Parsed::Done { value: Seq::empty(), next: p + 2 }
        };
        match params {
            Parsed::Done { value: ps, next } => if !in_range(toks, p + 2, next) {
                stray(next)
            } else if !check(toks, next, TokenType::RightParen) {
                Parsed::Fail { error: expected_token(toks, next, "Expect ')' after parameters."@), at: next }
            } else if !check(toks, next + 1, TokenType::LeftBrace) {
                Parsed::Fail {
                    error: expected_token(toks, next + 1, "Expect '{' after function body."@),
                    at: next + 1,
                }
            } else {
                match block(toks, next + 2) {
                    Parsed::Done { value: body, next: n2 } => Parsed::Done {
                        value: StmtView::Function { name: toks[p], params: ps, body },
                        next: n2,
                    },
                    Parsed::Fail { error, at } => Parsed::Fail { error, at },
                }
            },
            Parsed::Fail { error, at } => Parsed::Fail { error, at },
        }
    }
}

pub open spec fn statement(toks: Seq<TokenView>, p: int) -> Parsed<StmtView>
    decreases toks.len() - p, 23int,
{
    if check(toks, p, TokenType::For) {
        for_statement(toks, p + 1)
    } else if check(toks, p, TokenType::If) {
        if_statement(toks, p + 1)
    } else if check(toks, p, TokenType::Return) {
        return_statement(toks, toks[p], p + 1)
    } else if check(toks, p, TokenType::Print) {
        print_statement(toks, p + 1)
    } else if check(toks, p, TokenType::While) {
        while_statement(toks, p + 1)
    } else if check(toks, p, TokenType::LeftBrace) {
        match block(toks, p + 1) {
            Parsed::Done { value, next } => Parsed::Done { value: StmtView::Block { statements: value }, next },
            Parsed::Fail { error, at } => Parsed::Fail { error, at },
        }
    } else {
        expression_statement(toks, p)
    }
}

pub open spec fn declaration(toks: Seq<TokenView>, p: int) -> Parsed<StmtView>
    decreases toks.len() - p, 27int,
{
    if check(toks, p, TokenType::Fun) {
        fun_declaration(toks, p + 1)
    } else if check(toks, p, TokenType::Var) {
        var_declaration(toks, p + 1)
    } else {
        statement(toks, p)
    }
}

/// The outcome of parsing a program: the statements read, the errors reported
/// (each followed by recovery), and whether recovery ran past the last token.
pub struct ProgramOut {
    pub statements: Seq<StmtView>,
    pub errors: Seq<ParseErrorView>,
    pub out_of_tokens: bool,
}

/// Parsing declarations from `p` to the end, after those read and the errors reported so far.
pub open spec fn program_from(toks: Seq<TokenView>, p: int, stmts: Seq<StmtView>, errors: Seq<ParseErrorView>) -> ProgramOut
    decreases toks.len() - p,
{
    if at_end(toks, p) || p < 0 {
        ProgramOut { statements: stmts, errors, out_of_tokens: false }
    } else {
        match declaration(toks, p) {
            Parsed::Done { value, next } => if !(p < next < toks.len()) {
                ProgramOut { statements: stmts, errors, out_of_tokens: false }
            } else {
                program_from(toks, next, stmts.push(value), errors)
            },
            Parsed::Fail { error, at } => if !(p <= at) {
                ProgramOut { statements: stmts, errors, out_of_tokens: false }
            } else if at >= toks.len() {
                ProgramOut { statements: stmts, errors: errors.push(error), out_of_tokens: true }
            } else {
                let q = sync_from(toks, at + 1);
                if !(p < q <= toks.len()) {
                    ProgramOut { statements: stmts, errors, out_of_tokens: false }
                } else {
                    program_from(toks, q, stmts, errors.push(error))
                }
            },
        }
    }
}

/// The outcome of parsing a whole program.
pub open spec fn spec_program(toks: Seq<TokenView>) -> ProgramOut {
    program_from(toks, 0, Seq::empty(), Seq::empty())
}

/// Tokens as the scanner yields them: at least one, the last an end-of-file token.
pub open spec fn well_ended(toks: Seq<TokenView>) -> bool {
    toks.len() > 0 && toks.last().token_type == TokenType::Eof
}

// ---------------------------------------------------------------------------
// Laws
// ---------------------------------------------------------------------------

/// The value of a literal keyword token: `true`, `false` or `nil`.
pub open spec fn keyword_value(t: TokenType) -> LiteralView {
    if t == TokenType::Nil {
        LiteralView::Null
    } else {
        LiteralView::Boolean(t == TokenType::True)
    }
}

/// A token that ends an expression: `;`, `)` or the end of the file.
pub open spec fn ends_expression(t: TokenType) -> bool {
    t == TokenType::Semicolon || t == TokenType::RightParen || t == TokenType::Eof
}

proof fn lemma_closer_is_no_operator(level: nat, t: TokenType)
    requires
        ends_expression(t),
    ensures
        !level_ops(level).contains(t),
{
    let ops = level_ops(level);
    assert forall|i: int| 0 <= i < ops.len() implies ops[i] != t by {}
}

proof fn lemma_keyword_at_level(toks: Seq<TokenView>, level: nat, p: int)
    requires
        0 <= p,
        p + 1 < toks.len(),
        toks[p].token_type == TokenType::True || toks[p].token_type == TokenType::False
            || toks[p].token_type == TokenType::Nil,
        ends_expression(toks[p + 1].token_type),
    ensures
        binary(toks, level, p) == (Parsed::Done {
            value: ExprView::Literal { value: keyword_value(toks[p].token_type) },
            next: p + 1,
        }),
    decreases level,
{
    let lit = ExprView::Literal { value: keyword_value(toks[p].token_type) };
    assert(primary(toks, p) == (Parsed::Done { value: lit, next: p + 1 }));
    assert(call_rest(toks, lit, p + 1) == (Parsed::Done { value: lit, next: p + 1 }));
    assert(call(toks, p) == (Parsed::Done { value: lit, next: p + 1 }));
    assert(unary(toks, p) == (Parsed::Done { value: lit, next: p + 1 }));
    if level > 0 {
        lemma_keyword_at_level(toks, (level - 1) as nat, p);
    }
    assert(operand(toks, level, p) == (Parsed::Done { value: lit, next: p + 1 }));
    lemma_closer_is_no_operator(level, toks[p + 1].token_type);
    assert(binary_rest(toks, level, lit, p + 1) == (Parsed::Done { value: lit, next: p + 1 }));
}

/// A `true`, `false` or `nil` token before the end of an expression parses to
/// the literal that the keyword names: `true` to true, `false` to false, `nil`
/// to nil, consuming that one token.
pub proof fn law_keyword_literal(toks: Seq<TokenView>, p: int)
    requires
        0 <= p,
        p + 1 < toks.len(),
        toks[p].token_type == TokenType::True || toks[p].token_type == TokenType::False
            || toks[p].token_type == TokenType::Nil,
        ends_expression(toks[p + 1].token_type),
    ensures
        expression(toks, p) == (Parsed::Done {
            value: ExprView::Literal { value: keyword_value(toks[p].token_type) },
            next: p + 1,
        }),
        toks[p].token_type == TokenType::False ==> expression(toks, p) == (Parsed::Done {
            value: ExprView::Literal { value: LiteralView::Boolean(false) },
            next: p + 1,
        }),
        toks[p].token_type == TokenType::True ==> expression(toks, p) == (Parsed::Done {
            value: ExprView::Literal { value: LiteralView::Boolean(true) },
            next: p + 1,
        }),
{
    lemma_keyword_at_level(toks, 5, p);
    assert(!check(toks, p + 1, TokenType::Equal));
}

} // verus!
