//! The parser: builds the syntax tree of a sequence of tokens, as the grammar says.
use vstd::prelude::*;
use crate::ast::{
    exprs_view, lemma_exprs_view_push, lemma_stmts_view_push, stmts_view, Assign, Binary, Block,
    Call, ExprEnum, ExprView, Expression, Fun, Grouping, IfStmt, Literal, Logical, Print,
    ReturnStmt, StmtEnum, StmtView, Unary, Var, Variable, WhileStmt,
};
use crate::error::{ParseError, ParseErrorView};
use crate::grammar::{
    arguments, assignment, at_end, binary, binary_rest, block, block_items, call, call_rest,
    check, check_any, declaration, desugar_for, expected_token, expression, expression_statement,
    finish_call, for_after_condition, for_body, for_condition, for_increment, for_statement,
    fun_declaration, fun_params, if_statement, level_node, level_ops, operand, primary,
    print_statement, program_from, return_statement, semicolon_after, statement, sync_from,
    token_literal, unary, var_declaration, well_ended, while_statement, Parsed,
};
use crate::scanner::tokens_view;
use crate::token::{Token, TokenType, TokenView};

verus! {

/// An expression parse ended as the grammar says: with this value at this position, or with this error.
pub open spec fn expr_outcome(r: Result<ExprEnum, ParseError>, cur: int, s: Parsed<ExprView>) -> bool {
    match (r, s) {
        (Ok(e), Parsed::Done { value, next }) => e.view() == value && cur == next,
        (Err(e), Parsed::Fail { error, at }) => e@ == error && cur == at,
        _ => false,
    }
}

/// A statement parse ended as the grammar says.
pub open spec fn stmt_outcome(r: Result<StmtEnum, ParseError>, cur: int, s: Parsed<StmtView>) -> bool {
    match (r, s) {
        (Ok(e), Parsed::Done { value, next }) => e.view() == value && cur == next,
        (Err(e), Parsed::Fail { error, at }) => e@ == error && cur == at,
        _ => false,
    }
}

/// A block parse ended as the grammar says.
pub open spec fn stmts_outcome(r: Result<Vec<StmtEnum>, ParseError>, cur: int, s: Parsed<Seq<StmtView>>) -> bool {
    match (r, s) {
        (Ok(e), Parsed::Done { value, next }) => stmts_view(e@) == value && cur == next,
        (Err(e), Parsed::Fail { error, at }) => e@ == error && cur == at,
        _ => false,
    }
}

/// The abstract value of an optional statement.
pub open spec fn opt_stmt_view(s: Option<StmtEnum>) -> Option<StmtView> {
    match s {
        Some(s) => Some(s.view()),
        None => None,
    }
}

/// The abstract value of an optional expression.
pub open spec fn opt_expr_view(e: Option<ExprEnum>) -> Option<ExprView> {
    match e {
        Some(e) => Some(e.view()),
        None => None,
    }
}

/// The abstract values of a sequence of parse errors.
pub open spec fn parse_errors_view(es: Seq<ParseError>) -> Seq<ParseErrorView> {
    es.map_values(|e: ParseError| e@)
}

/// How parsing a whole program ended: with its statements or its last error, or
/// with error recovery running past the last token (where the parser stops short).
pub enum ParseRun {
    Finished(Result<Vec<StmtEnum>, ParseError>),
    OutOfTokens,
}

impl ParseError {
    /// A copy of this error.
    pub fn copy(&self) -> (e: ParseError)
        ensures
            e@ == self@,
    {
        match self {
            ParseError::ExpectedExpression { line, got } => ParseError::ExpectedExpression {
                line: *line,
                got: got.clone(),
            },
            ParseError::ExpectedToken { line, expected, found } => ParseError::ExpectedToken {
                line: *line,
                expected: expected.clone(),
                found: found.clone(),
            },
            ParseError::InvalidAssignment { line } => ParseError::InvalidAssignment { line: *line },
            ParseError::FunctionArgsLimitExceeded { line } => ParseError::FunctionArgsLimitExceeded {
                line: *line,
            },
        }
    }
}

/// Whether a two-element sequence holds `t`.
proof fn lemma_contains_two(a: TokenType, b: TokenType, t: TokenType)
    ensures
        seq![a, b].contains(t) <==> (t == a || t == b),
{
    if t == a {
        assert(seq![a, b][0] == t);
    }
    if t == b {
        assert(seq![a, b][1] == t);
    }
}

/// A parser over a sequence of tokens.
pub struct Parser<'a> {
    tokens: &'a [Token],
    current: usize,
    errors: Vec<ParseError>,
}

impl<'a> Parser<'a> {
    /// The abstract values of the tokens.
    pub closed spec fn toks(&self) -> Seq<TokenView> {
        tokens_view(self.tokens@)
    }

    /// The position the parser has reached.
    pub closed spec fn pos(&self) -> int {
        self.current as int
    }

    /// The errors reported so far, in order.
    pub closed spec fn reported(&self) -> Seq<ParseErrorView> {
        parse_errors_view(self.errors@)
    }

    /// The tokens, unless there are none, end with an end-of-file token, and the
    /// position is inside them.
    pub closed spec fn wf(&self) -> bool {
        &&& (well_ended(self.toks()) || self.tokens@.len() == 0)
        &&& self.tokens@.len() < usize::MAX
        &&& self.current <= self.tokens@.len()
    }

    /// The state after a parse step from `old`: the same tokens and errors, a
    /// position that did not go back, inside the tokens when the step succeeded,
    /// past its start when `strict` and the step succeeded.
    pub closed spec fn stepped(self, old: Self, ok: bool, strict: bool) -> bool {
        &&& self.wf()
        &&& self.tokens@ == old.tokens@
        &&& self.errors@ == old.errors@
        &&& old.current <= self.current
        &&& (ok ==> self.current < self.tokens@.len())
        &&& (ok && strict ==> old.current < self.current)
    }

    /// A parser at the start of `tokens`. Parsing asks that the tokens end with
    /// an end-of-file token or be none (the parser is then well formed); the
    /// scanner's tokens always do (`law_scanned_tokens_are_well_ended`).
    pub fn new(tokens: &'a [Token]) -> (p: Parser<'a>)
        requires
            tokens@.len() < usize::MAX,
        ensures
            p.wf() == (well_ended(tokens_view(tokens@)) || tokens@.len() == 0),
            p.toks() == tokens_view(tokens@),
            p.pos() == 0,
            p.reported() == Seq::<ParseErrorView>::empty(),
    {
        let p = Parser { tokens, current: 0, errors: Vec::new() };
        assert(parse_errors_view(p.errors@) =~= Seq::<ParseErrorView>::empty());
        p
    }

    /// The errors reported so far, in order.
    pub fn errors(&self) -> (es: &Vec<ParseError>)
        ensures
            parse_errors_view(es@) == self.reported(),
    {
        &self.errors
    }

    // -----------------------------------------------------------------------
    // Looking at tokens
    // -----------------------------------------------------------------------

    fn is_at_end(&self) -> (b: bool)
        ensures
            b == at_end(self.toks(), self.current as int),
    {
        self.current >= self.tokens.len() || self.tokens[self.current].token_type == TokenType::Eof
    }

    fn check(&self, token_type: TokenType) -> (b: bool)
        ensures
            b == check(self.toks(), self.current as int, token_type),
    {
        !self.is_at_end() && self.tokens[self.current].token_type == token_type
    }

    fn peek(&self) -> (t: &'a Token)
        requires
            self.current < self.tokens@.len(),
        ensures
            t@ == self.toks()[self.current as int],
    {
        let tokens = self.tokens;
        &tokens[self.current]
    }

    fn previous(&self) -> (t: &'a Token)
        requires
            0 < self.current <= self.tokens@.len(),
        ensures
            t@ == self.toks()[self.current - 1],
    {
        let tokens = self.tokens;
        &tokens[self.current - 1]
    }

    fn advance(&mut self)
        requires
            old(self).current < old(self).tokens@.len(),
        ensures
            final(self).current == old(self).current + 1,
            final(self).tokens == old(self).tokens,
            final(self).errors == old(self).errors,
    {
        let _n = self.tokens.len();
        self.current = self.current + 1;
    }

    fn matches(&mut self, types: &[TokenType]) -> (b: bool)
        ensures
            b == check_any(old(self).toks(), old(self).current as int, types@),
            final(self).current == if b {
                old(self).current + 1
            } else {
                old(self).current as int
            },
            final(self).tokens == old(self).tokens,
            final(self).errors == old(self).errors,
    {
        let mut i: usize = 0;
        while i < types.len()
            invariant
                self.current == old(self).current,
                self.tokens == old(self).tokens,
                self.errors == old(self).errors,
                i <= types@.len(),
                forall|k: int|
                    0 <= k < i ==> !check(self.toks(), self.current as int, #[trigger] types@[k]),
            decreases types@.len() - i,
        {
            if self.check(types[i]) {
                assert(types@[i as int] == self.toks()[self.current as int].token_type);
                self.advance();
                return true;
            }
            i = i + 1;
        }
        proof {
            if check_any(self.toks(), self.current as int, types@) {
                let k = choose|k: int|
                    0 <= k < types@.len() && types@[k] == self.toks()[self.current as int].token_type;
                assert(check(self.toks(), self.current as int, types@[k]));
            }
        }
        false
    }


    fn match_one(&mut self, token_type: TokenType) -> (b: bool)
        ensures
            b == check(old(self).toks(), old(self).current as int, token_type),
            final(self).current == if b {
                old(self).current + 1
            } else {
                old(self).current as int
            },
            final(self).tokens == old(self).tokens,
            final(self).errors == old(self).errors,
    {
        let b = self.matches(&[token_type]);
        proof {
            if !at_end(old(self).toks(), old(self).current as int) {
                let t = old(self).toks()[old(self).current as int].token_type;
                if t == token_type {
                    assert(seq![token_type][0] == t);
                }
            }
        }
        b
    }

    fn consume(&mut self, token_type: TokenType, expected: &str) -> (r: Result<Token, ParseError>)
        requires
            old(self).current < old(self).tokens@.len(),
        ensures
            final(self).tokens == old(self).tokens,
            final(self).errors == old(self).errors,
            match r {
                Ok(t) => {
                    &&& check(old(self).toks(), old(self).current as int, token_type)
                    &&& t@ == old(self).toks()[old(self).current as int]
                    &&& final(self).current == old(self).current + 1
                },
                Err(e) => {
                    &&& !check(old(self).toks(), old(self).current as int, token_type)
                    &&& e@ == expected_token(old(self).toks(), old(self).current as int, expected@)
                    &&& final(self).current == old(self).current
                },
            },
    {
        if self.check(token_type) {
            let t = self.peek().copy();
            self.advance();
            Ok(t)
        } else {
            let t = self.peek();
            Err(
                ParseError::ExpectedToken {
                    line: t.line,
                    expected: String::from_str(expected),
                    found: t.lexeme.clone(),
                },
            )
        }
    }

    fn synchronize(&mut self)
        requires
            old(self).wf(),
            old(self).current < old(self).tokens@.len(),
        ensures
            final(self).wf(),
            final(self).tokens == old(self).tokens,
            final(self).errors == old(self).errors,
            final(self).current == sync_from(old(self).toks(), old(self).current + 1),
    {
        let ghost target = sync_from(self.toks(), self.current + 1);
        self.advance();
        while !self.is_at_end()
            invariant
                self.wf(),
                self.tokens == old(self).tokens,
                self.errors == old(self).errors,
                1 <= self.current <= self.tokens@.len(),
                sync_from(self.toks(), self.current as int) == target,
                target == sync_from(old(self).toks(), old(self).current + 1),
            decreases self.tokens@.len() - self.current,
        {
            if self.previous().token_type == TokenType::Semicolon {
                assert(sync_from(self.toks(), self.current as int) == self.current);
                return ;
            }
            match self.peek().token_type {
                TokenType::Var | TokenType::Fun | TokenType::Print | TokenType::Class
                | TokenType::For | TokenType::If | TokenType::While | TokenType::Return => {
                    assert(sync_from(self.toks(), self.current as int) == self.current);
                    return ;
                },
                _ => {},
            }
            self.advance();
        }
    }
    // -----------------------------------------------------------------------
    // Expressions
    // -----------------------------------------------------------------------

    /// Parses an expression from the current position.
    pub fn parse_expression(&mut self) -> (r: Result<ExprEnum, ParseError>)
        requires
            old(self).wf(),
            old(self).pos() < old(self).toks().len(),
        ensures
            final(self).wf(),
            final(self).toks() == old(self).toks(),
            final(self).reported() == old(self).reported(),
            expr_outcome(r, final(self).pos(), expression(old(self).toks(), old(self).pos())),
    {
        self.expression()
    }

    fn expression(&mut self) -> (r: Result<ExprEnum, ParseError>)
        requires
            old(self).wf(),
            old(self).current < old(self).tokens@.len(),
        ensures
            final(self).stepped(*old(self), r is Ok, true),
            expr_outcome(r, final(self).current as int, expression(old(self).toks(), old(self).current as int)),
        decreases old(self).tokens@.len() - old(self).current, 18int,
    {
        self.assignment()
    }

    fn assignment(&mut self) -> (r: Result<ExprEnum, ParseError>)
        requires
            old(self).wf(),
            old(self).current < old(self).tokens@.len(),
        ensures
            final(self).stepped(*old(self), r is Ok, true),
            expr_outcome(r, final(self).current as int, assignment(old(self).toks(), old(self).current as int)),
        decreases old(self).tokens@.len() - old(self).current, 17int,
    {
        let expr = self.binary(5)?;
        if self.matches(&[TokenType::Equal]) {
            let equals_line = self.previous().line;
            let value = self.assignment()?;
            match expr {
                ExprEnum::Variable(var) => {
                    return Ok(ExprEnum::Assign(Assign::new(var.name, value)));
                },
                _ => {
                    return Err(ParseError::InvalidAssignment { line: equals_line });
                },
            }
        }
        Ok(expr)
    }

    fn match_level(&mut self, level: usize) -> (b: bool)
        requires
            level <= 5,
        ensures
            b == check_any(old(self).toks(), old(self).current as int, level_ops(level as nat)),
            final(self).current == if b {
                old(self).current + 1
            } else {
                old(self).current as int
            },
            final(self).tokens == old(self).tokens,
            final(self).errors == old(self).errors,
    {
        if level == 0 {
            self.matches(&[TokenType::Slash, TokenType::Star])
        } else if level == 1 {
            self.matches(&[TokenType::Minus, TokenType::Plus])
        } else if level == 2 {
            self.matches(
                &[TokenType::Greater, TokenType::GreaterEqual, TokenType::Less, TokenType::LessEqual],
            )
        } else if level == 3 {
            self.matches(&[TokenType::EqualEqual, TokenType::BangEqual])
        } else if level == 4 {
            self.matches(&[TokenType::And])
        } else {
            self.matches(&[TokenType::Or])
        }
    }

    fn operand(&mut self, level: usize) -> (r: Result<ExprEnum, ParseError>)
        requires
            old(self).wf(),
            old(self).current < old(self).tokens@.len(),
            level <= 5,
        ensures
            final(self).stepped(*old(self), r is Ok, true),
            expr_outcome(r, final(self).current as int, operand(old(self).toks(), level as nat, old(self).current as int)),
        decreases old(self).tokens@.len() - old(self).current, 5 + 2 * level,
    {
        if level == 0 {
            self.unary()
        } else {
            self.binary(level - 1)
        }
    }

    /// A binary level: 0 factor, 1 term, 2 comparison, 3 equality, 4 and, 5 or.
    fn binary(&mut self, level: usize) -> (r: Result<ExprEnum, ParseError>)
        requires
            old(self).wf(),
            old(self).current < old(self).tokens@.len(),
            level <= 5,
        ensures
            final(self).stepped(*old(self), r is Ok, true),
            expr_outcome(r, final(self).current as int, binary(old(self).toks(), level as nat, old(self).current as int)),
        decreases old(self).tokens@.len() - old(self).current, 6 + 2 * level,
    {
        let ghost toks = self.toks();
        let ghost p0 = self.current as int;
        let mut expr = self.operand(level)?;
        let ghost target = binary(toks, level as nat, p0);
        assert(target == binary_rest(toks, level as nat, expr.view(), self.current as int));
        loop
            invariant
                self.stepped(*old(self), true, true),
                toks == self.toks(),
                p0 == old(self).current,
                level <= 5,
                target == binary(toks, level as nat, p0),
                target == binary_rest(toks, level as nat, expr.view(), self.current as int),
            ensures
                self.stepped(*old(self), true, true),
                target == (Parsed::Done { value: expr.view(), next: self.current as int }),
            decreases self.tokens@.len() - self.current,
        {
            let ghost before = self.current as int;
            let ghost left = expr.view();
            if !self.match_level(level) {
                break;
            }
            let operator = self.previous().copy();
            let right = self.operand(level)?;
            let ghost rv = right.view();
            if level >= 4 {
                expr = ExprEnum::Logical(Logical::new(expr, operator, right));
            } else {
                expr = ExprEnum::Binary(Binary::new(expr, operator, right));
            }
            assert(expr.view() == level_node(level as nat, left, toks[before], rv));
        }
        Ok(expr)
    }

    fn unary(&mut self) -> (r: Result<ExprEnum, ParseError>)
        requires
            old(self).wf(),
            old(self).current < old(self).tokens@.len(),
        ensures
            final(self).stepped(*old(self), r is Ok, true),
            expr_outcome(r, final(self).current as int, unary(old(self).toks(), old(self).current as int)),
        decreases old(self).tokens@.len() - old(self).current, 4int,
    {
        proof {
            if !at_end(self.toks(), self.current as int) {
                lemma_contains_two(TokenType::Bang, TokenType::Minus, self.toks()[self.current as int].token_type);
            }
        }
        if self.matches(&[TokenType::Bang, TokenType::Minus]) {
            let operator = self.previous().copy();
            let right = self.unary()?;
            return Ok(ExprEnum::Unary(Unary::new(operator, right)));
        }
        self.call()
    }

    fn call(&mut self) -> (r: Result<ExprEnum, ParseError>)
        requires
            old(self).wf(),
            old(self).current < old(self).tokens@.len(),
        ensures
            final(self).stepped(*old(self), r is Ok, true),
            expr_outcome(r, final(self).current as int, call(old(self).toks(), old(self).current as int)),
        decreases old(self).tokens@.len() - old(self).current, 3int,
    {
        let ghost toks = self.toks();
        let ghost p0 = self.current as int;
        let mut expr = self.primary()?;
        let ghost target = call(toks, p0);
        loop
            invariant
                self.stepped(*old(self), true, true),
                toks == self.toks(),
                p0 == old(self).current,
                target == call(toks, p0),
                target == call_rest(toks, expr.view(), self.current as int),
            ensures
                self.stepped(*old(self), true, true),
                target == (Parsed::Done { value: expr.view(), next: self.current as int }),
            decreases self.tokens@.len() - self.current,
        {
            if !self.matches(&[TokenType::LeftParen]) {
                proof {
                    if check(toks, self.current as int, TokenType::LeftParen) {
                        assert(seq![TokenType::LeftParen][0] == TokenType::LeftParen);
                    }
                }
                break;
            }
            proof {
                assert(seq![TokenType::LeftParen].contains(toks[self.current - 1].token_type) ==> toks[self.current - 1].token_type == TokenType::LeftParen);
            }
            expr = self.finish_call(expr)?;
        }
        Ok(expr)
    }

    fn finish_call(&mut self, callee: ExprEnum) -> (r: Result<ExprEnum, ParseError>)
        requires
            old(self).wf(),
            old(self).current < old(self).tokens@.len(),
        ensures
            final(self).stepped(*old(self), r is Ok, true),
            expr_outcome(r, final(self).current as int, finish_call(old(self).toks(), callee.view(), old(self).current as int)),
        decreases old(self).tokens@.len() - old(self).current, 20int,
    {
        let ghost toks = self.toks();
        let ghost p0 = self.current as int;
        let mut args: Vec<ExprEnum> = Vec::new();
        if !self.check(TokenType::RightParen) {
            let ghost target = arguments(toks, Seq::empty(), p0);
            assert(exprs_view(args@) =~= Seq::<ExprView>::empty());
            loop
                invariant_except_break
                    target == arguments(toks, exprs_view(args@), self.current as int),
                    args@.len() < 256,
                invariant
                    self.stepped(*old(self), true, false),
                    toks == self.toks(),
                    p0 == old(self).current,
                    target == arguments(toks, Seq::empty(), p0),
                    !check(toks, p0, TokenType::RightParen),
                ensures
                    self.stepped(*old(self), true, false),
                    target == (Parsed::Done { value: exprs_view(args@), next: self.current as int }),
                decreases self.tokens@.len() - self.current,
            {
                proof {
                    crate::ast::lemma_exprs_view(args@);
                }
                if args.len() >= 255 {
                    return Err(ParseError::FunctionArgsLimitExceeded { line: self.peek().line });
                }
                let arg = self.expression()?;
                proof {
                    lemma_exprs_view_push(args@, arg);
                }
                args.push(arg);
                if !self.matches(&[TokenType::Comma]) {
                    proof {
                        if check(toks, self.current as int, TokenType::Comma) {
                            assert(seq![TokenType::Comma][0] == TokenType::Comma);
                        }
                    }
                    break;
                }
                proof {
                    assert(seq![TokenType::Comma].contains(toks[self.current - 1].token_type) ==> toks[self.current - 1].token_type == TokenType::Comma);
                }
            }
        }
        let paren = self.consume(TokenType::RightParen, "Expect ')' after arguments.")?;
        Ok(ExprEnum::Call(Call::new(callee, paren, args)))
    }

    fn primary(&mut self) -> (r: Result<ExprEnum, ParseError>)
        requires
            old(self).wf(),
            old(self).current < old(self).tokens@.len(),
        ensures
            final(self).stepped(*old(self), r is Ok, true),
            expr_outcome(r, final(self).current as int, primary(old(self).toks(), old(self).current as int)),
        decreases old(self).tokens@.len() - old(self).current, 1int,
    {
        let token = self.peek();
        self.advance();
        match token.token_type {
            TokenType::True => Ok(ExprEnum::Literal(Literal::Boolean(true))),
            TokenType::False => Ok(ExprEnum::Literal(Literal::Boolean(false))),
            TokenType::Nil => Ok(ExprEnum::Literal(Literal::Null)),
            TokenType::Number | TokenType::String => Ok(ExprEnum::Literal(literal_of(token))),
            TokenType::Identifier => Ok(ExprEnum::Variable(Variable::new(token.copy()))),
            TokenType::LeftParen => {
                let expr = self.expression()?;
                self.consume(TokenType::RightParen, "Expected ')' after expression")?;
                Ok(ExprEnum::Grouping(Grouping::new(expr)))
            },
            _ => Err(ParseError::ExpectedExpression { line: token.line, got: token.lexeme.clone() }),
        }
    }

    // -----------------------------------------------------------------------
    // Programs
    // -----------------------------------------------------------------------

    /// Parses declarations up to the end of the tokens. An error is reported
    /// (kept in `errors`) and parsing recovers at the next statement; the result
    /// holds the statements, or the last error when there was one, and the parser
    /// then stands at the end of the tokens. Where an error leaves no token to
    /// recover from, parsing stops with `OutOfTokens`.
    pub fn parse_program(&mut self) -> (r: ParseRun)
        requires
            old(self).wf(),
        ensures
            final(self).wf(),
            final(self).toks() == old(self).toks(),
            ({
                let out = program_from(old(self).toks(), old(self).pos(), Seq::empty(), Seq::empty());
                &&& final(self).reported() == old(self).reported() + out.errors
                &&& (r is Finished ==> at_end(final(self).toks(), final(self).pos()))
                &&& match r {
                    ParseRun::OutOfTokens => out.out_of_tokens,
                    ParseRun::Finished(res) => !out.out_of_tokens && match res {
                        Ok(stmts) => out.errors.len() == 0 && stmts_view(stmts@) == out.statements,
                        Err(e) => out.errors.len() > 0 && e@ == out.errors.last(),
                    },
                }
            }),
    {
        let ghost toks = self.toks();
        let ghost e0 = self.reported();
        let ghost target = program_from(toks, self.current as int, Seq::empty(), Seq::empty());
        let mut list: Vec<StmtEnum> = Vec::new();
        let mut had_error: Option<ParseError> = None;
        let ghost mut errs: Seq<ParseErrorView> = Seq::empty();
        assert(stmts_view(list@) =~= Seq::<StmtView>::empty());
        assert(e0 + errs =~= e0);
        loop
            invariant
                self.wf(),
                self.toks() == toks,
                self.toks() == old(self).toks(),
                target == program_from(old(self).toks(), old(self).pos(), Seq::empty(), Seq::empty()),
                target == program_from(toks, self.current as int, stmts_view(list@), errs),
                self.reported() == e0 + errs,
                e0 == old(self).reported(),
                errs.len() == 0 <==> had_error is None,
                had_error matches Some(e) ==> e@ == errs.last(),
            ensures
                self.wf(),
                self.toks() == old(self).toks(),
                target == program_from(toks, self.current as int, stmts_view(list@), errs),
                at_end(toks, self.current as int),
                self.reported() == e0 + errs,
                errs.len() == 0 <==> had_error is None,
                had_error matches Some(e) ==> e@ == errs.last(),
            decreases self.tokens@.len() - self.current,
        {
            if self.is_at_end() {
                break;
            }
            match self.declaration() {
                Ok(stmt) => {
                    proof {
                        lemma_stmts_view_push(list@, stmt);
                    }
                    list.push(stmt);
                },
                Err(err) => {
                    let last = err.copy();
                    proof {
                        errs = errs.push(err@);
                        assert(parse_errors_view(self.errors@.push(err)) =~= parse_errors_view(self.errors@).push(err@));
                    }
                    self.errors.push(err);
                    if self.current >= self.tokens.len() {
                        assert(e0 + errs =~= e0 + target.errors);
                        return ParseRun::OutOfTokens;
                    }
                    had_error = Some(last);
                    proof {
                        lemma_sync_from(toks, self.current + 1);
                    }
                    self.synchronize();
                },
            }
        }
        match had_error {
            Some(err) => ParseRun::Finished(Err(err)),
            None => ParseRun::Finished(Ok(list)),
        }
    }

    /// Parses a whole program, on tokens where error recovery never runs past
    /// the last token (see `parse_program`).
    pub fn parse(&mut self) -> (r: Result<Vec<StmtEnum>, ParseError>)
        requires
            old(self).wf(),
            !program_from(old(self).toks(), old(self).pos(), Seq::empty(), Seq::empty()).out_of_tokens,
        ensures
            final(self).wf(),
            final(self).toks() == old(self).toks(),
            ({
                let out = program_from(old(self).toks(), old(self).pos(), Seq::empty(), Seq::empty());
                &&& final(self).reported() == old(self).reported() + out.errors
                &&& at_end(final(self).toks(), final(self).pos())
                &&& match r {
                    Ok(stmts) => out.errors.len() == 0 && stmts_view(stmts@) == out.statements,
                    Err(e) => out.errors.len() > 0 && e@ == out.errors.last(),
                }
            }),
    {
        match self.parse_program() {
            ParseRun::Finished(r) => r,
            ParseRun::OutOfTokens => {
                proof {
                    assert(false);
                }
                Ok(Vec::new())
            },
        }
    }

    // -----------------------------------------------------------------------
    // Statements
    // -----------------------------------------------------------------------

    fn declaration(&mut self) -> (r: Result<StmtEnum, ParseError>)
        requires
            old(self).wf(),
            old(self).current < old(self).tokens@.len(),
        ensures
            final(self).stepped(*old(self), r is Ok, true),
            stmt_outcome(r, final(self).current as int, declaration(old(self).toks(), old(self).current as int)),
        decreases old(self).tokens@.len() - old(self).current, 27int,
    {
        if self.match_one(TokenType::Fun) {
            return self.fun_declaration();
        }
        if self.match_one(TokenType::Var) {
            return self.var_declaration();
        }
        self.statement()
    }

    fn statement(&mut self) -> (r: Result<StmtEnum, ParseError>)
        requires
            old(self).wf(),
            old(self).current < old(self).tokens@.len(),
        ensures
            final(self).stepped(*old(self), r is Ok, true),
            stmt_outcome(r, final(self).current as int, statement(old(self).toks(), old(self).current as int)),
        decreases old(self).tokens@.len() - old(self).current, 23int,
    {
        if self.match_one(TokenType::For) {
            return self.for_statement();
        }
        if self.match_one(TokenType::If) {
            return self.if_statement();
        }
        if self.match_one(TokenType::Return) {
            return self.return_statement();
        }
        if self.match_one(TokenType::Print) {
            return self.print_statement();
        }
        if self.match_one(TokenType::While) {
            return self.while_statement();
        }
        if self.match_one(TokenType::LeftBrace) {
            let statements = self.block()?;
            return Ok(StmtEnum::Block(Block::new(statements)));
        }
        self.expression_statement()
    }

    fn expression_statement(&mut self) -> (r: Result<StmtEnum, ParseError>)
        requires
            old(self).wf(),
            old(self).current < old(self).tokens@.len(),
        ensures
            final(self).stepped(*old(self), r is Ok, true),
            stmt_outcome(r, final(self).current as int, semicolon_after(old(self).toks(), expression(old(self).toks(), old(self).current as int), old(self).current as int, "Expect ';' after value."@, false)),
        decreases old(self).tokens@.len() - old(self).current, 21int,
    {
        let expr = self.expression()?;
        self.consume(TokenType::Semicolon, "Expect ';' after value.")?;
        Ok(StmtEnum::Expression(Expression::new(expr)))
    }

    fn print_statement(&mut self) -> (r: Result<StmtEnum, ParseError>)
        requires
            old(self).wf(),
            old(self).current < old(self).tokens@.len(),
        ensures
            final(self).stepped(*old(self), r is Ok, true),
            stmt_outcome(r, final(self).current as int, semicolon_after(old(self).toks(), expression(old(self).toks(), old(self).current as int), old(self).current as int, "Expect ';' after value."@, true)),
        decreases old(self).tokens@.len() - old(self).current, 21int,
    {
        let expr = self.expression()?;
        self.consume(TokenType::Semicolon, "Expect ';' after value.")?;
        Ok(StmtEnum::Print(Print::new(expr)))
    }

    fn return_statement(&mut self) -> (r: Result<StmtEnum, ParseError>)
        requires
            old(self).wf(),
            old(self).current < old(self).tokens@.len(),
            old(self).current >= 1,
        ensures
            final(self).stepped(*old(self), r is Ok, true),
            stmt_outcome(r, final(self).current as int, return_statement(old(self).toks(), old(self).toks()[old(self).current - 1], old(self).current as int)),
        decreases old(self).tokens@.len() - old(self).current, 21int,
    {
        let keyword = self.previous().copy();
        let value = if !self.check(TokenType::Semicolon) {
            Some(self.expression()?)
        } else {
            None
        };
        self.consume(TokenType::Semicolon, "Expect ';' after return value.")?;
        Ok(StmtEnum::ReturnStmt(ReturnStmt::new(keyword, value)))
    }

    fn var_declaration(&mut self) -> (r: Result<StmtEnum, ParseError>)
        requires
            old(self).wf(),
            old(self).current < old(self).tokens@.len(),
        ensures
            final(self).stepped(*old(self), r is Ok, true),
            stmt_outcome(r, final(self).current as int, var_declaration(old(self).toks(), old(self).current as int)),
        decreases old(self).tokens@.len() - old(self).current, 24int,
    {
        let name = self.consume(TokenType::Identifier, "Expected variable name.")?;
        let initializer = if self.match_one(TokenType::Equal) {
            Some(self.expression()?)
        } else {
            None
        };
        self.consume(TokenType::Semicolon, "Expect ';' after variable declaration.")?;
        Ok(StmtEnum::Var(Var::new(name, initializer)))
    }

    fn while_statement(&mut self) -> (r: Result<StmtEnum, ParseError>)
        requires
            old(self).wf(),
            old(self).current < old(self).tokens@.len(),
        ensures
            final(self).stepped(*old(self), r is Ok, true),
            stmt_outcome(r, final(self).current as int, while_statement(old(self).toks(), old(self).current as int)),
        decreases old(self).tokens@.len() - old(self).current, 24int,
    {
        self.consume(TokenType::LeftParen, "Expect '(' after 'while'.")?;
        let condition = self.expression()?;
        self.consume(TokenType::RightParen, "Expect ')' after while condition.")?;
        let body = self.statement()?;
        Ok(StmtEnum::WhileStmt(WhileStmt::new(condition, body)))
    }

    fn if_statement(&mut self) -> (r: Result<StmtEnum, ParseError>)
        requires
            old(self).wf(),
            old(self).current < old(self).tokens@.len(),
        ensures
            final(self).stepped(*old(self), r is Ok, true),
            stmt_outcome(r, final(self).current as int, if_statement(old(self).toks(), old(self).current as int)),
        decreases old(self).tokens@.len() - old(self).current, 24int,
    {
        self.consume(TokenType::LeftParen, "Expect '(' after 'if'.")?;
        let condition = self.expression()?;
        self.consume(TokenType::RightParen, "Expect ')' after if condition.")?;
        let then_branch = self.statement()?;
        let else_branch = if self.match_one(TokenType::Else) {
            Some(self.statement()?)
        } else {
            None
        };
        Ok(StmtEnum::IfStmt(IfStmt::new(condition, then_branch, else_branch)))
    }

    fn for_statement(&mut self) -> (r: Result<StmtEnum, ParseError>)
        requires
            old(self).wf(),
            old(self).current < old(self).tokens@.len(),
        ensures
            final(self).stepped(*old(self), r is Ok, true),
            stmt_outcome(r, final(self).current as int, for_statement(old(self).toks(), old(self).current as int)),
        decreases old(self).tokens@.len() - old(self).current, 24int,
    {
        self.consume(TokenType::LeftParen, "Expect '(' after 'for'.")?;
        let initializer = if self.match_one(TokenType::Semicolon) {
            None
        } else if self.match_one(TokenType::Var) {
            Some(self.var_declaration()?)
        } else {
            Some(self.expression_statement()?)
        };
        self.for_condition(initializer)
    }

    fn for_condition(&mut self, initializer: Option<StmtEnum>) -> (r: Result<StmtEnum, ParseError>)
        requires
            old(self).wf(),
            old(self).current < old(self).tokens@.len(),
        ensures
            final(self).stepped(*old(self), r is Ok, true),
            stmt_outcome(r, final(self).current as int, for_condition(old(self).toks(), opt_stmt_view(initializer), old(self).current as int)),
        decreases old(self).tokens@.len() - old(self).current, 26int,
    {
        let condition = if !self.check(TokenType::Semicolon) {
            self.expression()?
        } else {
            ExprEnum::Literal(Literal::Boolean(true))
        };
        self.for_after_condition(initializer, condition)
    }

    fn for_after_condition(&mut self, initializer: Option<StmtEnum>, condition: ExprEnum) -> (r: Result<StmtEnum, ParseError>)
        requires
            old(self).wf(),
            old(self).current < old(self).tokens@.len(),
        ensures
            final(self).stepped(*old(self), r is Ok, true),
            stmt_outcome(r, final(self).current as int, for_after_condition(old(self).toks(), opt_stmt_view(initializer), condition.view(), old(self).current as int)),
        decreases old(self).tokens@.len() - old(self).current, 25int,
    {
        self.consume(TokenType::Semicolon, "Expect ';' after loop condition.")?;
        self.for_increment(initializer, condition)
    }

    fn for_increment(&mut self, initializer: Option<StmtEnum>, condition: ExprEnum) -> (r: Result<StmtEnum, ParseError>)
        requires
            old(self).wf(),
            old(self).current < old(self).tokens@.len(),
        ensures
            final(self).stepped(*old(self), r is Ok, false),
            stmt_outcome(r, final(self).current as int, for_increment(old(self).toks(), opt_stmt_view(initializer), condition.view(), old(self).current as int)),
        decreases old(self).tokens@.len() - old(self).current, 25int,
    {
        let increment = if !self.check(TokenType::RightParen) {
            Some(self.expression()?)
        } else {
            None
        };
        self.for_body(initializer, condition, increment)
    }

    fn for_body(&mut self, initializer: Option<StmtEnum>, condition: ExprEnum, increment: Option<ExprEnum>) -> (r: Result<StmtEnum, ParseError>)
        requires
            old(self).wf(),
            old(self).current < old(self).tokens@.len(),
        ensures
            final(self).stepped(*old(self), r is Ok, true),
            stmt_outcome(r, final(self).current as int, for_body(old(self).toks(), opt_stmt_view(initializer), condition.view(), opt_expr_view(increment), old(self).current as int)),
        decreases old(self).tokens@.len() - old(self).current, 24int,
    {
        self.consume(TokenType::RightParen, "Expect ')' after for clauses.")?;
        let body = self.statement()?;
        Ok(desugar(initializer, condition, increment, body))
    }

    fn block(&mut self) -> (r: Result<Vec<StmtEnum>, ParseError>)
        requires
            old(self).wf(),
            old(self).current < old(self).tokens@.len(),
        ensures
            final(self).stepped(*old(self), r is Ok, true),
            stmts_outcome(r, final(self).current as int, block(old(self).toks(), old(self).current as int)),
        decreases old(self).tokens@.len() - old(self).current, 29int,
    {
        let ghost toks = self.toks();
        let ghost p0 = self.current as int;
        let ghost target = block(toks, p0);
        let mut statements: Vec<StmtEnum> = Vec::new();
        assert(stmts_view(statements@) =~= Seq::<StmtView>::empty());
        loop
            invariant
                self.stepped(*old(self), true, false),
                toks == self.toks(),
                p0 == old(self).current,
                target == block(toks, p0),
                target == block_items(toks, stmts_view(statements@), self.current as int),
            ensures
                self.stepped(*old(self), true, false),
                target == block_items(toks, stmts_view(statements@), self.current as int),
                check(toks, self.current as int, TokenType::RightBrace) || at_end(toks, self.current as int),
            decreases self.tokens@.len() - self.current,
        {
            if self.check(TokenType::RightBrace) || self.is_at_end() {
                break;
            }
            let stmt = self.declaration()?;
            proof {
                lemma_stmts_view_push(statements@, stmt);
            }
            statements.push(stmt);
        }
        self.consume(TokenType::RightBrace, "Expect '}' after block.")?;
        Ok(statements)
    }

    fn fun_declaration(&mut self) -> (r: Result<StmtEnum, ParseError>)
        requires
            old(self).wf(),
            old(self).current < old(self).tokens@.len(),
        ensures
            final(self).stepped(*old(self), r is Ok, true),
            stmt_outcome(r, final(self).current as int, fun_declaration(old(self).toks(), old(self).current as int)),
        decreases old(self).tokens@.len() - old(self).current, 24int,
    {
        let ghost toks = self.toks();
        let ghost p0 = self.current as int;
        let name = self.consume(TokenType::Identifier, "Expect function name.")?;
        self.consume(TokenType::LeftParen, "Expect '(' after function name.")?;
        let mut params: Vec<Token> = Vec::new();
        assert(tokens_view(params@) =~= Seq::<TokenView>::empty());
        if !self.check(TokenType::RightParen) {
            let ghost target = fun_params(toks, Seq::empty(), p0 + 2);
            loop
                invariant_except_break
                    target == fun_params(toks, tokens_view(params@), self.current as int),
                    params@.len() < 256,
                invariant
                    self.stepped(*old(self), true, true),
                    toks == self.toks(),
                    p0 == old(self).current,
                    target == fun_params(toks, Seq::empty(), p0 + 2),
                    check(toks, p0, TokenType::Identifier),
                    check(toks, p0 + 1, TokenType::LeftParen),
                    !check(toks, p0 + 2, TokenType::RightParen),
                    name@ == toks[p0],
                    self.current >= p0 + 2,
                ensures
                    self.stepped(*old(self), true, true),
                    target == (Parsed::Done { value: tokens_view(params@), next: self.current as int }),
                decreases self.tokens@.len() - self.current,
            {
                if params.len() >= 255 {
                    return Err(ParseError::FunctionArgsLimitExceeded { line: self.peek().line });
                }
                let param = self.consume(TokenType::Identifier, "Expect parameter name.")?;
                proof {
                    assert(tokens_view(params@.push(param)) =~= tokens_view(params@).push(param@));
                }
                params.push(param);
                if !self.match_one(TokenType::Comma) {
                    break;
                }
            }
        }
        self.consume(TokenType::RightParen, "Expect ')' after parameters.")?;
        self.consume(TokenType::LeftBrace, "Expect '{' after function body.")?;
        let body = self.block()?;
        Ok(StmtEnum::Function(Fun::new(name, params, body)))
    }

}

/// Recovery from `q` stops at or after `q` and inside the tokens.
proof fn lemma_sync_from(toks: Seq<TokenView>, q: int)
    requires
        1 <= q <= toks.len(),
    ensures
        q <= sync_from(toks, q) <= toks.len(),
    decreases toks.len() - q,
{
    if !(at_end(toks, q) || toks[q - 1].token_type == TokenType::Semicolon || crate::grammar::is_sync_keyword(toks[q].token_type)) {
        lemma_sync_from(toks, q + 1);
    }
}

/// Two statements in a block.
fn block_of_two(a: StmtEnum, b: StmtEnum) -> (s: StmtEnum)
    ensures
        s.view() == (StmtView::Block { statements: seq![a.view(), b.view()] }),
{
    let mut pair: Vec<StmtEnum> = Vec::new();
    proof {
        lemma_stmts_view_push(pair@, a);
        lemma_stmts_view_push(pair@.push(a), b);
        assert(stmts_view(pair@) =~= Seq::<StmtView>::empty());
    }
    pair.push(a);
    pair.push(b);
    proof {
        assert(stmts_view(pair@) =~= seq![a.view(), b.view()]);
    }
    StmtEnum::Block(Block::new(pair))
}

/// The statement that a `for` loop stands for: its body followed by the
/// increment, repeated while the condition holds, after the initializer.
fn desugar(initializer: Option<StmtEnum>, condition: ExprEnum, increment: Option<ExprEnum>, body: StmtEnum) -> (s: StmtEnum)
    ensures
        s.view() == desugar_for(opt_stmt_view(initializer), condition.view(), opt_expr_view(increment), body.view()),
{
    let b1 = match increment {
        Some(inc) => block_of_two(body, StmtEnum::Expression(Expression::new(inc))),
        None => body,
    };
    let w = StmtEnum::WhileStmt(WhileStmt::new(condition, b1));
    match initializer {
        Some(ini) => block_of_two(ini, w),
        None => w,
    }
}

/// The literal of a number or string token.
fn literal_of(t: &Token) -> (l: Literal)
    ensures
        l@ == token_literal(t@),
{
    match &t.literal {
        Some(s) => if t.token_type == TokenType::Number {
            Literal::Number(s.clone())
        } else {
            Literal::String(s.clone())
        },
        None => Literal::Null,
    }
}

/// What the scanner yields is what the parser takes: tokens that end with the
/// end-of-file token.
pub proof fn law_scanned_tokens_are_well_ended(src: Seq<char>)
    ensures
        well_ended(crate::scanner::spec_tokens(src)),
{
    crate::scanner::law_single_eof_at_end(src);
}

} // verus!
