//! The text of syntax trees: expressions in prefix form, such as `(+ 1 (group 2))`,
//! and statements as they are shown for inspection.
use vstd::prelude::*;
use crate::ast::{
    exprs_view, lemma_exprs_view, lemma_stmts_view, stmts_view, ExprEnum, ExprView, Literal,
    LiteralView, StmtEnum, StmtView,
};
use crate::scanner::tokens_view;
use crate::token::{spec_token_text, Token, TokenView};

verus! {

/// The text of a literal: `nil`, the string's contents, the number's digits, `true` or `false`.
pub open spec fn literal_text(l: LiteralView) -> Seq<char> {
    match l {
        LiteralView::Null => "nil"@,
        LiteralView::String(s) => s,
        LiteralView::Number(n) => n,
        LiteralView::Boolean(b) => if b {
            "true"@
        } else {
            "false"@
        },
    }
}

/// The prefix text of an expression.
pub open spec fn expr_text(e: ExprView) -> Seq<char>
    decreases e,
{
    match e {
        ExprView::Literal { value } => literal_text(value),
        ExprView::Grouping { expression } => "(group "@ + expr_text(*expression) + ")"@,
        ExprView::Binary { left, operator, right } => "("@ + operator.lexeme + " "@ + expr_text(*left)
            + " "@ + expr_text(*right) + ")"@,
        ExprView::Unary { operator, right } => "("@ + operator.lexeme + " "@ + expr_text(*right)
            + ")"@,
        ExprView::Variable { name } => name.lexeme,
        ExprView::Assign { name, value } => "(= "@ + name.lexeme + " "@ + expr_text(*value) + ")"@,
        ExprView::Logical { left, operator, right } => "("@ + operator.lexeme + " "@ + expr_text(
            *left,
        ) + " "@ + expr_text(*right) + ")"@,
        ExprView::Call { callee, args } => expr_text(*callee) + "("@ + args_text(args) + ")"@,
        ExprView::Get { object, name } => expr_text(*object) + "."@ + name.lexeme,
        ExprView::SetExpr { object: _, name, value } => expr_text(*value) + "."@ + name.lexeme,
        ExprView::This { keyword } => keyword.lexeme,
        ExprView::Super { keyword, method } => keyword.lexeme + "."@ + method.lexeme,
    }
}

/// The texts of expressions joined by `, `.
pub open spec fn args_text(args: Seq<ExprView>) -> Seq<char>
    decreases args,
{
    if args.len() == 0 {
        Seq::empty()
    } else if args.len() == 1 {
        expr_text(args[0])
    } else {
        args_text(args.subrange(0, args.len() - 1)) + ", "@ + expr_text(args[args.len() - 1])
    }
}

/// The texts of tokens joined by `, `.
pub open spec fn tokens_text(ts: Seq<TokenView>) -> Seq<char>
    decreases ts.len(),
{
    if ts.len() == 0 {
        Seq::empty()
    } else if ts.len() == 1 {
        spec_token_text(ts[0])
    } else {
        tokens_text(ts.subrange(0, ts.len() - 1)) + ", "@ + spec_token_text(ts[ts.len() - 1])
    }
}

/// The text of an optional expression, `nil` when there is none.
pub open spec fn opt_expr_text(e: Option<ExprView>) -> Seq<char> {
    match e {
        Some(e) => expr_text(e),
        None => "nil"@,
    }
}

/// The text of a statement.
pub open spec fn stmt_text(s: StmtView) -> Seq<char>
    decreases s,
{
    match s {
        StmtView::Expression { expression } => expr_text(expression),
        StmtView::Print { expression } => expr_text(expression),
        StmtView::Var { name, initializer } => name.lexeme + " "@ + match initializer {
            Some(e) => expr_text(e),
            None => "nil"@,
        },
        StmtView::Block { statements } => "{\n "@ + stmts_text(statements, "\n"@) + " \n}"@,
        StmtView::If { condition, then_branch, else_branch } => "if ("@ + expr_text(condition) + ") "@
            + stmt_text(*then_branch) + match else_branch {
            Some(e) => "else "@ + stmt_text(*e),
            None => Seq::empty(),
        },
        StmtView::While { condition, body } => "while ("@ + expr_text(condition) + ") "@ + stmt_text(
            *body,
        ),
        StmtView::Function { name, params, body } => "fun "@ + spec_token_text(name) + " ("@
            + tokens_text(params) + ") {\n"@ + stmts_text(body, ", "@) + "\n}"@,
        StmtView::Return { keyword: _, value } => "return "@ + match value {
            Some(e) => expr_text(e),
            None => "nil"@,
        },
        StmtView::Class { name, superclass: _, methods } => "class "@ + spec_token_text(name)
            + " {\n"@ + stmts_text(methods, ", "@) + "\n}"@,
    }
}

/// The texts of statements joined by `sep`.
pub open spec fn stmts_text(stmts: Seq<StmtView>, sep: Seq<char>) -> Seq<char>
    decreases stmts,
{
    if stmts.len() == 0 {
        Seq::empty()
    } else if stmts.len() == 1 {
        stmt_text(stmts[0])
    } else {
        stmts_text(stmts.subrange(0, stmts.len() - 1), sep) + sep + stmt_text(stmts[stmts.len() - 1])
    }
}

/// The text of a literal.
pub fn literal_to_string(l: &Literal) -> (s: String)
    ensures
        s@ == literal_text(l@),
{
    match l {
        Literal::Null => String::from_str("nil"),
        Literal::String(s) => s.clone(),
        Literal::Number(n) => n.clone(),
        Literal::Boolean(b) => if *b {
            String::from_str("true")
        } else {
            String::from_str("false")
        },
    }
}

impl ExprEnum {
    /// The prefix text of this expression.
    pub fn to_display_string(&self) -> (s: String)
        ensures
            s@ == expr_text(self.view()),
        decreases self,
    {
        match self {
            ExprEnum::Literal(l) => literal_to_string(l),
            ExprEnum::Grouping(g) => {
                let mut s = String::from_str("(group ");
                let inner = g.expression.to_display_string();
                s.append(inner.as_str());
                s.append(")");
                s
            },
            ExprEnum::Binary(b) => {
                let mut s = String::from_str("(");
                s.append(b.operator.lexeme.as_str());
                s.append(" ");
                let l = b.left.to_display_string();
                s.append(l.as_str());
                s.append(" ");
                let r = b.right.to_display_string();
                s.append(r.as_str());
                s.append(")");
                s
            },
            ExprEnum::Unary(u) => {
                let mut s = String::from_str("(");
                s.append(u.operator.lexeme.as_str());
                s.append(" ");
                let r = u.right.to_display_string();
                s.append(r.as_str());
                s.append(")");
                s
            },
            ExprEnum::Variable(v) => v.name.lexeme.clone(),
            ExprEnum::Assign(a) => {
                let mut s = String::from_str("(= ");
                s.append(a.name.lexeme.as_str());
                s.append(" ");
                let v = a.value.to_display_string();
                s.append(v.as_str());
                s.append(")");
                s
            },
            ExprEnum::Logical(l) => {
                let mut s = String::from_str("(");
                s.append(l.operator.lexeme.as_str());
                s.append(" ");
                let a = l.left.to_display_string();
                s.append(a.as_str());
                s.append(" ");
                let b = l.right.to_display_string();
                s.append(b.as_str());
                s.append(")");
                s
            },
            ExprEnum::Call(c) => {
                let mut s = c.callee.to_display_string();
                s.append("(");
                let ghost prefix = s@;
                let ghost args = exprs_view(c.args@);
                proof {
                    lemma_exprs_view(c.args@);
                }
                let mut i: usize = 0;
                while i < c.args.len()
                    invariant
                        i <= c.args@.len(),
                        args == exprs_view(c.args@),
                        args.len() == c.args@.len(),
                        forall|k: int| 0 <= k < c.args@.len() ==> #[trigger] args[k] == c.args@[k].view(),
                        s@ == prefix + args_text(args.subrange(0, i as int)),
                        *self == ExprEnum::Call(*c),
                    decreases c.args@.len() - i,
                {
                    if i > 0 {
                        s.append(", ");
                    }
                    proof {
                        assert(decreases_to!(*self => (*self)->Call_0));
                        assert((*self)->Call_0 == *c);
                        assert(decreases_to!(*c => c.args));
                        assert(decreases_to!(c.args => c.args@));
                        assert(decreases_to!(c.args@ => c.args@[i as int]));
                    }
                    let a = c.args[i].to_display_string();
                    s.append(a.as_str());
                    proof {
                        let sub = args.subrange(0, i + 1);
                        assert(sub.subrange(0, i as int) =~= args.subrange(0, i as int));
                        if i == 0 {
                            assert(args.subrange(0, 0) =~= Seq::<ExprView>::empty());
                        }
                    }
                    i = i + 1;
                }
                assert(args.subrange(0, args.len() as int) =~= args);
                s.append(")");
                s
            },
            ExprEnum::Get(g) => {
                let mut s = g.object.to_display_string();
                s.append(".");
                s.append(g.name.lexeme.as_str());
                s
            },
            ExprEnum::SetExpr(st) => {
                let mut s = st.value.to_display_string();
                s.append(".");
                s.append(st.name.lexeme.as_str());
                s
            },
            ExprEnum::This(t) => t.keyword.lexeme.clone(),
            ExprEnum::Super(sp) => {
                let mut s = sp.keyword.lexeme.clone();
                s.append(".");
                s.append(sp.method.lexeme.as_str());
                s
            },
        }
    }
}


/// The texts of tokens joined by `, `.
fn tokens_to_string(ts: &Vec<Token>) -> (s: String)
    ensures
        s@ == tokens_text(tokens_view(ts@)),
{
    let ghost all = tokens_view(ts@);
    let mut s = String::new();
    let mut i: usize = 0;
    while i < ts.len()
        invariant
            i <= ts@.len(),
            all == tokens_view(ts@),
            all.len() == ts@.len(),
            forall|k: int| 0 <= k < ts@.len() ==> #[trigger] all[k] == ts@[k]@,
            s@ == tokens_text(all.subrange(0, i as int)),
        decreases ts@.len() - i,
    {
        if i > 0 {
            s.append(", ");
        }
        let t = ts[i].to_display_string();
        s.append(t.as_str());
        proof {
            let sub = all.subrange(0, i + 1);
            assert(sub.subrange(0, i as int) =~= all.subrange(0, i as int));
        }
        i = i + 1;
    }
    assert(all.subrange(0, all.len() as int) =~= all);
    s
}

/// The texts of statements joined by `sep`.
fn stmts_to_string(stmts: &Vec<StmtEnum>, sep: &str) -> (s: String)
    ensures
        s@ == stmts_text(stmts_view(stmts@), sep@),
    decreases stmts,
{
    let ghost all = stmts_view(stmts@);
    proof {
        lemma_stmts_view(stmts@);
    }
    let mut s = String::new();
    let mut i: usize = 0;
    while i < stmts.len()
        invariant
            i <= stmts@.len(),
            all == stmts_view(stmts@),
            all.len() == stmts@.len(),
            forall|k: int| 0 <= k < stmts@.len() ==> #[trigger] all[k] == stmts@[k].view(),
            s@ == stmts_text(all.subrange(0, i as int), sep@),
        decreases stmts@.len() - i,
    {
        if i > 0 {
            s.append(sep);
        }
        proof {
            assert(decreases_to!(*stmts => stmts@));
            assert(decreases_to!(stmts@ => stmts@[i as int]));
        }
        let t = stmts[i].to_display_string();
        s.append(t.as_str());
        proof {
            let sub = all.subrange(0, i + 1);
            assert(sub.subrange(0, i as int) =~= all.subrange(0, i as int));
        }
        i = i + 1;
    }
    assert(all.subrange(0, all.len() as int) =~= all);
    s
}

/// The text of an optional expression, `nil` when there is none.
fn opt_expr_to_string(e: &Option<ExprEnum>) -> (s: String)
    ensures
        s@ == opt_expr_text(match e {
            Some(e) => Some(e.view()),
            None => None,
        }),
{
    match e {
        Some(e) => e.to_display_string(),
        None => String::from_str("nil"),
    }
}

impl StmtEnum {
    /// The text of this statement.
    pub fn to_display_string(&self) -> (s: String)
        ensures
            s@ == stmt_text(self.view()),
        decreases self,
    {
        match self {
            StmtEnum::Expression(e) => e.expression.to_display_string(),
            StmtEnum::Print(p) => p.expression.to_display_string(),
            StmtEnum::Var(v) => {
                let mut s = v.name.lexeme.clone();
                s.append(" ");
                let init = match &v.initializer {
                    Some(e) => e.to_display_string(),
                    None => String::from_str("nil"),
                };
                s.append(init.as_str());
                s
            },
            StmtEnum::Block(b) => {
                let mut s = String::from_str("{\n ");
                proof {
                    assert(decreases_to!(*self => (*self)->Block_0));
                    assert((*self)->Block_0 == *b);
                    assert(decreases_to!(*b => b.statements));
                }
                let inner = stmts_to_string(&b.statements, "\n");
                s.append(inner.as_str());
                s.append(" \n}");
                s
            },
            StmtEnum::IfStmt(i) => {
                let mut s = String::from_str("if (");
                let c = i.condition.to_display_string();
                s.append(c.as_str());
                s.append(") ");
                let t = i.then_branch.to_display_string();
                s.append(t.as_str());
                match &i.else_branch {
                    Some(e) => {
                        s.append("else ");
                        let et = e.to_display_string();
                        s.append(et.as_str());
                    },
                    None => {},
                }
                s
            },
            StmtEnum::WhileStmt(w) => {
                let mut s = String::from_str("while (");
                let c = w.condition.to_display_string();
                s.append(c.as_str());
                s.append(") ");
                let b = w.body.to_display_string();
                s.append(b.as_str());
                s
            },
            StmtEnum::Function(f) => {
                let mut s = String::from_str("fun ");
                let n = f.name.to_display_string();
                s.append(n.as_str());
                s.append(" (");
                let ps = tokens_to_string(&f.params);
                s.append(ps.as_str());
                s.append(") {\n");
                proof {
                    assert(decreases_to!(*self => (*self)->Function_0));
                    assert((*self)->Function_0 == *f);
                    assert(decreases_to!(*f => f.body));
                }
                let body = stmts_to_string(&f.body, ", ");
                s.append(body.as_str());
                s.append("\n}");
                s
            },
            StmtEnum::ReturnStmt(r) => {
                let mut s = String::from_str("return ");
                let v = opt_expr_to_string(&r.value);
                s.append(v.as_str());
                s
            },
            StmtEnum::Class(c) => {
                let mut s = String::from_str("class ");
                let n = c.name.to_display_string();
                s.append(n.as_str());
                s.append(" {\n");
                proof {
                    assert(decreases_to!(*self => (*self)->Class_0));
                    assert((*self)->Class_0 == *c);
                    assert(decreases_to!(*c => c.methods));
                }
                let ms = stmts_to_string(&c.methods, ", ");
                s.append(ms.as_str());
                s.append("\n}");
                s
            },
        }
    }
}

/// Shows expressions in prefix form.
pub struct AstPrinter {}

impl AstPrinter {
    pub fn new() -> (p: AstPrinter) {
        AstPrinter {}
    }

    /// The prefix text of `expr`, such as `(* (- 123) (group 45.67))`.
    pub fn print(&self, expr: &ExprEnum) -> (s: String)
        ensures
            s@ == expr_text(expr.view()),
    {
        expr.to_display_string()
    }
}

} // verus!
