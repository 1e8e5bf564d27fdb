//! The resolver: a pass over a program, before it runs, that finds for each
//! local variable expression how many scopes out its variable is declared,
//! and refuses a program that reads a variable in its own initializer,
//! declares a name twice in one local scope, or returns from top-level code.
use vstd::prelude::*;
use crate::ast::{
    exprs_view, lemma_exprs_view, lemma_stmts_view, stmts_view, Block, ExprEnum, ExprView, Fun,
    IfStmt, ReturnStmt, StmtEnum, StmtView, Var, WhileStmt,
};
use crate::error::{RuntimeError, RuntimeErrorView};
use crate::interpreter::{Interpreter, LocalKey, LocalKeyView};
use crate::token::{Token, TokenView};

verus! {

/// The state of the resolver: the local scopes, innermost last, each a list of
/// names with whether the name's initializer has been resolved (a later entry
/// for a name replaces an earlier one); whether it is inside a function; and
/// the depths recorded so far.
pub struct ResolverState {
    pub scopes: Seq<Seq<(Seq<char>, bool)>>,
    pub in_function: bool,
    pub locals: Seq<(LocalKeyView, nat)>,
}

/// What a step of the resolver gives: the state after it, and its outcome.
pub struct Resolved {
    pub state: ResolverState,
    pub outcome: Result<(), RuntimeErrorView>,
}

/// The step that changed the state to `state` and succeeded.
pub open spec fn ok(state: ResolverState) -> Resolved {
    Resolved { state, outcome: Ok(()) }
}

/// The step that stopped at `error`, in state `state`.
pub open spec fn failed(state: ResolverState, error: RuntimeErrorView) -> Resolved {
    Resolved { state, outcome: Err(error) }
}

/// Whether `name` is declared in `scope`, and if so, whether it is defined.
pub open spec fn flag(scope: Seq<(Seq<char>, bool)>, name: Seq<char>) -> Option<bool>
    decreases scope.len(),
{
    if scope.len() == 0 {
        None
    } else if scope.last().0 == name {
        Some(scope.last().1)
    } else {
        flag(scope.drop_last(), name)
    }
}

/// How many scopes out from the innermost one `name` is declared.
pub open spec fn scope_depth(scopes: Seq<Seq<(Seq<char>, bool)>>, name: Seq<char>) -> Option<nat>
    decreases scopes.len(),
{
    if scopes.len() == 0 {
        None
    } else if flag(scopes.last(), name) is Some {
        Some(0)
    } else {
        match scope_depth(scopes.drop_last(), name) {
            Some(d) => Some(d + 1),
            None => None,
        }
    }
}

/// The state with `entry` added to the innermost scope.
pub open spec fn with_entry(st: ResolverState, entry: (Seq<char>, bool)) -> ResolverState {
    ResolverState {
        scopes: st.scopes.update(st.scopes.len() - 1, st.scopes.last().push(entry)),
        ..st
    }
}

/// Declaring `name`: nothing at global level; in a local scope, an error where
/// the scope declares it already, else the name is declared and not yet defined.
pub open spec fn declared(st: ResolverState, name: TokenView) -> Resolved {
    if st.scopes.len() == 0 {
        ok(st)
    } else if flag(st.scopes.last(), name.lexeme) is Some {
        failed(
            st,
            RuntimeErrorView::Error {
                line: name.line,
                msg: "Already a variable with this name '"@ + name.lexeme + "' in this scope."@,
            },
        )
    } else {
        ok(with_entry(st, (name.lexeme, false)))
    }
}

/// Defining `name`: nothing at global level; in a local scope, the name is defined.
pub open spec fn defined(st: ResolverState, name: TokenView) -> ResolverState {
    if st.scopes.len() == 0 {
        st
    } else {
        with_entry(st, (name.lexeme, true))
    }
}

/// The key of a variable expression or assignment named by `name`; an
/// assignment's key holds the expression it assigns.
pub open spec fn key_of(assign: bool, name: TokenView, value: Option<ExprView>) -> LocalKeyView {
    LocalKeyView { assign, name: name.lexeme, line: name.line, value }
}

/// Placing a variable expression: where a local scope declares the name, the
/// depth of that scope is recorded for it; a global is not recorded.
pub open spec fn placed(st: ResolverState, key: LocalKeyView, name: Seq<char>) -> ResolverState {
    match scope_depth(st.scopes, name) {
        Some(d) => ResolverState { locals: st.locals.push((key, d)), ..st },
        None => st,
    }
}

/// Resolving an expression. A property read or write resolves the object
/// (and the value written); the property's name is not a variable.
pub open spec fn resolve_expr(st: ResolverState, e: ExprView) -> Resolved
    decreases e, 0nat,
{
    match e {
        ExprView::Assign { name, value } => {
            let v = resolve_expr(st, *value);
            if v.outcome is Err {
                v
            } else {
                ok(placed(v.state, key_of(true, name, Some(*value)), name.lexeme))
            }
        },
        ExprView::Binary { left, right, .. } => {
            let l = resolve_expr(st, *left);
            if l.outcome is Err {
                l
            } else {
                resolve_expr(l.state, *right)
            }
        },
        ExprView::Call { callee, args } => {
            let c = resolve_expr(st, *callee);
            if c.outcome is Err {
                c
            } else {
                resolve_exprs(c.state, args)
            }
        },
        ExprView::Get { object, .. } => resolve_expr(st, *object),
        ExprView::Grouping { expression } => resolve_expr(st, *expression),
        ExprView::Literal { .. } => ok(st),
        ExprView::Logical { left, right, .. } => {
            let l = resolve_expr(st, *left);
            if l.outcome is Err {
                l
            } else {
                resolve_expr(l.state, *right)
            }
        },
        ExprView::SetExpr { object, value, .. } => {
            let v = resolve_expr(st, *value);
            if v.outcome is Err {
                v
            } else {
                resolve_expr(v.state, *object)
            }
        },
        ExprView::Super { keyword, .. } => ok(placed(st, key_of(false, keyword, None), keyword.lexeme)),
        ExprView::This { keyword } => ok(placed(st, key_of(false, keyword, None), keyword.lexeme)),
        ExprView::Unary { right, .. } => resolve_expr(st, *right),
        ExprView::Variable { name } => if st.scopes.len() > 0 && flag(st.scopes.last(), name.lexeme)
            == Some(false) {
            failed(
                st,
                RuntimeErrorView::Error {
                    line: name.line,
                    msg: "Can't read local variable in its own initializer."@,
                },
            )
        } else {
            ok(placed(st, key_of(false, name, None), name.lexeme))
        },
    }
}

/// Resolving expressions one after another, up to the first error.
pub open spec fn resolve_exprs(st: ResolverState, es: Seq<ExprView>) -> Resolved
    decreases es, 0nat,
{
    if es.len() == 0 {
        ok(st)
    } else {
        let first = resolve_exprs(st, es.drop_last());
        if first.outcome is Err {
            first
        } else {
            resolve_expr(first.state, es.last())
        }
    }
}

/// Declaring and defining a function's parameters, one after another.
pub open spec fn resolve_params(st: ResolverState, params: Seq<TokenView>) -> Resolved
    decreases params.len(),
{
    if params.len() == 0 {
        ok(st)
    } else {
        let first = resolve_params(st, params.drop_last());
        if first.outcome is Err {
            first
        } else {
            let d = declared(first.state, params.last());
            if d.outcome is Err {
                d
            } else {
                ok(defined(d.state, params.last()))
            }
        }
    }
}

/// Resolving an expression of a statement, which holds no statement.
pub open spec fn resolve_operand(st: ResolverState, e: ExprView) -> Resolved {
    resolve_expr(st, e)
}

/// Resolving a statement.
pub open spec fn resolve_stmt(st: ResolverState, s: StmtView) -> Resolved
    decreases s, 0nat,
{
    match s {
        StmtView::Expression { expression } => resolve_operand(st, expression),
        StmtView::Print { expression } => resolve_operand(st, expression),
        StmtView::Var { name, initializer } => {
            let d = declared(st, name);
            if d.outcome is Err {
                d
            } else {
                let i = match initializer {
                    Some(e) => resolve_operand(d.state, e),
                    None => ok(d.state),
                };
                if i.outcome is Err {
                    i
                } else {
                    ok(defined(i.state, name))
                }
            }
        },
        StmtView::Block { statements } => {
            let inner = ResolverState { scopes: st.scopes.push(Seq::empty()), ..st };
            let b = resolve_stmts(inner, statements);
            if b.outcome is Err {
                b
            } else {
                ok(ResolverState { scopes: b.state.scopes.drop_last(), ..b.state })
            }
        },
        StmtView::If { condition, then_branch, else_branch } => {
            let c = resolve_operand(st, condition);
            if c.outcome is Err {
                c
            } else {
                let t = resolve_stmt(c.state, *then_branch);
                if t.outcome is Err {
                    t
                } else {
                    match else_branch {
                        Some(e) => resolve_stmt(t.state, *e),
                        None => t,
                    }
                }
            }
        },
        StmtView::While { condition, body } => {
            let c = resolve_operand(st, condition);
            if c.outcome is Err {
                c
            } else {
                resolve_stmt(c.state, *body)
            }
        },
        StmtView::Function { name, params, body } => {
            let d = declared(st, name);
            if d.outcome is Err {
                d
            } else {
                resolve_function(defined(d.state, name), params, body)
            }
        },
        StmtView::Return { keyword, value } => if !st.in_function {
            failed(
                st,
                RuntimeErrorView::Error {
                    line: keyword.line,
                    msg: "Can't return from top-level code."@,
                },
            )
        } else {
            match value {
                Some(v) => resolve_operand(st, v),
                None => ok(st),
            }
        },
        StmtView::Class { name, .. } => {
            let d = declared(st, name);
            if d.outcome is Err {
                d
            } else {
                ok(defined(d.state, name))
            }
        },
    }
}

/// Resolving statements one after another, up to the first error.
pub open spec fn resolve_stmts(st: ResolverState, ss: Seq<StmtView>) -> Resolved
    decreases ss, 0nat,
{
    if ss.len() == 0 {
        ok(st)
    } else {
        let first = resolve_stmts(st, ss.drop_last());
        if first.outcome is Err {
            first
        } else {
            resolve_stmt(first.state, ss.last())
        }
    }
}

/// Resolving a function: its parameters and body in a new scope, inside a
/// function; afterwards the scope is left and the state of being inside a
/// function is what it was.
pub open spec fn resolve_function(st: ResolverState, params: Seq<TokenView>, body: Seq<StmtView>) -> Resolved
    decreases body, 1nat,
{
    let inner = ResolverState { scopes: st.scopes.push(Seq::empty()), in_function: true, ..st };
    let p = resolve_params(inner, params);
    if p.outcome is Err {
        p
    } else {
        let b = resolve_stmts(p.state, body);
        if b.outcome is Err {
            b
        } else {
            ok(
                ResolverState {
                    scopes: b.state.scopes.drop_last(),
                    in_function: st.in_function,
                    ..b.state
                },
            )
        }
    }
}

/// The abstract outcome of a step.
pub open spec fn outcome_view(r: Result<(), RuntimeError>) -> Result<(), RuntimeErrorView> {
    match r {
        Ok(()) => Ok(()),
        Err(e) => Err(e@),
    }
}

// ---------------------------------------------------------------------------
// The resolver
// ---------------------------------------------------------------------------

/// The resolver's local scopes and whether it is inside a function.
pub struct Resolver {
    scopes: Vec<Vec<(String, bool)>>,
    in_function: bool,
}

/// The names and flags of a scope.
pub open spec fn entries_view(scope: Seq<(String, bool)>) -> Seq<(Seq<char>, bool)> {
    Seq::new(scope.len(), |j: int| (scope[j].0@, scope[j].1))
}

impl Resolver {
    /// The resolver's state, with the depths recorded in `locals`.
    pub closed spec fn state(&self, locals: Seq<(LocalKeyView, nat)>) -> ResolverState {
        ResolverState {
            scopes: Seq::new(self.scopes@.len(), |i: int| entries_view(self.scopes@[i]@)),
            in_function: self.in_function,
            locals,
        }
    }

    /// A resolver at global level, outside any function.
    pub fn new() -> (r: Resolver)
        ensures
            r.state(Seq::empty()) == (ResolverState {
                scopes: Seq::empty(),
                in_function: false,
                locals: Seq::empty(),
            }),
    {
        let r = Resolver { scopes: Vec::new(), in_function: false };
        assert(r.state(Seq::empty()).scopes =~= Seq::<Seq<(Seq<char>, bool)>>::empty());
        r
    }

    fn push_entry(&mut self, name: String, defined: bool)
        requires
            old(self).scopes@.len() > 0,
        ensures
            forall|l: Seq<(LocalKeyView, nat)>|
                #[trigger] final(self).state(l) == with_entry(old(self).state(l), (name@, defined)),
    {
        let n = self.scopes.len();
        let ghost nv = name@;
        self.scopes[n - 1].push((name, defined));
        assert forall|l: Seq<(LocalKeyView, nat)>| #[trigger] self.state(l) == with_entry(
            old(self).state(l),
            (nv, defined),
        ) by {
            let a = self.state(l);
            let b = with_entry(old(self).state(l), (nv, defined));
            assert(entries_view(self.scopes@[n - 1]@) =~= entries_view(old(self).scopes@[n - 1]@).push(
                (nv, defined),
            ));
            assert(a.scopes =~= b.scopes);
        }
    }

    /// Whether `name` is declared in the innermost scope, and if so, whether it is defined.
    fn innermost_flag(&self, name: &String) -> (r: Option<bool>)
        requires
            self.scopes@.len() > 0,
        ensures
            forall|l: Seq<(LocalKeyView, nat)>| r == flag(#[trigger] self.state(l).scopes.last(), name@),
    {
        let scope = &self.scopes[self.scopes.len() - 1];
        let r = flag_of(scope, name);
        assert forall|l: Seq<(LocalKeyView, nat)>| r == flag(#[trigger] self.state(l).scopes.last(), name@) by {
            assert(self.state(l).scopes.last() == entries_view(scope@));
        }
        r
    }

    fn declare(&mut self, name: &Token) -> (r: Result<(), RuntimeError>)
        ensures
            forall|l: Seq<(LocalKeyView, nat)>|
                #[trigger] declared(old(self).state(l), name@) == (Resolved {
                    state: final(self).state(l),
                    outcome: outcome_view(r),
                }),
    {
        if self.scopes.len() == 0 {
            return Ok(());
        }
        if self.innermost_flag(&name.lexeme).is_some() {
            let mut msg = String::from_str("Already a variable with this name '");
            msg.append(name.lexeme.as_str());
            msg.append("' in this scope.");
            return Err(RuntimeError::Error { line: name.line, msg });
        }
        self.push_entry(name.lexeme.clone(), false);
        Ok(())
    }

    fn define(&mut self, name: &Token)
        ensures
            forall|l: Seq<(LocalKeyView, nat)>|
                #[trigger] final(self).state(l) == defined(old(self).state(l), name@),
    {
        if self.scopes.len() > 0 {
            self.push_entry(name.lexeme.clone(), true);
        }
    }

    /// Records the depth of the innermost scope that declares `name`, if any.
    fn resolve_local(&self, interpreter: &mut Interpreter, key: LocalKey, name: &String)
        ensures
            final(interpreter).scopes() == old(interpreter).scopes(),
            final(interpreter).current() == old(interpreter).current(),
            old(interpreter).wf() ==> final(interpreter).wf(),
            self.state(final(interpreter).locals()) == placed(
                self.state(old(interpreter).locals()),
                key@,
                name@,
            ),
    {
        let ghost all = self.state(old(interpreter).locals()).scopes;
        let n = self.scopes.len();
        let mut i: usize = 0;
        assert(all.subrange(0, n as int) =~= all);
        while i < n
            invariant
                n == self.scopes@.len(),
                all == self.state(old(interpreter).locals()).scopes,
                all.len() == n,
                i <= n,
                scope_depth(all, name@) == match scope_depth(all.subrange(0, n - i), name@) {
                    Some(d) => Some((d + i) as nat),
                    None => None::<nat>,
                },
                interpreter.scopes() == old(interpreter).scopes(),
                interpreter.current() == old(interpreter).current(),
                interpreter.locals() == old(interpreter).locals(),
                old(interpreter).wf() ==> interpreter.wf(),
            decreases n - i,
        {
            let ghost sub = all.subrange(0, n - i);
            assert(sub.last() == entries_view(self.scopes@[n - 1 - i]@));
            if flag_of(&self.scopes[n - 1 - i], name).is_some() {
                interpreter.resolve(key, i);
                return;
            }
            assert(sub.drop_last() =~= all.subrange(0, n - i - 1));
            i = i + 1;
        }
        assert(all.subrange(0, 0) =~= Seq::<Seq<(Seq<char>, bool)>>::empty());
    }

    fn begin_scope(&mut self)
        ensures
            forall|l: Seq<(LocalKeyView, nat)>|
                #[trigger] final(self).state(l) == (ResolverState {
                    scopes: old(self).state(l).scopes.push(Seq::empty()),
                    ..old(self).state(l)
                }),
    {
        self.scopes.push(Vec::new());
        assert forall|l: Seq<(LocalKeyView, nat)>| #[trigger] self.state(l) == (ResolverState {
            scopes: old(self).state(l).scopes.push(Seq::empty()),
            ..old(self).state(l)
        }) by {
            assert(entries_view(self.scopes@.last()@) =~= Seq::<(Seq<char>, bool)>::empty());
            assert(self.state(l).scopes =~= old(self).state(l).scopes.push(Seq::empty()));
        }
    }

    fn end_scope(&mut self)
        requires
            old(self).scopes@.len() > 0,
        ensures
            forall|l: Seq<(LocalKeyView, nat)>|
                #[trigger] final(self).state(l) == (ResolverState {
                    scopes: old(self).state(l).scopes.drop_last(),
                    ..old(self).state(l)
                }),
    {
        self.scopes.pop();
        assert forall|l: Seq<(LocalKeyView, nat)>| #[trigger] self.state(l) == (ResolverState {
            scopes: old(self).state(l).scopes.drop_last(),
            ..old(self).state(l)
        }) by {
            assert(self.state(l).scopes =~= old(self).state(l).scopes.drop_last());
        }
    }

    fn set_in_function(&mut self, inside: bool)
        ensures
            forall|l: Seq<(LocalKeyView, nat)>|
                #[trigger] final(self).state(l) == (ResolverState {
                    in_function: inside,
                    ..old(self).state(l)
                }),
    {
        self.in_function = inside;
        assert forall|l: Seq<(LocalKeyView, nat)>| #[trigger] self.state(l) == (ResolverState {
            in_function: inside,
            ..old(self).state(l)
        }) by {
            assert(self.state(l).scopes =~= old(self).state(l).scopes);
        }
    }

    /// Resolves the statements `statements` one after another, up to the first
    /// error, recording depths in `interpreter`.
    pub fn resolve(&mut self, interpreter: &mut Interpreter, statements: &Vec<StmtEnum>) -> (r: Result<
        (),
        RuntimeError,
    >)
        ensures
            final(interpreter).scopes() == old(interpreter).scopes(),
            final(interpreter).current() == old(interpreter).current(),
            old(interpreter).wf() ==> final(interpreter).wf(),
            resolve_stmts(old(self).state(old(interpreter).locals()), stmts_view(statements@)) == (
            Resolved { state: final(self).state(final(interpreter).locals()), outcome: outcome_view(r) }),
        decreases statements,
    {
        let ghost start = self.state(interpreter.locals());
        let ghost all = stmts_view(statements@);
        proof {
            lemma_stmts_view(statements@);
            assert(all.subrange(0, 0) =~= Seq::<StmtView>::empty());
        }
        let mut i: usize = 0;
        while i < statements.len()
            invariant
                i <= statements@.len(),
                all == stmts_view(statements@),
                all.len() == statements@.len(),
                forall|k: int| 0 <= k < statements@.len() ==> #[trigger] all[k] == statements@[k].view(),
                resolve_stmts(start, all.subrange(0, i as int)) == ok(self.state(interpreter.locals())),
                start == old(self).state(old(interpreter).locals()),
                interpreter.scopes() == old(interpreter).scopes(),
                interpreter.current() == old(interpreter).current(),
                old(interpreter).wf() ==> interpreter.wf(),
            decreases statements@.len() - i,
        {
            proof {
                assert(decreases_to!(*statements => statements@));
                assert(decreases_to!(statements@ => statements@[i as int]));
            }
            let ghost before = all.subrange(0, i + 1);
            proof {
                assert(before.drop_last() =~= all.subrange(0, i as int));
                assert(before.last() == all[i as int]);
            }
            let r = self.resolve_stmt(interpreter, &statements[i]);
            if r.is_err() {
                proof {
                    lemma_stmts_stop(start, all, i + 1);
                }
                return r;
            }
            i = i + 1;
        }
        assert(all.subrange(0, all.len() as int) =~= all);
        Ok(())
    }

    /// Resolves the statement `stmt`, recording depths in `interpreter`.
    pub fn resolve_stmt(&mut self, interpreter: &mut Interpreter, stmt: &StmtEnum) -> (r: Result<
        (),
        RuntimeError,
    >)
        ensures
            final(interpreter).scopes() == old(interpreter).scopes(),
            final(interpreter).current() == old(interpreter).current(),
            old(interpreter).wf() ==> final(interpreter).wf(),
            resolve_stmt(old(self).state(old(interpreter).locals()), stmt.view()) == (Resolved {
                state: final(self).state(final(interpreter).locals()),
                outcome: outcome_view(r),
            }),
        decreases stmt,
    {
        match stmt {
            StmtEnum::Expression(x) => self.resolve_expr(interpreter, &x.expression),
            StmtEnum::Print(p) => self.resolve_expr(interpreter, &p.expression),
            StmtEnum::Var(v) => self.resolve_var(interpreter, v),
            StmtEnum::Block(b) => {
                proof {
                    assert(decreases_to!(*stmt => (*stmt)->Block_0));
                    assert((*stmt)->Block_0 == *b);
                }
                self.resolve_block(interpreter, b)
            },
            StmtEnum::IfStmt(i) => {
                proof {
                    assert(decreases_to!(*stmt => (*stmt)->IfStmt_0));
                    assert((*stmt)->IfStmt_0 == *i);
                }
                self.resolve_if(interpreter, i)
            },
            StmtEnum::WhileStmt(w) => {
                proof {
                    assert(decreases_to!(*stmt => (*stmt)->WhileStmt_0));
                    assert((*stmt)->WhileStmt_0 == *w);
                }
                self.resolve_while(interpreter, w)
            },
            StmtEnum::Function(f) => {
                proof {
                    assert(decreases_to!(*stmt => (*stmt)->Function_0));
                    assert((*stmt)->Function_0 == *f);
                }
                self.resolve_fun(interpreter, f)
            },
            StmtEnum::ReturnStmt(ret) => self.resolve_return(interpreter, ret),
            StmtEnum::Class(c) => {
                let r = self.declare(&c.name);
                if r.is_err() {
                    return r;
                }
                self.define(&c.name);
                Ok(())
            },
        }
    }

    fn resolve_var(&mut self, interpreter: &mut Interpreter, v: &Var) -> (r: Result<(), RuntimeError>)
        ensures
            final(interpreter).scopes() == old(interpreter).scopes(),
            final(interpreter).current() == old(interpreter).current(),
            old(interpreter).wf() ==> final(interpreter).wf(),
            resolve_stmt(old(self).state(old(interpreter).locals()), StmtEnum::Var(*v).view()) == (
            Resolved { state: final(self).state(final(interpreter).locals()), outcome: outcome_view(r) }),
    {
        let r = self.declare(&v.name);
        if r.is_err() {
            return r;
        }
        match &v.initializer {
            Some(init) => {
                let r = self.resolve_expr(interpreter, init);
                if r.is_err() {
                    return r;
                }
            },
            None => {},
        }
        self.define(&v.name);
        Ok(())
    }

    fn resolve_block(&mut self, interpreter: &mut Interpreter, b: &Block) -> (r: Result<(), RuntimeError>)
        ensures
            final(interpreter).scopes() == old(interpreter).scopes(),
            final(interpreter).current() == old(interpreter).current(),
            old(interpreter).wf() ==> final(interpreter).wf(),
            resolve_stmt(old(self).state(old(interpreter).locals()), StmtEnum::Block(*b).view()) == (
            Resolved { state: final(self).state(final(interpreter).locals()), outcome: outcome_view(r) }),
        decreases b,
    {
        let ghost inner = ResolverState {
            scopes: self.state(interpreter.locals()).scopes.push(Seq::empty()),
            ..self.state(interpreter.locals())
        };
        self.begin_scope();
        proof {
            assert(decreases_to!(*b => b.statements));
            lemma_stmts_keep_depth(inner, stmts_view(b.statements@));
        }
        let r = self.resolve(interpreter, &b.statements);
        if r.is_err() {
            return r;
        }
        self.end_scope();
        Ok(())
    }

    fn resolve_if(&mut self, interpreter: &mut Interpreter, i: &IfStmt) -> (r: Result<(), RuntimeError>)
        ensures
            final(interpreter).scopes() == old(interpreter).scopes(),
            final(interpreter).current() == old(interpreter).current(),
            old(interpreter).wf() ==> final(interpreter).wf(),
            resolve_stmt(old(self).state(old(interpreter).locals()), StmtEnum::IfStmt(*i).view()) == (
            Resolved { state: final(self).state(final(interpreter).locals()), outcome: outcome_view(r) }),
        decreases i,
    {
        let r = self.resolve_expr(interpreter, &i.condition);
        if r.is_err() {
            return r;
        }
        proof {
            assert(decreases_to!(*i => i.then_branch));
        }
        let r = self.resolve_stmt(interpreter, &i.then_branch);
        if r.is_err() {
            return r;
        }
        match &i.else_branch {
            Some(e) => {
                proof {
                    assert(decreases_to!(*i => i.else_branch));
                    assert(decreases_to!(i.else_branch => i.else_branch->0));
                }
                self.resolve_stmt(interpreter, e)
            },
            None => Ok(()),
        }
    }

    fn resolve_while(&mut self, interpreter: &mut Interpreter, w: &WhileStmt) -> (r: Result<(), RuntimeError>)
        ensures
            final(interpreter).scopes() == old(interpreter).scopes(),
            final(interpreter).current() == old(interpreter).current(),
            old(interpreter).wf() ==> final(interpreter).wf(),
            resolve_stmt(old(self).state(old(interpreter).locals()), StmtEnum::WhileStmt(*w).view()) == (
            Resolved { state: final(self).state(final(interpreter).locals()), outcome: outcome_view(r) }),
        decreases w,
    {
        let r = self.resolve_expr(interpreter, &w.condition);
        if r.is_err() {
            return r;
        }
        proof {
            assert(decreases_to!(*w => w.body));
        }
        self.resolve_stmt(interpreter, &w.body)
    }

    fn resolve_return(&mut self, interpreter: &mut Interpreter, ret: &ReturnStmt) -> (r: Result<(), RuntimeError>)
        ensures
            final(interpreter).scopes() == old(interpreter).scopes(),
            final(interpreter).current() == old(interpreter).current(),
            old(interpreter).wf() ==> final(interpreter).wf(),
            resolve_stmt(old(self).state(old(interpreter).locals()), StmtEnum::ReturnStmt(*ret).view()) == (
            Resolved { state: final(self).state(final(interpreter).locals()), outcome: outcome_view(r) }),
    {
        if !self.in_function {
            return Err(
                RuntimeError::Error {
                    line: ret.keyword.line,
                    msg: String::from_str("Can't return from top-level code."),
                },
            );
        }
        match &ret.value {
            Some(v) => self.resolve_expr(interpreter, v),
            None => Ok(()),
        }
    }

    fn resolve_fun(&mut self, interpreter: &mut Interpreter, f: &Fun) -> (r: Result<(), RuntimeError>)
        ensures
            final(interpreter).scopes() == old(interpreter).scopes(),
            final(interpreter).current() == old(interpreter).current(),
            old(interpreter).wf() ==> final(interpreter).wf(),
            resolve_stmt(old(self).state(old(interpreter).locals()), StmtEnum::Function(*f).view()) == (
            Resolved { state: final(self).state(final(interpreter).locals()), outcome: outcome_view(r) }),
        decreases f,
    {
        let r = self.declare(&f.name);
        if r.is_err() {
            return r;
        }
        self.define(&f.name);
        let ghost outer = self.state(interpreter.locals());
        self.begin_scope();
        let enclosing = self.in_function;
        self.set_in_function(true);
        let ghost pstart = self.state(interpreter.locals());
        let ghost params = crate::scanner::tokens_view(f.params@);
        proof {
            assert(params.subrange(0, 0) =~= Seq::<TokenView>::empty());
        }
        let mut k: usize = 0;
        while k < f.params.len()
            invariant
                k <= f.params@.len(),
                params == crate::scanner::tokens_view(f.params@),
                params.len() == f.params@.len(),
                forall|j: int| 0 <= j < f.params@.len() ==> #[trigger] params[j] == f.params@[j]@,
                resolve_params(pstart, params.subrange(0, k as int)) == ok(
                    self.state(interpreter.locals()),
                ),
                pstart.scopes.len() == outer.scopes.len() + 1,
                pstart == (ResolverState {
                    scopes: outer.scopes.push(Seq::empty()),
                    in_function: true,
                    ..outer
                }),
                enclosing == outer.in_function,
                resolve_stmt(old(self).state(old(interpreter).locals()), StmtEnum::Function(*f).view())
                    == resolve_function(outer, params, stmts_view(f.body@)),
                self.state(interpreter.locals()).scopes.len() == self.scopes@.len(),
                interpreter.scopes() == old(interpreter).scopes(),
                interpreter.current() == old(interpreter).current(),
                interpreter.locals() == outer.locals,
                old(interpreter).wf() ==> interpreter.wf(),
            decreases f.params@.len() - k,
        {
            let ghost before = params.subrange(0, k + 1);
            proof {
                assert(before.drop_last() =~= params.subrange(0, k as int));
                assert(before.last() == params[k as int]);
            }
            let r = self.declare(&f.params[k]);
            if r.is_err() {
                proof {
                    lemma_params_stop(pstart, params, k + 1);
                }
                return r;
            }
            self.define(&f.params[k]);
            k = k + 1;
        }
        proof {
            assert(params.subrange(0, params.len() as int) =~= params);
            lemma_params_keep_depth(pstart, params);
            lemma_stmts_keep_depth(self.state(interpreter.locals()), stmts_view(f.body@));
            assert(decreases_to!(*f => f.body));
        }
        let r = self.resolve(interpreter, &f.body);
        if r.is_err() {
            return r;
        }
        assert(self.state(interpreter.locals()).scopes.len() == outer.scopes.len() + 1);
        self.set_in_function(enclosing);
        assert(self.state(interpreter.locals()).scopes.len() == outer.scopes.len() + 1);
        assert(self.state(interpreter.locals()).scopes.len() == self.scopes@.len());
        self.end_scope();
        Ok(())
    }

    /// Resolves the expression `e`, recording depths in `interpreter`.
    pub fn resolve_expr(&mut self, interpreter: &mut Interpreter, e: &ExprEnum) -> (r: Result<
        (),
        RuntimeError,
    >)
        ensures
            final(interpreter).scopes() == old(interpreter).scopes(),
            final(interpreter).current() == old(interpreter).current(),
            old(interpreter).wf() ==> final(interpreter).wf(),
            resolve_expr(old(self).state(old(interpreter).locals()), e.view()) == (Resolved {
                state: final(self).state(final(interpreter).locals()),
                outcome: outcome_view(r),
            }),
        decreases e,
    {
        match e {
            ExprEnum::Assign(a) => {
                let r = self.resolve_expr(interpreter, &a.value);
                if r.is_err() {
                    return r;
                }
                let key = LocalKey {
                    assign: true,
                    name: a.name.lexeme.clone(),
                    line: a.name.line,
                    value: Some(a.value.copy()),
                };
                self.resolve_local(interpreter, key, &a.name.lexeme);
                Ok(())
            },
            ExprEnum::Binary(b) => {
                let r = self.resolve_expr(interpreter, &b.left);
                if r.is_err() {
                    return r;
                }
                self.resolve_expr(interpreter, &b.right)
            },
            ExprEnum::Call(c) => {
                let r = self.resolve_expr(interpreter, &c.callee);
                if r.is_err() {
                    return r;
                }
                let ghost start = self.state(interpreter.locals());
                let ghost args = exprs_view(c.args@);
                proof {
                    lemma_exprs_view(c.args@);
                    assert(args.subrange(0, 0) =~= Seq::<ExprView>::empty());
                }
                let mut i: usize = 0;
                while i < c.args.len()
                    invariant
                        i <= c.args@.len(),
                        args == exprs_view(c.args@),
                        args.len() == c.args@.len(),
                        forall|k: int| 0 <= k < c.args@.len() ==> #[trigger] args[k] == c.args@[k].view(),
                        resolve_exprs(start, args.subrange(0, i as int)) == ok(
                            self.state(interpreter.locals()),
                        ),
                        interpreter.scopes() == old(interpreter).scopes(),
                        interpreter.current() == old(interpreter).current(),
                        old(interpreter).wf() ==> interpreter.wf(),
                        *e == ExprEnum::Call(*c),
                        resolve_expr(old(self).state(old(interpreter).locals()), e.view())
                            == resolve_exprs(start, args),
                    decreases c.args@.len() - i,
                {
                    proof {
                        assert(decreases_to!(*e => (*e)->Call_0));
                        assert((*e)->Call_0 == *c);
                        assert(decreases_to!(*c => c.args));
                        assert(decreases_to!(c.args => c.args@));
                        assert(decreases_to!(c.args@ => c.args@[i as int]));
                    }
                    let ghost before = args.subrange(0, i + 1);
                    proof {
                        assert(before.drop_last() =~= args.subrange(0, i as int));
                    }
                    let r = self.resolve_expr(interpreter, &c.args[i]);
                    if r.is_err() {
                        proof {
                            assert(before.last() == args[i as int]);
                            assert(resolve_exprs(start, before).outcome is Err);
                            lemma_exprs_stop(start, args, i + 1);
                            assert(resolve_exprs(start, args) == resolve_exprs(start, before));
                        }
                        return r;
                    }
                    i = i + 1;
                }
                assert(args.subrange(0, args.len() as int) =~= args);
                Ok(())
            },
            ExprEnum::Get(g) => self.resolve_expr(interpreter, &g.object),
            ExprEnum::Grouping(g) => self.resolve_expr(interpreter, &g.expression),
            ExprEnum::Literal(_) => Ok(()),
            ExprEnum::Logical(l) => {
                let r = self.resolve_expr(interpreter, &l.left);
                if r.is_err() {
                    return r;
                }
                self.resolve_expr(interpreter, &l.right)
            },
            ExprEnum::SetExpr(s) => {
                let r = self.resolve_expr(interpreter, &s.value);
                if r.is_err() {
                    return r;
                }
                self.resolve_expr(interpreter, &s.object)
            },
            ExprEnum::Super(s) => {
                let key = LocalKey { assign: false, name: s.keyword.lexeme.clone(), line: s.keyword.line, value: None };
                self.resolve_local(interpreter, key, &s.keyword.lexeme);
                Ok(())
            },
            ExprEnum::This(t) => {
                let key = LocalKey { assign: false, name: t.keyword.lexeme.clone(), line: t.keyword.line, value: None };
                self.resolve_local(interpreter, key, &t.keyword.lexeme);
                Ok(())
            },
            ExprEnum::Unary(u) => self.resolve_expr(interpreter, &u.right),
            ExprEnum::Variable(v) => {
                if self.scopes.len() > 0 {
                    if let Some(false) = self.innermost_flag(&v.name.lexeme) {
                        return Err(
                            RuntimeError::Error {
                                line: v.name.line,
                                msg: String::from_str(
                                    "Can't read local variable in its own initializer.",
                                ),
                            },
                        );
                    }
                }
                let key = LocalKey { assign: false, name: v.name.lexeme.clone(), line: v.name.line, value: None };
                self.resolve_local(interpreter, key, &v.name.lexeme);
                Ok(())
            },
        }
    }
}

/// Resolving an expression changes nothing but the recorded depths.
pub proof fn lemma_expr_keeps_scopes(st: ResolverState, e: ExprView)
    ensures
        resolve_expr(st, e).state.scopes == st.scopes,
        resolve_expr(st, e).state.in_function == st.in_function,
    decreases e, 0nat,
{
    match e {
        ExprView::Assign { value, .. } => lemma_expr_keeps_scopes(st, *value),
        ExprView::Binary { left, right, .. } => {
            lemma_expr_keeps_scopes(st, *left);
            lemma_expr_keeps_scopes(resolve_expr(st, *left).state, *right);
        },
        ExprView::Call { callee, args } => {
            lemma_expr_keeps_scopes(st, *callee);
            lemma_exprs_keep_scopes(resolve_expr(st, *callee).state, args);
        },
        ExprView::Get { object, .. } => lemma_expr_keeps_scopes(st, *object),
        ExprView::Grouping { expression } => lemma_expr_keeps_scopes(st, *expression),
        ExprView::Logical { left, right, .. } => {
            lemma_expr_keeps_scopes(st, *left);
            lemma_expr_keeps_scopes(resolve_expr(st, *left).state, *right);
        },
        ExprView::SetExpr { object, value, .. } => {
            lemma_expr_keeps_scopes(st, *value);
            lemma_expr_keeps_scopes(resolve_expr(st, *value).state, *object);
        },
        ExprView::Unary { right, .. } => lemma_expr_keeps_scopes(st, *right),
        _ => {},
    }
}

/// Resolving expressions changes nothing but the recorded depths.
pub proof fn lemma_exprs_keep_scopes(st: ResolverState, es: Seq<ExprView>)
    ensures
        resolve_exprs(st, es).state.scopes == st.scopes,
        resolve_exprs(st, es).state.in_function == st.in_function,
    decreases es, 0nat,
{
    if es.len() > 0 {
        lemma_exprs_keep_scopes(st, es.drop_last());
        lemma_expr_keeps_scopes(resolve_exprs(st, es.drop_last()).state, es.last());
    }
}

/// Declaring parameters keeps the number of scopes and whether the resolver is in a function.
proof fn lemma_params_keep_depth(st: ResolverState, ps: Seq<TokenView>)
    ensures
        resolve_params(st, ps).state.scopes.len() == st.scopes.len(),
        resolve_params(st, ps).state.in_function == st.in_function,
    decreases ps.len(),
{
    if ps.len() > 0 {
        lemma_params_keep_depth(st, ps.drop_last());
    }
}

/// A statement that resolves leaves as many scopes as it found, and the
/// resolver as much inside a function as it was.
pub proof fn lemma_stmt_keeps_depth(st: ResolverState, s: StmtView)
    ensures
        resolve_stmt(st, s).outcome is Ok ==> resolve_stmt(st, s).state.scopes.len() == st.scopes.len()
            && resolve_stmt(st, s).state.in_function == st.in_function,
    decreases s, 0nat,
{
    match s {
        StmtView::Expression { expression } => lemma_expr_keeps_scopes(st, expression),
        StmtView::Print { expression } => lemma_expr_keeps_scopes(st, expression),
        StmtView::Var { name, initializer } => {
            let d = declared(st, name);
            match initializer {
                Some(e) => lemma_expr_keeps_scopes(d.state, e),
                None => {},
            }
        },
        StmtView::Block { statements } => {
            let inner = ResolverState { scopes: st.scopes.push(Seq::empty()), ..st };
            lemma_stmts_keep_depth(inner, statements);
        },
        StmtView::If { condition, then_branch, else_branch } => {
            lemma_expr_keeps_scopes(st, condition);
            let c = resolve_expr(st, condition);
            lemma_stmt_keeps_depth(c.state, *then_branch);
            match else_branch {
                Some(e) => lemma_stmt_keeps_depth(resolve_stmt(c.state, *then_branch).state, *e),
                None => {},
            }
        },
        StmtView::While { condition, body } => {
            lemma_expr_keeps_scopes(st, condition);
            lemma_stmt_keeps_depth(resolve_expr(st, condition).state, *body);
        },
        StmtView::Function { name, params, body } => {
            let d = declared(st, name);
            lemma_function_keeps_depth(defined(d.state, name), params, body);
        },
        StmtView::Return { value, .. } => {
            match value {
                Some(v) => lemma_expr_keeps_scopes(st, v),
                None => {},
            }
        },
        StmtView::Class { .. } => {},
    }
}

/// Statements that resolve leave as many scopes as they found.
pub proof fn lemma_stmts_keep_depth(st: ResolverState, ss: Seq<StmtView>)
    ensures
        resolve_stmts(st, ss).outcome is Ok ==> resolve_stmts(st, ss).state.scopes.len()
            == st.scopes.len() && resolve_stmts(st, ss).state.in_function == st.in_function,
    decreases ss, 0nat,
{
    if ss.len() > 0 {
        lemma_stmts_keep_depth(st, ss.drop_last());
        lemma_stmt_keeps_depth(resolve_stmts(st, ss.drop_last()).state, ss.last());
    }
}

/// A function that resolves leaves as many scopes as it found.
proof fn lemma_function_keeps_depth(st: ResolverState, params: Seq<TokenView>, body: Seq<StmtView>)
    ensures
        resolve_function(st, params, body).outcome is Ok ==> resolve_function(st, params, body).state.scopes.len()
            == st.scopes.len() && resolve_function(st, params, body).state.in_function == st.in_function,
    decreases body, 1nat,
{
    let inner = ResolverState { scopes: st.scopes.push(Seq::empty()), in_function: true, ..st };
    lemma_params_keep_depth(inner, params);
    lemma_stmts_keep_depth(resolve_params(inner, params).state, body);
}

/// The resolver's state before a program.
pub open spec fn initial_state() -> ResolverState {
    ResolverState { scopes: Seq::empty(), in_function: false, locals: Seq::empty() }
}

/// A program that resolves leaves the resolver at global level, outside any function.
pub proof fn law_program_leaves_global_level(program: Seq<StmtView>)
    requires
        resolve_stmts(initial_state(), program).outcome is Ok,
    ensures
        resolve_stmts(initial_state(), program).state.scopes.len() == 0,
        !resolve_stmts(initial_state(), program).state.in_function,
{
    lemma_stmts_keep_depth(initial_state(), program);
}

/// The depth recorded for a variable names the innermost scope that declares it:
/// that scope declares the name and no scope inside it does.
pub proof fn law_depth_is_innermost_declaration(scopes: Seq<Seq<(Seq<char>, bool)>>, name: Seq<char>)
    ensures
        scope_depth(scopes, name) matches Some(d) ==> {
            &&& d < scopes.len()
            &&& flag(scopes[scopes.len() - 1 - d], name) is Some
            &&& forall|i: int| 0 <= i < d ==> flag(#[trigger] scopes[scopes.len() - 1 - i], name) is None
        },
        scope_depth(scopes, name) is None ==> forall|i: int|
            0 <= i < scopes.len() ==> flag(#[trigger] scopes[i], name) is None,
    decreases scopes.len(),
{
    if scopes.len() > 0 && flag(scopes.last(), name) is None {
        let rest = scopes.drop_last();
        law_depth_is_innermost_declaration(rest, name);
        match scope_depth(rest, name) {
            Some(d) => {
                assert forall|i: int| 0 <= i < d + 1 implies flag(
                    #[trigger] scopes[scopes.len() - 1 - i],
                    name,
                ) is None by {
                    if i > 0 {
                        assert(scopes[scopes.len() - 1 - i] == rest[rest.len() - 1 - (i - 1)]);
                    }
                }
                assert(scopes[scopes.len() - 1 - (d + 1)] == rest[rest.len() - 1 - d]);
            },
            None => {
                assert forall|i: int| 0 <= i < scopes.len() implies flag(#[trigger] scopes[i], name) is None by {
                    if i < rest.len() {
                        assert(scopes[i] == rest[i]);
                    }
                }
            },
        }
    }
}

/// `return` outside any function is refused, at the line of the keyword.
pub proof fn law_top_level_return_refused(st: ResolverState, keyword: TokenView, value: Option<ExprView>)
    requires
        !st.in_function,
    ensures
        resolve_stmt(st, StmtView::Return { keyword, value }) == failed(
            st,
            RuntimeErrorView::Error { line: keyword.line, msg: "Can't return from top-level code."@ },
        ),
{
}

/// In a local scope, `var a = a;` is refused: a variable cannot be read in its own initializer.
pub proof fn law_own_initializer_refused(st: ResolverState, name: TokenView, reference: TokenView)
    requires
        st.scopes.len() > 0,
        flag(st.scopes.last(), name.lexeme) is None,
        reference.lexeme == name.lexeme,
    ensures
        resolve_stmt(
            st,
            StmtView::Var {
                name,
                initializer: Some(ExprView::Variable { name: reference }),
            },
        ).outcome == Err::<(), RuntimeErrorView>(
            RuntimeErrorView::Error {
                line: reference.line,
                msg: "Can't read local variable in its own initializer."@,
            },
        ),
{
    let d = declared(st, name);
    assert(d.state.scopes.last() == st.scopes.last().push((name.lexeme, false)));
    assert(flag(d.state.scopes.last(), name.lexeme) == Some(false));
}

/// In a local scope, declaring a name that the scope declares already is refused.
pub proof fn law_redeclaration_refused(st: ResolverState, name: TokenView, initializer: Option<ExprView>)
    requires
        st.scopes.len() > 0,
        flag(st.scopes.last(), name.lexeme) is Some,
    ensures
        resolve_stmt(st, StmtView::Var { name, initializer }) == failed(
            st,
            RuntimeErrorView::Error {
                line: name.line,
                msg: "Already a variable with this name '"@ + name.lexeme + "' in this scope."@,
            },
        ),
{
}

/// A `while` loop resolves as its condition followed by its body, in the same
/// scope: every variable of the body is placed as if the body stood after the
/// condition as a statement of its own.
pub proof fn law_while_resolves_condition_then_body(st: ResolverState, condition: ExprView, body: StmtView)
    ensures
        resolve_stmt(st, StmtView::While { condition, body: Box::new(body) }) == resolve_stmts(
            st,
            seq![StmtView::Expression { expression: condition }, body],
        ),
{
    let ss = seq![StmtView::Expression { expression: condition }, body];
    lemma_condition_alone(st, condition);
    assert(ss.drop_last() =~= seq![StmtView::Expression { expression: condition }]);
    assert(ss.last() == body);
}

/// Resolving a condition as a statement of its own resolves the expression.
proof fn lemma_condition_alone(st: ResolverState, condition: ExprView)
    ensures
        resolve_stmts(st, seq![StmtView::Expression { expression: condition }]) == resolve_expr(
            st,
            condition,
        ),
{
    let one = seq![StmtView::Expression { expression: condition }];
    assert(one.drop_last() =~= Seq::<StmtView>::empty());
    assert(resolve_stmts(st, Seq::<StmtView>::empty()) == ok(st));
    assert(one.last() == StmtView::Expression { expression: condition });
    assert(resolve_stmt(st, StmtView::Expression { expression: condition }) == resolve_operand(
        st,
        condition,
    ));
    assert(resolve_stmts(st, one) == resolve_stmt(st, one.last()));
}

/// An `if` resolves as its condition followed by its branches, in order, in the
/// same scope.
pub proof fn law_if_resolves_condition_then_branches(
    st: ResolverState,
    condition: ExprView,
    then_branch: StmtView,
    else_branch: Option<StmtView>,
)
    ensures
        resolve_stmt(
            st,
            StmtView::If {
                condition,
                then_branch: Box::new(then_branch),
                else_branch: match else_branch {
                    Some(e) => Some(Box::new(e)),
                    None => None,
                },
            },
        ) == resolve_stmts(
            st,
            match else_branch {
                Some(e) => seq![StmtView::Expression { expression: condition }, then_branch, e],
                None => seq![StmtView::Expression { expression: condition }, then_branch],
            },
        ),
{
    let two = seq![StmtView::Expression { expression: condition }, then_branch];
    lemma_condition_alone(st, condition);
    assert(two.drop_last() =~= seq![StmtView::Expression { expression: condition }]);
    assert(two.last() == then_branch);
    match else_branch {
        Some(e) => {
            let three = seq![StmtView::Expression { expression: condition }, then_branch, e];
            assert(three.drop_last() =~= two);
            assert(three.last() == e);
        },
        None => {},
    }
}

/// Once resolving a prefix of expressions fails, resolving all of them fails the same way.
proof fn lemma_exprs_stop(st: ResolverState, es: Seq<ExprView>, k: int)
    requires
        0 <= k <= es.len(),
        resolve_exprs(st, es.subrange(0, k)).outcome is Err,
    ensures
        resolve_exprs(st, es) == resolve_exprs(st, es.subrange(0, k)),
    decreases es.len(),
{
    if k < es.len() {
        assert(es.drop_last().subrange(0, k) =~= es.subrange(0, k));
        lemma_exprs_stop(st, es.drop_last(), k);
    } else {
        assert(es.subrange(0, k) =~= es);
    }
}

/// Once resolving a prefix of statements fails, resolving all of them fails the same way.
proof fn lemma_stmts_stop(st: ResolverState, ss: Seq<StmtView>, k: int)
    requires
        0 <= k <= ss.len(),
        resolve_stmts(st, ss.subrange(0, k)).outcome is Err,
    ensures
        resolve_stmts(st, ss) == resolve_stmts(st, ss.subrange(0, k)),
    decreases ss.len(),
{
    if k < ss.len() {
        assert(ss.drop_last().subrange(0, k) =~= ss.subrange(0, k));
        lemma_stmts_stop(st, ss.drop_last(), k);
    } else {
        assert(ss.subrange(0, k) =~= ss);
    }
}

/// Once declaring a prefix of parameters fails, declaring all of them fails the same way.
proof fn lemma_params_stop(st: ResolverState, ps: Seq<TokenView>, k: int)
    requires
        0 <= k <= ps.len(),
        resolve_params(st, ps.subrange(0, k)).outcome is Err,
    ensures
        resolve_params(st, ps) == resolve_params(st, ps.subrange(0, k)),
    decreases ps.len(),
{
    if k < ps.len() {
        assert(ps.drop_last().subrange(0, k) =~= ps.subrange(0, k));
        lemma_params_stop(st, ps.drop_last(), k);
    } else {
        assert(ps.subrange(0, k) =~= ps);
    }
}

/// Whether `name` is declared in `scope`, and if so, whether it is defined.
fn flag_of(scope: &Vec<(String, bool)>, name: &String) -> (r: Option<bool>)
    ensures
        r == flag(entries_view(scope@), name@),
{
    let ghost all = entries_view(scope@);
    let mut i = scope.len();
    assert(all.subrange(0, i as int) =~= all);
    while i > 0
        invariant
            i <= scope@.len(),
            all == entries_view(scope@),
            flag(all, name@) == flag(all.subrange(0, i as int), name@),
        decreases i,
    {
        let ghost sub = all.subrange(0, i as int);
        if scope[i - 1].0 == *name {
            return Some(scope[i - 1].1);
        }
        assert(sub.drop_last() =~= all.subrange(0, i - 1));
        i = i - 1;
    }
    None
}

} // verus!
