//! Variable scopes. Every scope has a number in one store; a scope made while
//! another is current encloses nothing but older scopes, so the chain from any
//! scope to the globals is finite.
use vstd::prelude::*;
use crate::error::{RuntimeError, RuntimeErrorView};
use crate::token::Token;
use crate::value::{Object, ObjectView};

verus! {

/// The abstract value of a scope: the scope that encloses it, and its variables.
pub struct ScopeView {
    pub enclosing: Option<nat>,
    pub values: Map<Seq<char>, ObjectView>,
}

/// Each scope but the first is enclosed by an older one.
pub open spec fn chain_ordered(scopes: Seq<ScopeView>) -> bool {
    forall|k: int|
        0 <= k < scopes.len() ==> match (#[trigger] scopes[k]).enclosing {
            Some(p) => p < k,
            None => true,
        }
}

/// The scope, on the chain that starts at `id`, that holds `name`: the first
/// one, going outwards.
pub open spec fn holder(scopes: Seq<ScopeView>, id: nat, name: Seq<char>) -> Option<nat>
    decreases id,
{
    if id >= scopes.len() {
        None
    } else if scopes[id as int].values.contains_key(name) {
        Some(id)
    } else {
        match scopes[id as int].enclosing {
            Some(p) => if p < id {
                holder(scopes, p, name)
            } else {
                None
            },
            None => None,
        }
    }
}

/// The value of `name` as seen from scope `id`.
pub open spec fn lookup(scopes: Seq<ScopeView>, id: nat, name: Seq<char>) -> Option<ObjectView> {
    match holder(scopes, id, name) {
        Some(k) => Some(scopes[k as int].values[name]),
        None => None,
    }
}

/// The scope `distance` steps out from scope `id`.
pub open spec fn ancestor(scopes: Seq<ScopeView>, id: nat, distance: nat) -> Option<nat>
    decreases distance,
{
    if id >= scopes.len() {
        None
    } else if distance == 0 {
        Some(id)
    } else {
        match scopes[id as int].enclosing {
            Some(p) => ancestor(scopes, p, (distance - 1) as nat),
            None => None,
        }
    }
}

/// The scopes after `name` is bound to `value` in scope `id`.
pub open spec fn bound(scopes: Seq<ScopeView>, id: nat, name: Seq<char>, value: ObjectView) -> Seq<
    ScopeView,
> {
    scopes.update(
        id as int,
        ScopeView {
            enclosing: scopes[id as int].enclosing,
            values: scopes[id as int].values.insert(name, value),
        },
    )
}

/// The error for a variable that no scope holds.
pub open spec fn undefined(name: Seq<char>) -> RuntimeErrorView {
    RuntimeErrorView::UndefinedVariable { name }
}

// ---------------------------------------------------------------------------
// One scope
// ---------------------------------------------------------------------------

/// A variable and its value.
struct Binding {
    name: String,
    value: Object,
}

/// One scope: the number of the scope that encloses it, and its variables,
/// each name at most once.
pub(crate) struct Scope {
    enclosing: Option<usize>,
    bindings: Vec<Binding>,
}

/// The names and values of bindings.
spec fn pairs(b: Seq<Binding>) -> Seq<(Seq<char>, ObjectView)> {
    Seq::new(b.len(), |i: int| (b[i].name@, b[i].value@))
}

/// No name occurs twice.
spec fn names_unique(p: Seq<(Seq<char>, ObjectView)>) -> bool {
    forall|i: int, j: int| 0 <= i < j < p.len() ==> (#[trigger] p[i]).0 != (#[trigger] p[j]).0
}

/// Where `name` is bound.
spec fn has_name(p: Seq<(Seq<char>, ObjectView)>, name: Seq<char>) -> bool {
    exists|i: int| 0 <= i < p.len() && (#[trigger] p[i]).0 == name
}

/// The map of names to values.
spec fn as_map(p: Seq<(Seq<char>, ObjectView)>) -> Map<Seq<char>, ObjectView> {
    Map::new(
        |n: Seq<char>| has_name(p, n),
        |n: Seq<char>| p[choose|i: int| 0 <= i < p.len() && (#[trigger] p[i]).0 == n].1,
    )
}

proof fn lemma_as_map_at(p: Seq<(Seq<char>, ObjectView)>, i: int)
    requires
        names_unique(p),
        0 <= i < p.len(),
    ensures
        as_map(p).contains_key(p[i].0),
        as_map(p)[p[i].0] == p[i].1,
{
    let n = p[i].0;
    assert(has_name(p, n));
    let j = choose|j: int| 0 <= j < p.len() && (#[trigger] p[j]).0 == n;
    if j != i {
        if j < i {
            assert(p[j].0 != p[i].0);
        } else {
            assert(p[i].0 != p[j].0);
        }
    }
}

proof fn lemma_as_map_update(p: Seq<(Seq<char>, ObjectView)>, i: int, v: ObjectView)
    requires
        names_unique(p),
        0 <= i < p.len(),
    ensures
        names_unique(p.update(i, (p[i].0, v))),
        as_map(p.update(i, (p[i].0, v))) == as_map(p).insert(p[i].0, v),
{
    let q = p.update(i, (p[i].0, v));
    assert forall|a: int, b: int| 0 <= a < b < q.len() implies (#[trigger] q[a]).0 != (
    #[trigger] q[b]).0 by {
        assert(q[a].0 == p[a].0);
        assert(q[b].0 == p[b].0);
    }
    assert forall|n: Seq<char>| #[trigger] has_name(q, n) == has_name(p, n) by {
        if has_name(q, n) {
            let k = choose|k: int| 0 <= k < q.len() && (#[trigger] q[k]).0 == n;
            assert(p[k].0 == n);
        }
        if has_name(p, n) {
            let k = choose|k: int| 0 <= k < p.len() && (#[trigger] p[k]).0 == n;
            assert(q[k].0 == n);
        }
    }
    assert forall|n: Seq<char>| as_map(q).contains_key(n) implies as_map(q)[n] == as_map(
        p,
    ).insert(p[i].0, v)[n] by {
        let k = choose|k: int| 0 <= k < q.len() && (#[trigger] q[k]).0 == n;
        lemma_as_map_at(q, k);
        if k != i {
            lemma_as_map_at(p, k);
        }
    }
    assert(as_map(q) =~= as_map(p).insert(p[i].0, v));
}

proof fn lemma_as_map_push(p: Seq<(Seq<char>, ObjectView)>, n: Seq<char>, v: ObjectView)
    requires
        names_unique(p),
        !has_name(p, n),
    ensures
        names_unique(p.push((n, v))),
        as_map(p.push((n, v))) == as_map(p).insert(n, v),
{
    let q = p.push((n, v));
    assert forall|a: int, b: int| 0 <= a < b < q.len() implies (#[trigger] q[a]).0 != (
    #[trigger] q[b]).0 by {
        if b == p.len() {
            assert(p[a].0 != n);
        } else {
            assert(p[a].0 != p[b].0);
        }
    }
    assert forall|m: Seq<char>| #[trigger] has_name(q, m) == (has_name(p, m) || m == n) by {
        if has_name(q, m) {
            let k = choose|k: int| 0 <= k < q.len() && (#[trigger] q[k]).0 == m;
            if k < p.len() {
                assert(p[k].0 == m);
            }
        }
        if has_name(p, m) {
            let k = choose|k: int| 0 <= k < p.len() && (#[trigger] p[k]).0 == m;
            assert(q[k].0 == m);
        }
        if m == n {
            assert(q[p.len() as int].0 == m);
        }
    }
    assert forall|m: Seq<char>| as_map(q).contains_key(m) implies as_map(q)[m] == as_map(
        p,
    ).insert(n, v)[m] by {
        let k = choose|k: int| 0 <= k < q.len() && (#[trigger] q[k]).0 == m;
        lemma_as_map_at(q, k);
        if k < p.len() {
            assert(p[k] == q[k]);
            lemma_as_map_at(p, k);
        }
    }
    assert(as_map(q) =~= as_map(p).insert(n, v));
}

impl Scope {
    pub(crate) closed spec fn wf(&self) -> bool {
        names_unique(pairs(self.bindings@))
    }

    pub(crate) closed spec fn view(&self) -> ScopeView {
        ScopeView {
            enclosing: match self.enclosing {
                Some(p) => Some(p as nat),
                None => None,
            },
            values: as_map(pairs(self.bindings@)),
        }
    }

    pub(crate) fn empty(enclosing: Option<usize>) -> (s: Scope)
        ensures
            s.wf(),
            s.view().enclosing == (match enclosing {
                Some(p) => Some(p as nat),
                None => None::<nat>,
            }),
            s.view().values == Map::<Seq<char>, ObjectView>::empty(),
    {
        let s = Scope { enclosing, bindings: Vec::new() };
        assert(as_map(pairs(s.bindings@)) =~= Map::<Seq<char>, ObjectView>::empty());
        s
    }

    /// The position of the binding of `name`.
    fn find(&self, name: &String) -> (r: Option<usize>)
        requires
            self.wf(),
        ensures
            match r {
                Some(i) => i < self.bindings@.len() && self.bindings@[i as int].name@ == name@,
                None => !has_name(pairs(self.bindings@), name@),
            },
    {
        let mut i: usize = 0;
        while i < self.bindings.len()
            invariant
                i <= self.bindings@.len(),
                forall|k: int| 0 <= k < i ==> (#[trigger] self.bindings@[k]).name@ != name@,
            decreases self.bindings@.len() - i,
        {
            if self.bindings[i].name == *name {
                return Some(i);
            }
            i = i + 1;
        }
        proof {
            let p = pairs(self.bindings@);
            if has_name(p, name@) {
                let k = choose|k: int| 0 <= k < p.len() && (#[trigger] p[k]).0 == name@;
                assert(self.bindings@[k].name@ != name@);
            }
        }
        None
    }

    /// The value of `name` in this scope.
    pub(crate) fn get(&self, name: &String) -> (r: Option<Object>)
        requires
            self.wf(),
        ensures
            match r {
                Some(v) => self.view().values.contains_key(name@) && self.view().values[name@]
                    == v@,
                None => !self.view().values.contains_key(name@),
            },
    {
        match self.find(name) {
            Some(i) => {
                proof {
                    lemma_as_map_at(pairs(self.bindings@), i as int);
                }
                Some(self.bindings[i].value.copy())
            },
            None => None,
        }
    }

    /// Binds `name` to `value` in this scope, over an earlier binding of the name.
    pub(crate) fn define(&mut self, name: String, value: Object)
        requires
            old(self).wf(),
        ensures
            final(self).wf(),
            final(self).view().enclosing == old(self).view().enclosing,
            final(self).view().values == old(self).view().values.insert(name@, value@),
    {
        let ghost p = pairs(self.bindings@);
        match self.find(&name) {
            Some(i) => {
                let ghost nv = name@;
                self.bindings[i].value = value;
                proof {
                    lemma_as_map_update(p, i as int, value@);
                    assert(pairs(self.bindings@) =~= p.update(i as int, (p[i as int].0, value@)));
                }
            },
            None => {
                let ghost nv = name@;
                let ghost vv = value@;
                self.bindings.push(Binding { name, value });
                proof {
                    lemma_as_map_push(p, nv, vv);
                    assert(pairs(self.bindings@) =~= p.push((nv, vv)));
                }
            },
        }
    }
}

// ---------------------------------------------------------------------------
// The store of scopes
// ---------------------------------------------------------------------------

/// All scopes of a running program. Scope 0 holds the globals.
pub struct Environment {
    scopes: Vec<Scope>,
}

impl View for Environment {
    type V = Seq<ScopeView>;

    closed spec fn view(&self) -> Seq<ScopeView> {
        Seq::new(self.scopes@.len(), |i: int| self.scopes@[i].view())
    }
}

impl Environment {
    /// Every scope is well formed and enclosed by an older one, and there is a
    /// global scope.
    pub closed spec fn wf(&self) -> bool {
        &&& self.scopes@.len() > 0
        &&& forall|k: int| 0 <= k < self.scopes@.len() ==> (#[trigger] self.scopes@[k]).wf()
        &&& forall|k: int|
            0 <= k < self.scopes@.len() ==> match (#[trigger] self.scopes@[k]).enclosing {
                Some(p) => p < k,
                None => true,
            }
    }

    /// A well-formed store has a global scope and its chains go outwards.
    pub proof fn lemma_wf(&self)
        requires
            self.wf(),
        ensures
            self@.len() > 0,
            chain_ordered(self@),
    {
        assert forall|k: int| 0 <= k < self@.len() implies match (#[trigger] self@[k]).enclosing {
            Some(p) => p < k,
            None => true,
        } by {
            assert(self@[k] == self.scopes@[k].view());
        }
    }

    /// A store with one empty global scope.
    pub fn new() -> (e: Environment)
        ensures
            e.wf(),
            e@ == seq![ScopeView { enclosing: None, values: Map::empty() }],
    {
        let mut scopes: Vec<Scope> = Vec::new();
        scopes.push(Scope::empty(None));
        let e = Environment { scopes };
        assert(e@ =~= seq![ScopeView { enclosing: None, values: Map::empty() }]);
        e
    }

    /// The number of scopes.
    pub fn len(&self) -> (n: usize)
        ensures
            n == self@.len(),
    {
        self.scopes.len()
    }

    /// Makes a new empty scope enclosed by scope `enclosing`, and returns its number.
    pub fn new_scope(&mut self, enclosing: usize) -> (id: usize)
        requires
            old(self).wf(),
            enclosing < old(self)@.len(),
            old(self)@.len() < usize::MAX,
        ensures
            final(self).wf(),
            id == old(self)@.len(),
            final(self)@ == old(self)@.push(
                ScopeView { enclosing: Some(enclosing as nat), values: Map::empty() },
            ),
    {
        let id = self.scopes.len();
        self.scopes.push(Scope::empty(Some(enclosing)));
        assert(self@ =~= old(self)@.push(
            ScopeView { enclosing: Some(enclosing as nat), values: Map::empty() },
        ));
        id
    }

    /// Binds `name` in scope `scope` to `value`, or to `nil` where there is none,
    /// over an earlier binding of the name in that scope.
    pub fn define(&mut self, scope: usize, name: String, value: Option<Object>)
        requires
            old(self).wf(),
            scope < old(self)@.len(),
        ensures
            final(self).wf(),
            final(self)@.len() == old(self)@.len(),
            final(self)@ == bound(
                old(self)@,
                scope as nat,
                name@,
                match value {
                    Some(v) => v@,
                    None => ObjectView::Null,
                },
            ),
    {
        let v = match value {
            Some(v) => v,
            None => Object::Null,
        };
        let ghost vv = v@;
        let ghost nv = name@;
        self.scopes[scope].define(name, v);
        assert(self@ =~= bound(old(self)@, scope as nat, nv, vv));
    }

    /// The value of `name` as seen from scope `scope`: that of the innermost
    /// scope on its chain that holds the name.
    pub fn get(&self, scope: usize, name: &Token) -> (r: Result<Object, RuntimeError>)
        requires
            self.wf(),
        ensures
            match lookup(self@, scope as nat, name.lexeme@) {
                Some(v) => r matches Ok(o) && o@ == v,
                None => r matches Err(e) && e@ == undefined(name.lexeme@),
            },
    {
        match self.find_holder(scope, &name.lexeme) {
            Some(k) => {
                let r = self.scopes[k].get(&name.lexeme);
                match r {
                    Some(v) => Ok(v),
                    None => Err(RuntimeError::UndefinedVariable { name: name.lexeme.clone() }),
                }
            },
            None => Err(RuntimeError::UndefinedVariable { name: name.lexeme.clone() }),
        }
    }

    /// Gives `name` the value `value` in the innermost scope, on the chain of
    /// scope `scope`, that holds it; where none does, the store is unchanged.
    pub fn assign(&mut self, scope: usize, name: &Token, value: Object) -> (r: Result<
        (),
        RuntimeError,
    >)
        requires
            old(self).wf(),
        ensures
            final(self).wf(),
            final(self)@.len() == old(self)@.len(),
            match holder(old(self)@, scope as nat, name.lexeme@) {
                Some(k) => r is Ok && final(self)@ == bound(old(self)@, k, name.lexeme@, value@),
                None => r matches Err(e) && e@ == undefined(name.lexeme@) && final(self)@ == old(
                    self,
                )@,
            },
    {
        match self.find_holder(scope, &name.lexeme) {
            Some(k) => {
                let ghost vv = value@;
                self.scopes[k].define(name.lexeme.clone(), value);
                assert(self@ =~= bound(old(self)@, k as nat, name.lexeme@, vv));
                Ok(())
            },
            None => Err(RuntimeError::UndefinedVariable { name: name.lexeme.clone() }),
        }
    }

    /// The number of the scope `distance` steps out from scope `scope`.
    pub fn ancestor(&self, scope: usize, distance: usize) -> (r: Option<usize>)
        requires
            self.wf(),
        ensures
            match r {
                Some(a) => ancestor(self@, scope as nat, distance as nat) == Some(a as nat),
                None => ancestor(self@, scope as nat, distance as nat) is None,
            },
    {
        if scope >= self.scopes.len() {
            return None;
        }
        let mut cur = scope;
        let mut d = distance;
        while d > 0
            invariant
                self.wf(),
                cur < self@.len(),
                ancestor(self@, scope as nat, distance as nat) == ancestor(
                    self@,
                    cur as nat,
                    d as nat,
                ),
            decreases d,
        {
            assert(self@[cur as int] == self.scopes@[cur as int].view());
            match self.scopes[cur].enclosing {
                Some(p) => {
                    assert(self.scopes@[cur as int].enclosing == Some(p));
                    cur = p;
                    d = d - 1;
                },
                None => {
                    return None;
                },
            }
        }
        Some(cur)
    }

    /// The value of `name` in the scope `distance` steps out from scope `scope`.
    pub fn get_at(&self, scope: usize, distance: usize, name: &Token) -> (r: Result<
        Object,
        RuntimeError,
    >)
        requires
            self.wf(),
        ensures
            match ancestor(self@, scope as nat, distance as nat) {
                Some(a) if self@[a as int].values.contains_key(name.lexeme@) => r matches Ok(o)
                    && o@ == self@[a as int].values[name.lexeme@],
                _ => r matches Err(e) && e@ == undefined(name.lexeme@),
            },
    {
        match self.ancestor(scope, distance) {
            Some(a) => {
                proof {
                    self.lemma_ancestor_in_range(scope as nat, distance as nat);
                }
                assert(self@[a as int] == self.scopes@[a as int].view());
                match self.scopes[a].get(&name.lexeme) {
                    Some(v) => Ok(v),
                    None => Err(RuntimeError::UndefinedVariable { name: name.lexeme.clone() }),
                }
            },
            None => Err(RuntimeError::UndefinedVariable { name: name.lexeme.clone() }),
        }
    }

    /// Binds `name` to `value` in the scope `distance` steps out from scope `scope`.
    pub fn assign_at(&mut self, scope: usize, distance: usize, name: &Token, value: Object) -> (r:
        Result<(), RuntimeError>)
        requires
            old(self).wf(),
        ensures
            final(self).wf(),
            final(self)@.len() == old(self)@.len(),
            match ancestor(old(self)@, scope as nat, distance as nat) {
                Some(a) => r is Ok && final(self)@ == bound(old(self)@, a, name.lexeme@, value@),
                None => r matches Err(e) && e@ == undefined(name.lexeme@) && final(self)@ == old(
                    self,
                )@,
            },
    {
        match self.ancestor(scope, distance) {
            Some(a) => {
                proof {
                    self.lemma_ancestor_in_range(scope as nat, distance as nat);
                }
                let ghost vv = value@;
                self.scopes[a].define(name.lexeme.clone(), value);
                assert(self@ =~= bound(old(self)@, a as nat, name.lexeme@, vv));
                Ok(())
            },
            None => Err(RuntimeError::UndefinedVariable { name: name.lexeme.clone() }),
        }
    }

    proof fn lemma_ancestor_in_range(&self, id: nat, distance: nat)
        requires
            self.wf(),
        ensures
            ancestor(self@, id, distance) matches Some(a) ==> a < self@.len(),
        decreases distance,
    {
        if id < self@.len() && distance > 0 {
            match self@[id as int].enclosing {
                Some(p) => self.lemma_ancestor_in_range(p, (distance - 1) as nat),
                None => {},
            }
        }
    }

    /// The innermost scope, on the chain of scope `scope`, that holds `name`.
    fn find_holder(&self, scope: usize, name: &String) -> (r: Option<usize>)
        requires
            self.wf(),
        ensures
            match r {
                Some(k) => holder(self@, scope as nat, name@) == Some(k as nat) && k < self@.len()
                    && self@[k as int].values.contains_key(name@),
                None => holder(self@, scope as nat, name@) is None,
            },
    {
        if scope >= self.scopes.len() {
            return None;
        }
        let mut cur = scope;
        loop
            invariant
                self.wf(),
                cur < self@.len(),
                holder(self@, scope as nat, name@) == holder(self@, cur as nat, name@),
            decreases cur,
        {
            assert(self@[cur as int] == self.scopes@[cur as int].view());
            match self.scopes[cur].find(name) {
                Some(i) => {
                    proof {
                        lemma_as_map_at(pairs(self.scopes@[cur as int].bindings@), i as int);
                    }
                    return Some(cur);
                },
                None => {
                    match self.scopes[cur].enclosing {
                        Some(p) => {
                            cur = p;
                        },
                        None => {
                            return None;
                        },
                    }
                },
            }
        }
    }
}

// ---------------------------------------------------------------------------
// Laws
// ---------------------------------------------------------------------------

/// Binding a name changes no other name's holder.
proof fn lemma_holder_other_name(s: Seq<ScopeView>, k: nat, name: Seq<char>, v: ObjectView, id: nat, other: Seq<char>)
    requires
        k < s.len(),
        other != name,
    ensures
        holder(bound(s, k, name, v), id, other) == holder(s, id, other),
    decreases id,
{
    let t = bound(s, k, name, v);
    if id < s.len() {
        assert(t[id as int].values.contains_key(other) == s[id as int].values.contains_key(other));
        assert(t[id as int].enclosing == s[id as int].enclosing);
        match s[id as int].enclosing {
            Some(p) => if p < id {
                lemma_holder_other_name(s, k, name, v, p, other);
            },
            None => {},
        }
    }
}

/// Binding a name in the scope that holds it keeps that scope its holder.
proof fn lemma_holder_kept(s: Seq<ScopeView>, k: nat, name: Seq<char>, v: ObjectView, id: nat)
    requires
        holder(s, id, name) == Some(k),
    ensures
        holder(bound(s, k, name, v), id, name) == Some(k),
    decreases id,
{
    let t = bound(s, k, name, v);
    lemma_holder_in_range(s, id, name);
    if id < s.len() && id != k {
        assert(t[id as int] == s[id as int]);
        match s[id as int].enclosing {
            Some(p) => if p < id {
                lemma_holder_kept(s, k, name, v, p);
            },
            None => {},
        }
    }
}

/// Binding a name in a scope leaves the holders seen from older scopes unchanged.
proof fn lemma_holder_older(s: Seq<ScopeView>, k: nat, name: Seq<char>, v: ObjectView, id: nat, n: Seq<char>)
    requires
        k < s.len(),
        id < k,
    ensures
        holder(bound(s, k, name, v), id, n) == holder(s, id, n),
    decreases id,
{
    let t = bound(s, k, name, v);
    assert(t[id as int] == s[id as int]);
    match s[id as int].enclosing {
        Some(p) => if p < id {
            lemma_holder_older(s, k, name, v, p, n);
        },
        None => {},
    }
}

/// After `define(scope, name, v)`, `get(scope, name)` gives `v`.
pub proof fn law_get_after_define(s: Seq<ScopeView>, scope: nat, name: Seq<char>, v: ObjectView)
    requires
        scope < s.len(),
    ensures
        lookup(bound(s, scope, name, v), scope, name) == Some(v),
{
}

/// Defining one name changes what no other name reads, from any scope.
pub proof fn law_define_keeps_other_names(
    s: Seq<ScopeView>,
    scope: nat,
    name: Seq<char>,
    v: ObjectView,
    from: nat,
    other: Seq<char>,
)
    requires
        scope < s.len(),
        other != name,
    ensures
        lookup(bound(s, scope, name, v), from, other) == lookup(s, from, other),
{
    lemma_holder_other_name(s, scope, name, v, from, other);
    lemma_holder_in_range(s, from, other);
}

/// A successful `assign(scope, name, v)` is seen by `get(scope, name)`: it gives `v`.
pub proof fn law_get_after_assign(s: Seq<ScopeView>, scope: nat, name: Seq<char>, v: ObjectView)
    requires
        holder(s, scope, name) is Some,
    ensures
        lookup(bound(s, holder(s, scope, name)->0, name, v), scope, name) == Some(v),
{
    let k = holder(s, scope, name)->0;
    lemma_holder_in_range(s, scope, name);
    lemma_holder_kept(s, k, name, v, scope);
}

proof fn lemma_holder_in_range(s: Seq<ScopeView>, id: nat, name: Seq<char>)
    ensures
        holder(s, id, name) matches Some(k) ==> k < s.len() && k <= id && s[
            k as int
        ].values.contains_key(name),
    decreases id,
{
    if id < s.len() && !s[id as int].values.contains_key(name) {
        match s[id as int].enclosing {
            Some(p) => if p < id {
                lemma_holder_in_range(s, p, name);
            },
            None => {},
        }
    }
}

/// `assign` fails exactly where `get` fails: on a name that no scope on the chain holds.
pub proof fn law_assign_fails_iff_get_fails(s: Seq<ScopeView>, scope: nat, name: Seq<char>)
    ensures
        (holder(s, scope, name) is None) == (lookup(s, scope, name) is None),
{
}

/// A new scope sees, for every name, what the scope that encloses it sees.
pub proof fn law_new_scope_sees_enclosing(s: Seq<ScopeView>, enclosing: nat, name: Seq<char>)
    requires
        enclosing < s.len(),
    ensures
        lookup(
            s.push(ScopeView { enclosing: Some(enclosing), values: Map::empty() }),
            s.len(),
            name,
        ) == lookup(s, enclosing, name),
{
    let t = s.push(ScopeView { enclosing: Some(enclosing), values: Map::empty() });
    lemma_holder_prefix(s, t, enclosing, name);
    lemma_holder_in_range(s, enclosing, name);
    assert(t[s.len() as int].enclosing == Some(enclosing));
    assert(!t[s.len() as int].values.contains_key(name));
}

proof fn lemma_holder_prefix(s: Seq<ScopeView>, t: Seq<ScopeView>, id: nat, name: Seq<char>)
    requires
        s.len() <= t.len(),
        forall|i: int| 0 <= i < s.len() ==> t[i] == s[i],
        id < s.len(),
    ensures
        holder(t, id, name) == holder(s, id, name),
    decreases id,
{
    assert(t[id as int] == s[id as int]);
    match s[id as int].enclosing {
        Some(p) => if p < id {
            lemma_holder_prefix(s, t, p, name);
        },
        None => {},
    }
}

/// A variable defined in an inner scope is not seen from the scopes that were
/// there before it: defining shadows, it does not overwrite.
pub proof fn law_define_shadows(s: Seq<ScopeView>, scope: nat, name: Seq<char>, v: ObjectView, outer: nat, n: Seq<char>)
    requires
        scope < s.len(),
        outer < scope,
    ensures
        lookup(bound(s, scope, name, v), outer, n) == lookup(s, outer, n),
{
    lemma_holder_older(s, scope, name, v, outer, n);
    lemma_holder_in_range(s, outer, n);
}

/// Zero steps out from a scope is the scope itself, so `get_at(scope, 0, name)`
/// reads the scope's own binding.
pub proof fn law_scope_zero_steps(s: Seq<ScopeView>, scope: nat)
    requires
        scope < s.len(),
    ensures
        ancestor(s, scope, 0) == Some(scope),
{
}

/// `get_at` one step further out is `get_at` from the enclosing scope.
pub proof fn law_ancestor_step(s: Seq<ScopeView>, scope: nat, distance: nat)
    requires
        scope < s.len(),
        s[scope as int].enclosing is Some,
    ensures
        ancestor(s, scope, distance + 1) == ancestor(s, s[scope as int].enclosing->0, distance),
{
}

} // verus!
