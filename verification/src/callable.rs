//! What can be called: user functions, classes and the native clock; and the
//! instances that classes make.
//!
//! A function's body is run by the caller of these types; here stands what a
//! call decides around it: the scope in which the body runs, what the call
//! gives back, how a method is bound to its instance, and how a property is found.
use vstd::prelude::*;
use crate::ast::{lemma_stmts_view, stmts_view, Fun, StmtEnum, StmtView};
use crate::scanner::tokens_view;
use crate::environment::{ancestor, bound, Scope, ScopeView};
use crate::error::{RuntimeError, RuntimeErrorView};
use crate::interpreter::Interpreter;
use crate::token::{Token, TokenType};
use crate::value::{Object, ObjectView};

verus! {

/// The abstract value of a function.
pub struct FunctionView {
    pub declaration: nat,
    pub name: Seq<char>,
    pub params: Seq<Seq<char>>,
    pub closure: nat,
    pub is_initializer: bool,
}

/// A user function: which declaration of the program it runs, its name and
/// parameters, the scope where it was declared, and whether it is a class's
/// `init` method.
#[derive(Debug)]
pub struct Function {
    pub declaration: usize,
    pub name: String,
    pub params: Vec<String>,
    pub closure: usize,
    pub is_initializer: bool,
}

impl View for Function {
    type V = FunctionView;

    open spec fn view(&self) -> FunctionView {
        FunctionView {
            declaration: self.declaration as nat,
            name: self.name@,
            params: Seq::new(self.params@.len(), |i: int| self.params@[i]@),
            closure: self.closure as nat,
            is_initializer: self.is_initializer,
        }
    }
}

/// The names of a declaration's parameters.
pub open spec fn param_names(params: Seq<Token>) -> Seq<Seq<char>> {
    Seq::new(params.len(), |i: int| params[i].lexeme@)
}

/// The scopes after a call's arguments are bound to the parameters in scope
/// `scope`: the first `k` parameters, each to its argument.
pub open spec fn bind_params(
    scopes: Seq<ScopeView>,
    scope: nat,
    params: Seq<Seq<char>>,
    args: Seq<ObjectView>,
    k: nat,
) -> Seq<ScopeView>
    decreases k,
{
    if k == 0 {
        scopes
    } else {
        bound(
            bind_params(scopes, scope, params, args, (k - 1) as nat),
            scope,
            params[k - 1],
            args[k - 1],
        )
    }
}

/// The smaller of two numbers.
pub open spec fn min(a: nat, b: nat) -> nat {
    if a <= b {
        a
    } else {
        b
    }
}

/// The token by which an initializer reads its instance.
pub open spec fn this_name() -> Seq<char> {
    "this"@
}

impl Function {
    /// The function that declaration number `declaration`, `fun`, makes in
    /// scope `closure`.
    pub fn new(declaration: usize, fun: &Fun, closure: usize, is_initializer: bool) -> (f: Function)
        ensures
            f@ == (FunctionView {
                declaration: declaration as nat,
                name: fun.name.lexeme@,
                params: param_names(fun.params@),
                closure: closure as nat,
                is_initializer,
            }),
    {
        let mut params: Vec<String> = Vec::new();
        let mut i: usize = 0;
        while i < fun.params.len()
            invariant
                i <= fun.params@.len(),
                params@.len() == i,
                forall|k: int| 0 <= k < i ==> (#[trigger] params@[k])@ == fun.params@[k].lexeme@,
            decreases fun.params@.len() - i,
        {
            params.push(fun.params[i].lexeme.clone());
            i = i + 1;
        }
        let f = Function {
            declaration,
            name: fun.name.lexeme.clone(),
            params,
            closure,
            is_initializer,
        };
        assert(f@.params =~= param_names(fun.params@));
        f
    }

    /// A copy of this function.
    pub fn copy(&self) -> (f: Function)
        ensures
            f@ == self@,
    {
        let mut params: Vec<String> = Vec::new();
        let mut i: usize = 0;
        while i < self.params.len()
            invariant
                i <= self.params@.len(),
                params@.len() == i,
                forall|k: int| 0 <= k < i ==> (#[trigger] params@[k])@ == self.params@[k]@,
            decreases self.params@.len() - i,
        {
            params.push(self.params[i].clone());
            i = i + 1;
        }
        let f = Function {
            declaration: self.declaration,
            name: self.name.clone(),
            params,
            closure: self.closure,
            is_initializer: self.is_initializer,
        };
        assert(f@.params =~= self@.params);
        f
    }

    /// The number of arguments that a call passes.
    pub fn arity(&self) -> (n: usize)
        ensures
            n == self@.params.len(),
    {
        self.params.len()
    }

    /// The text that shows this function: `<fn name>`.
    pub fn to_display_string(&self) -> (s: String)
        ensures
            s@ == "<fn "@ + self@.name + ">"@,
    {
        let mut s = String::from_str("<fn ");
        s.append(self.name.as_str());
        s.append(">");
        s
    }

    /// This method bound to `instance`: the same function, declared in a new
    /// scope, enclosed by its own, where `this` is `instance`.
    pub fn bind(&self, interpreter: &mut Interpreter, instance: Object) -> (f: Function)
        requires
            old(interpreter).wf(),
            self.closure < old(interpreter).scopes().len(),
            old(interpreter).scopes().len() < usize::MAX,
        ensures
            final(interpreter).wf(),
            final(interpreter).scopes() == bound(
                old(interpreter).scopes().push(
                    ScopeView { enclosing: Some(self.closure as nat), values: Map::empty() },
                ),
                old(interpreter).scopes().len(),
                this_name(),
                instance@,
            ),
            final(interpreter).current() == old(interpreter).current(),
            final(interpreter).locals() == old(interpreter).locals(),
            f@ == (FunctionView { closure: old(interpreter).scopes().len(), ..self@ }),
    {
        let scope = interpreter.new_scope(self.closure);
        interpreter.define_in(scope, String::from_str("this"), instance);
        let mut f = self.copy();
        f.closure = scope;
        f
    }

    /// The scope in which a call runs the body: a new one, enclosed by the
    /// function's own, where each parameter is bound to its argument (as many
    /// as there are of both).
    pub fn call_scope(&self, interpreter: &mut Interpreter, args: Vec<Object>) -> (scope: usize)
        requires
            old(interpreter).wf(),
            self.closure < old(interpreter).scopes().len(),
            old(interpreter).scopes().len() < usize::MAX,
        ensures
            final(interpreter).wf(),
            scope == old(interpreter).scopes().len(),
            final(interpreter).scopes() == bind_params(
                old(interpreter).scopes().push(
                    ScopeView { enclosing: Some(self.closure as nat), values: Map::empty() },
                ),
                scope as nat,
                self@.params,
                args@.map_values(|a: Object| a@),
                min(self@.params.len(), args@.len()),
            ),
            final(interpreter).current() == old(interpreter).current(),
            final(interpreter).locals() == old(interpreter).locals(),
    {
        let scope = interpreter.new_scope(self.closure);
        let ghost start = interpreter.scopes();
        let ghost argv = args@.map_values(|a: Object| a@);
        let mut i: usize = 0;
        while i < self.params.len() && i < args.len()
            invariant
                interpreter.wf(),
                scope < interpreter.scopes().len(),
                scope < start.len(),
                i <= self.params@.len(),
                i <= args@.len(),
                argv == args@.map_values(|a: Object| a@),
                interpreter.scopes() == bind_params(start, scope as nat, self@.params, argv, i as nat),
                interpreter.current() == old(interpreter).current(),
                interpreter.locals() == old(interpreter).locals(),
            decreases self.params@.len() - i,
        {
            let name = self.params[i].clone();
            let value = args[i].copy();
            proof {
                lemma_bind_params_len(start, scope as nat, self@.params, argv, i as nat);
            }
            interpreter.define_in(scope, name, value);
            i = i + 1;
        }
        scope
    }

    /// What a call gives back once the body has run with `outcome`: the instance
    /// for an initializer, else the returned value, or `nil` where the body
    /// ended without `return`; an error of the body other than a return passes on.
    pub fn finish_call(&self, interpreter: &Interpreter, outcome: Result<(), RuntimeError>) -> (r:
        Result<Object, RuntimeError>)
        requires
            interpreter.wf(),
        ensures
            match outcome {
                Err(e) if !(e is ReturnValue) => r matches Err(f) && f@ == e@,
                _ => if self.is_initializer {
                    match ancestor(interpreter.scopes(), self.closure as nat, 0) {
                        Some(a) if interpreter.scopes()[a as int].values.contains_key(this_name()) =>
                            r matches Ok(o) && o@ == interpreter.scopes()[a as int].values[this_name()],
                        _ => r matches Err(f) && f@ == (RuntimeErrorView::UndefinedVariable {
                            name: this_name(),
                        }),
                    }
                } else {
                    match outcome {
                        Err(RuntimeError::ReturnValue { value }) => r matches Ok(o) && o@ == value@,
                        _ => r matches Ok(o) && o@ == ObjectView::Null,
                    }
                },
            },
    {
        match outcome {
            Ok(()) => {
                if self.is_initializer {
                    self.initializer_instance(interpreter)
                } else {
                    Ok(Object::Null)
                }
            },
            Err(RuntimeError::ReturnValue { value }) => {
                if self.is_initializer {
                    self.initializer_instance(interpreter)
                } else {
                    Ok(value)
                }
            },
            Err(e) => Err(e),
        }
    }

    fn initializer_instance(&self, interpreter: &Interpreter) -> (r: Result<Object, RuntimeError>)
        requires
            interpreter.wf(),
        ensures
            match ancestor(interpreter.scopes(), self.closure as nat, 0) {
                Some(a) if interpreter.scopes()[a as int].values.contains_key(this_name()) => r matches Ok(
                    o,
                ) && o@ == interpreter.scopes()[a as int].values[this_name()],
                _ => r matches Err(f) && f@ == (RuntimeErrorView::UndefinedVariable {
                    name: this_name(),
                }),
            },
    {
        let this_token = Token::new(TokenType::This, String::from_str("this"), None, 0);
        interpreter.environments().get_at(self.closure, 0, &this_token)
    }
}

proof fn lemma_bind_params_len(
    scopes: Seq<ScopeView>,
    scope: nat,
    params: Seq<Seq<char>>,
    args: Seq<ObjectView>,
    k: nat,
)
    requires
        scope < scopes.len(),
    ensures
        bind_params(scopes, scope, params, args, k).len() == scopes.len(),
    decreases k,
{
    if k > 0 {
        lemma_bind_params_len(scopes, scope, params, args, (k - 1) as nat);
    }
}

// ---------------------------------------------------------------------------
// Classes
// ---------------------------------------------------------------------------

/// The abstract value of a class.
pub struct ClassView {
    pub name: Seq<char>,
    pub methods: Seq<FunctionView>,
    pub superclass: Option<Box<ClassView>>,
}

/// A class: its name, its methods, and the class it inherits from.
#[derive(Debug)]
pub struct Class {
    pub name: String,
    pub methods: Vec<Function>,
    pub superclass: Option<Box<Class>>,
}

impl Class {
    /// The abstract value of this class.
    pub open spec fn view(&self) -> ClassView
        decreases self,
    {
        ClassView {
            name: self.name@,
            methods: Seq::new(self.methods@.len(), |i: int| self.methods@[i]@),
            superclass: match &self.superclass {
                Some(s) => Some(Box::new(s.view())),
                None => None,
            },
        }
    }
}

/// The methods that the statements of a class declaration give, numbering
/// the function statements from `first`: each declared in scope `closure`,
/// the one named `init` an initializer.
pub open spec fn declared_methods(ms: Seq<StmtView>, first: nat, closure: nat) -> Seq<FunctionView>
    decreases ms.len(),
{
    if ms.len() == 0 {
        Seq::empty()
    } else {
        let before = declared_methods(ms.drop_last(), first, closure);
        match ms.last() {
            StmtView::Function { name, params, .. } => before.push(
                FunctionView {
                    declaration: first + before.len(),
                    name: name.lexeme,
                    params: Seq::new(params.len(), |i: int| params[i].lexeme),
                    closure,
                    is_initializer: name.lexeme == "init"@,
                },
            ),
            _ => before,
        }
    }
}

/// The method named `name` among `methods`: the last one of that name, as a
/// later method replaces an earlier one.
pub open spec fn method_named(methods: Seq<FunctionView>, name: Seq<char>) -> Option<FunctionView>
    decreases methods.len(),
{
    if methods.len() == 0 {
        None
    } else if methods.last().name == name {
        Some(methods.last())
    } else {
        method_named(methods.drop_last(), name)
    }
}

/// The method that a class finds by `name`: its own, else its superclass's.
pub open spec fn find_method(c: ClassView, name: Seq<char>) -> Option<FunctionView>
    decreases c,
{
    match method_named(c.methods, name) {
        Some(m) => Some(m),
        None => match c.superclass {
            Some(s) => find_method(*s, name),
            None => None,
        },
    }
}

/// The number of arguments that constructing an instance of a class takes:
/// its initializer's, or none.
pub open spec fn class_arity(c: ClassView) -> nat {
    match find_method(c, "init"@) {
        Some(m) => m.params.len(),
        None => 0,
    }
}

impl Class {
    /// A class named `name` with `methods`, inheriting from `superclass`.
    pub fn new(name: String, methods: Vec<Function>, superclass: Option<Class>) -> (c: Class)
        ensures
            c.name == name,
            c.methods == methods,
            match superclass {
                Some(s) => c.superclass is Some && *c.superclass->0 == s,
                None => c.superclass is None,
            },
    {
        let superclass = match superclass {
            Some(s) => Some(Box::new(s)),
            None => None,
        };
        Class { name, methods, superclass }
    }

    /// The class that the declaration `decl` makes in scope `closure`, inheriting
    /// from `superclass`: its methods are the declaration's function
    /// statements, in order, the k-th numbered `first_declaration + k`; the one
    /// named `init` is the initializer.
    pub fn declare(
        decl: &crate::ast::Class,
        first_declaration: usize,
        closure: usize,
        superclass: Option<Class>,
    ) -> (c: Class)
        requires
            first_declaration + decl.methods@.len() <= usize::MAX,
        ensures
            c.view() == (ClassView {
                name: decl.name.lexeme@,
                methods: declared_methods(
                    stmts_view(decl.methods@),
                    first_declaration as nat,
                    closure as nat,
                ),
                superclass: match superclass {
                    Some(s) => Some(Box::new(s.view())),
                    None => None,
                },
            }),
    {
        let ghost all = stmts_view(decl.methods@);
        proof {
            lemma_stmts_view(decl.methods@);
        }
        let mut methods: Vec<Function> = Vec::new();
        let mut k: usize = 0;
        while k < decl.methods.len()
            invariant
                k <= decl.methods@.len(),
                first_declaration + decl.methods@.len() <= usize::MAX,
                all == stmts_view(decl.methods@),
                all.len() == decl.methods@.len(),
                forall|j: int| 0 <= j < decl.methods@.len() ==> #[trigger] all[j] == decl.methods@[j].view(),
                methods@.len() <= k,
                Seq::new(methods@.len(), |i: int| methods@[i]@) == declared_methods(
                    all.subrange(0, k as int),
                    first_declaration as nat,
                    closure as nat,
                ),
            decreases decl.methods@.len() - k,
        {
            let ghost before = Seq::new(methods@.len(), |i: int| methods@[i]@);
            let ghost sub = all.subrange(0, k + 1);
            proof {
                assert(sub.drop_last() =~= all.subrange(0, k as int));
                assert(sub.last() == all[k as int]);
            }
            match &decl.methods[k] {
                StmtEnum::Function(f) => {
                    let init = String::from_str("init");
                    let is_init = f.name.lexeme == init;
                    let m = Function::new(first_declaration + methods.len(), f, closure, is_init);
                    proof {
                        assert(m@.params =~= Seq::new(
                            tokens_view(f.params@).len(),
                            |i: int| tokens_view(f.params@)[i].lexeme,
                        ));
                    }
                    methods.push(m);
                    assert(Seq::new(methods@.len(), |i: int| methods@[i]@) =~= before.push(m@));
                },
                _ => {},
            }
            k = k + 1;
        }
        assert(all.subrange(0, all.len() as int) =~= all);
        let superclass = match superclass {
            Some(s) => Some(Box::new(s)),
            None => None,
        };
        let c = Class { name: decl.name.lexeme.clone(), methods, superclass };
        assert(c.view().methods =~= Seq::new(c.methods@.len(), |i: int| c.methods@[i]@));
        c
    }

    /// The method named `name`: the class's own, else its superclass's.
    pub fn find_method(&self, name: &String) -> (r: Option<&Function>)
        ensures
            match r {
                Some(f) => find_method(self.view(), name@) == Some(f@),
                None => find_method(self.view(), name@) is None,
            },
        decreases self,
    {
        let ghost ms = self.view().methods;
        let mut i = self.methods.len();
        assert(ms.subrange(0, i as int) =~= ms);
        while i > 0
            invariant
                i <= self.methods@.len(),
                ms == self.view().methods,
                ms.len() == self.methods@.len(),
                forall|k: int| 0 <= k < ms.len() ==> #[trigger] ms[k] == self.methods@[k]@,
                method_named(ms, name@) == method_named(ms.subrange(0, i as int), name@),
            decreases i,
        {
            let ghost sub = ms.subrange(0, i as int);
            if self.methods[i - 1].name == *name {
                return Some(&self.methods[i - 1]);
            }
            assert(sub.drop_last() =~= ms.subrange(0, i - 1));
            i = i - 1;
        }
        assert(method_named(ms.subrange(0, 0), name@) is None);
        match &self.superclass {
            Some(s) => s.find_method(name),
            None => None,
        }
    }

    /// The number of arguments that constructing an instance takes: the
    /// initializer's, or none.
    pub fn arity(&self) -> (n: usize)
        ensures
            n == class_arity(self.view()),
    {
        let init = String::from_str("init");
        match self.find_method(&init) {
            Some(f) => f.arity(),
            None => 0,
        }
    }

    /// The initializer, `init`, if the class or a superclass has one.
    pub fn initializer(&self) -> (r: Option<&Function>)
        ensures
            match r {
                Some(f) => find_method(self.view(), "init"@) == Some(f@),
                None => find_method(self.view(), "init"@) is None,
            },
    {
        let init = String::from_str("init");
        self.find_method(&init)
    }

    /// The text that shows this class: its name.
    pub fn to_display_string(&self) -> (s: String)
        ensures
            s@ == self.name@,
    {
        self.name.clone()
    }
}

// ---------------------------------------------------------------------------
// Instances
// ---------------------------------------------------------------------------

/// What reading a property named `name` finds, before any method is bound: a
/// field, else a method of the class, else nothing.
pub enum PropertyView {
    Field(ObjectView),
    Method(FunctionView),
    Missing,
}

/// The property `name` of an instance with `fields` and class `class`: a field
/// shadows a method of the same name.
pub open spec fn property_of(fields: Map<Seq<char>, ObjectView>, class: ClassView, name: Seq<char>) -> PropertyView {
    if fields.contains_key(name) {
        PropertyView::Field(fields[name])
    } else {
        match find_method(class, name) {
            Some(m) => PropertyView::Method(m),
            None => PropertyView::Missing,
        }
    }
}

/// After a field is set, reading that property gives the value set, whatever
/// method the class has of that name: fields shadow methods.
pub proof fn law_get_after_set(fields: Map<Seq<char>, ObjectView>, class: ClassView, name: Seq<char>, v: ObjectView)
    ensures
        property_of(fields.insert(name, v), class, name) == PropertyView::Field(v),
{
}

/// Setting a field changes no other property.
pub proof fn law_set_keeps_other_properties(
    fields: Map<Seq<char>, ObjectView>,
    class: ClassView,
    name: Seq<char>,
    v: ObjectView,
    other: Seq<char>,
)
    requires
        other != name,
    ensures
        property_of(fields.insert(name, v), class, other) == property_of(fields, class, other),
{
}

/// Where no field of that name was set, a property is the class's method, or missing.
pub proof fn law_method_without_field(fields: Map<Seq<char>, ObjectView>, class: ClassView, name: Seq<char>)
    requires
        !fields.contains_key(name),
    ensures
        property_of(fields, class, name) == match find_method(class, name) {
            Some(m) => PropertyView::Method(m),
            None => PropertyView::Missing,
        },
{
}

/// What reading a property finds: a field's value, or a method bound to the instance.
#[derive(Debug)]
pub enum Property {
    Field(Object),
    Method(Function),
}

/// An instance of a class, with its fields.
pub struct Instance {
    class: Class,
    fields: Scope,
}

impl Instance {
    /// The class of this instance.
    pub closed spec fn class_view(&self) -> ClassView {
        self.class.view()
    }

    /// The class of this instance.
    pub fn class(&self) -> (c: &Class)
        ensures
            c.view() == self.class_view(),
    {
        &self.class
    }

    /// The fields and their values.
    pub closed spec fn fields(&self) -> Map<Seq<char>, ObjectView> {
        self.fields.view().values
    }

    /// The fields table is well formed.
    pub closed spec fn wf(&self) -> bool {
        self.fields.wf()
    }

    /// A new instance of `class`, with no field.
    pub fn new(class: Class) -> (i: Instance)
        ensures
            i.wf(),
            i.class_view() == class.view(),
            i.fields() == Map::<Seq<char>, ObjectView>::empty(),
    {
        Instance { class, fields: Scope::empty(None) }
    }

    /// The property `name` of this instance, which `this_object` stands for: a
    /// field, else a method of its class bound to `this_object`, else the error
    /// for an undefined property.
    pub fn get(&self, this_object: &Object, name: &Token, interpreter: &mut Interpreter) -> (r: Result<
        Property,
        RuntimeError,
    >)
        requires
            self.wf(),
            old(interpreter).wf(),
            old(interpreter).scopes().len() < usize::MAX,
            forall|m: FunctionView|
                find_method(self.class_view(), name.lexeme@) == Some(m) ==> m.closure < old(
                    interpreter,
                ).scopes().len(),
        ensures
            final(interpreter).wf(),
            final(interpreter).current() == old(interpreter).current(),
            final(interpreter).locals() == old(interpreter).locals(),
            match property_of(self.fields(), self.class_view(), name.lexeme@) {
                PropertyView::Field(v) => {
                    &&& r matches Ok(Property::Field(o)) && o@ == v
                    &&& final(interpreter).scopes() == old(interpreter).scopes()
                },
                PropertyView::Method(m) => {
                    &&& r matches Ok(Property::Method(f)) && f@ == (FunctionView {
                        closure: old(interpreter).scopes().len(),
                        ..m
                    })
                    &&& final(interpreter).scopes() == bound(
                        old(interpreter).scopes().push(
                            ScopeView { enclosing: Some(m.closure), values: Map::empty() },
                        ),
                        old(interpreter).scopes().len(),
                        this_name(),
                        this_object@,
                    )
                },
                PropertyView::Missing => {
                    &&& r matches Err(e) && e@ == (RuntimeErrorView::Error {
                        line: name.line as nat,
                        msg: "Undefined property '"@ + name.lexeme@ + "'."@,
                    })
                    &&& final(interpreter).scopes() == old(interpreter).scopes()
                },
            },
    {
        match self.fields.get(&name.lexeme) {
            Some(v) => Ok(Property::Field(v)),
            None => match self.class.find_method(&name.lexeme) {
                Some(m) => Ok(Property::Method(m.bind(interpreter, this_object.copy()))),
                None => {
                    let mut msg = String::from_str("Undefined property '");
                    msg.append(name.lexeme.as_str());
                    msg.append("'.");
                    Err(RuntimeError::Error { line: name.line, msg })
                },
            },
        }
    }

    /// Gives the field `name` the value `value`.
    pub fn set(&mut self, name: &Token, value: Object)
        requires
            old(self).wf(),
        ensures
            final(self).wf(),
            final(self).class_view() == old(self).class_view(),
            final(self).fields() == old(self).fields().insert(name.lexeme@, value@),
    {
        self.fields.define(name.lexeme.clone(), value);
    }

    /// The text that shows this instance: `Name instance`.
    pub fn to_display_string(&self) -> (s: String)
        ensures
            s@ == self.class_view().name + " instance"@,
    {
        let mut s = self.class.name.clone();
        s.append(" instance");
        s
    }
}

// ---------------------------------------------------------------------------
// The native clock
// ---------------------------------------------------------------------------

/// The native `clock` function, which gives the seconds since the Unix epoch;
/// its call reads the system time and is made by the caller.
#[derive(Debug)]
pub struct ClockFn;

impl ClockFn {
    /// The clock takes no argument.
    pub fn arity(&self) -> (n: usize)
        ensures
            n == 0,
    {
        0
    }

    /// The text that shows the clock: `<native fn>`.
    pub fn to_display_string(&self) -> (s: String)
        ensures
            s@ == "<native fn>"@,
    {
        String::from_str("<native fn>")
    }
}

} // verus!
