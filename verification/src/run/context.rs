use vstd::prelude::*;

use crate::parse::parsers::block::Block;
use crate::run::error::{RuntimeErrorModel, SplashRuntimeError};
use crate::run::function::{builtin_name, Builtin, Function, FunctionModel};
use crate::run::value::{Value, ValueModel};
use crate::utils::{bytes_models, copy_bytes};

verus! {

/// The runtime's stack of nested scopes: two parallel stacks of bindings,
/// one for variables and one for functions, always of equal depth, plus the
/// lines written by `print` so far. Within one scope, later bindings of a
/// name shadow earlier ones; lookup always starts at the innermost scope.
pub struct Context {
    pub variables: Vec<Vec<(Vec<u8>, Value)>>,
    pub functions: Vec<Vec<(Vec<u8>, Function)>>,
    pub output: Vec<Vec<u8>>,
}

/// Mathematical model of the scope stack and the output written so far.
pub struct ContextModel {
    pub vars: Seq<Seq<(Seq<u8>, ValueModel)>>,
    pub funcs: Seq<Seq<(Seq<u8>, FunctionModel)>>,
    pub output: Seq<Seq<u8>>,
}

pub open spec fn var_scope_model(s: Seq<(Vec<u8>, Value)>) -> Seq<(Seq<u8>, ValueModel)>
    decreases s,
{
    if s.len() == 0 {
        seq![]
    } else {
        var_scope_model(s.drop_last()).push((s.last().0@, s.last().1@))
    }
}

pub open spec fn fun_scope_model(s: Seq<(Vec<u8>, Function)>) -> Seq<(Seq<u8>, FunctionModel)>
    decreases s,
{
    if s.len() == 0 {
        seq![]
    } else {
        fun_scope_model(s.drop_last()).push((s.last().0@, s.last().1@))
    }
}

pub open spec fn var_scopes_model(s: Seq<Vec<(Vec<u8>, Value)>>) -> Seq<Seq<(Seq<u8>, ValueModel)>>
    decreases s,
{
    if s.len() == 0 {
        seq![]
    } else {
        var_scopes_model(s.drop_last()).push(var_scope_model(s.last()@))
    }
}

pub open spec fn fun_scopes_model(s: Seq<Vec<(Vec<u8>, Function)>>) -> Seq<
    Seq<(Seq<u8>, FunctionModel)>,
>
    decreases s,
{
    if s.len() == 0 {
        seq![]
    } else {
        fun_scopes_model(s.drop_last()).push(fun_scope_model(s.last()@))
    }
}

impl View for Context {
    type V = ContextModel;

    open spec fn view(&self) -> ContextModel {
        ContextModel {
            vars: var_scopes_model(self.variables@),
            funcs: fun_scopes_model(self.functions@),
            output: bytes_models(self.output@),
        }
    }
}

pub proof fn lemma_var_scope_model_index(s: Seq<(Vec<u8>, Value)>, i: int)
    requires
        0 <= i < s.len(),
    ensures
        var_scope_model(s).len() == s.len(),
        var_scope_model(s)[i] == (s[i].0@, s[i].1@),
    decreases s.len(),
{
    lemma_var_scope_model_len(s);
    if i < s.len() - 1 {
        lemma_var_scope_model_index(s.drop_last(), i);
    }
}

pub proof fn lemma_var_scope_model_len(s: Seq<(Vec<u8>, Value)>)
    ensures
        var_scope_model(s).len() == s.len(),
    decreases s.len(),
{
    if s.len() > 0 {
        lemma_var_scope_model_len(s.drop_last());
    }
}

pub proof fn lemma_fun_scope_model_index(s: Seq<(Vec<u8>, Function)>, i: int)
    requires
        0 <= i < s.len(),
    ensures
        fun_scope_model(s).len() == s.len(),
        fun_scope_model(s)[i] == (s[i].0@, s[i].1@),
    decreases s.len(),
{
    lemma_fun_scope_model_len(s);
    if i < s.len() - 1 {
        lemma_fun_scope_model_index(s.drop_last(), i);
    }
}

pub proof fn lemma_fun_scope_model_len(s: Seq<(Vec<u8>, Function)>)
    ensures
        fun_scope_model(s).len() == s.len(),
    decreases s.len(),
{
    if s.len() > 0 {
        lemma_fun_scope_model_len(s.drop_last());
    }
}

pub proof fn lemma_var_scopes_model_index(s: Seq<Vec<(Vec<u8>, Value)>>, i: int)
    requires
        0 <= i < s.len(),
    ensures
        var_scopes_model(s).len() == s.len(),
        var_scopes_model(s)[i] == var_scope_model(s[i]@),
    decreases s.len(),
{
    lemma_var_scopes_model_len(s);
    if i < s.len() - 1 {
        lemma_var_scopes_model_index(s.drop_last(), i);
    }
}

pub proof fn lemma_var_scopes_model_len(s: Seq<Vec<(Vec<u8>, Value)>>)
    ensures
        var_scopes_model(s).len() == s.len(),
    decreases s.len(),
{
    if s.len() > 0 {
        lemma_var_scopes_model_len(s.drop_last());
    }
}

pub proof fn lemma_fun_scopes_model_index(s: Seq<Vec<(Vec<u8>, Function)>>, i: int)
    requires
        0 <= i < s.len(),
    ensures
        fun_scopes_model(s).len() == s.len(),
        fun_scopes_model(s)[i] == fun_scope_model(s[i]@),
    decreases s.len(),
{
    lemma_fun_scopes_model_len(s);
    if i < s.len() - 1 {
        lemma_fun_scopes_model_index(s.drop_last(), i);
    }
}

pub proof fn lemma_fun_scopes_model_len(s: Seq<Vec<(Vec<u8>, Function)>>)
    ensures
        fun_scopes_model(s).len() == s.len(),
    decreases s.len(),
{
    if s.len() > 0 {
        lemma_fun_scopes_model_len(s.drop_last());
    }
}

/// The binding of `name` in one variable scope: the latest one wins.
pub open spec fn scope_lookup_var(scope: Seq<(Seq<u8>, ValueModel)>, name: Seq<u8>) -> Option<
    ValueModel,
>
    decreases scope.len(),
{
    if scope.len() == 0 {
        None
    } else if scope.last().0 == name {
        Some(scope.last().1)
    } else {
        scope_lookup_var(scope.drop_last(), name)
    }
}

/// The binding of `name` in one function scope: the latest one wins.
pub open spec fn scope_lookup_fun(scope: Seq<(Seq<u8>, FunctionModel)>, name: Seq<u8>) -> Option<
    FunctionModel,
>
    decreases scope.len(),
{
    if scope.len() == 0 {
        None
    } else if scope.last().0 == name {
        Some(scope.last().1)
    } else {
        scope_lookup_fun(scope.drop_last(), name)
    }
}

/// The visible binding of a variable: scopes are searched from the
/// innermost outward, and the first scope that binds the name wins.
pub open spec fn lookup_var(vars: Seq<Seq<(Seq<u8>, ValueModel)>>, name: Seq<u8>) -> Option<
    ValueModel,
>
    decreases vars.len(),
{
    if vars.len() == 0 {
        None
    } else {
        match scope_lookup_var(vars.last(), name) {
            Some(v) => Some(v),
            None => lookup_var(vars.drop_last(), name),
        }
    }
}

/// The visible binding of a function name, innermost scope first.
pub open spec fn lookup_fun(funcs: Seq<Seq<(Seq<u8>, FunctionModel)>>, name: Seq<u8>) -> Option<
    FunctionModel,
>
    decreases funcs.len(),
{
    if funcs.len() == 0 {
        None
    } else {
        match scope_lookup_fun(funcs.last(), name) {
            Some(f) => Some(f),
            None => lookup_fun(funcs.drop_last(), name),
        }
    }
}

/// One scope with the visible (latest) binding of `name` replaced by `v`.
pub open spec fn scope_set_var(
    scope: Seq<(Seq<u8>, ValueModel)>,
    name: Seq<u8>,
    v: ValueModel,
) -> Seq<(Seq<u8>, ValueModel)>
    decreases scope.len(),
{
    if scope.len() == 0 {
        scope
    } else if scope.last().0 == name {
        scope.update(scope.len() - 1, (name, v))
    } else {
        scope_set_var(scope.drop_last(), name, v).push(scope.last())
    }
}

/// The scope stack after assigning `v` to the nearest existing binding of
/// `name`, searching outward from the innermost scope; none when no scope
/// binds the name.
pub open spec fn scopes_assign(
    vars: Seq<Seq<(Seq<u8>, ValueModel)>>,
    name: Seq<u8>,
    v: ValueModel,
) -> Option<Seq<Seq<(Seq<u8>, ValueModel)>>>
    decreases vars.len(),
{
    if vars.len() == 0 {
        None
    } else if scope_lookup_var(vars.last(), name) is Some {
        Some(vars.update(vars.len() - 1, scope_set_var(vars.last(), name, v)))
    } else {
        match scopes_assign(vars.drop_last(), name, v) {
            Some(rest) => Some(rest.push(vars.last())),
            None => None,
        }
    }
}

/// The binding of a variable visible in a context.
pub open spec fn ctx_lookup_var(m: ContextModel, name: Seq<u8>) -> Option<ValueModel> {
    lookup_var(m.vars, name)
}

/// The binding of a function name visible in a context.
pub open spec fn ctx_lookup_fun(m: ContextModel, name: Seq<u8>) -> Option<FunctionModel> {
    lookup_fun(m.funcs, name)
}

/// The context after declaring `name` in the innermost variable scope.
pub open spec fn ctx_init_var(m: ContextModel, name: Seq<u8>, v: ValueModel) -> ContextModel {
    if m.vars.len() == 0 {
        m
    } else {
        ContextModel {
            vars: m.vars.update(m.vars.len() - 1, m.vars.last().push((name, v))),
            ..m
        }
    }
}

/// The context after declaring `name` in the innermost function scope.
pub open spec fn ctx_init_fun(m: ContextModel, name: Seq<u8>, f: FunctionModel) -> ContextModel {
    if m.funcs.len() == 0 {
        m
    } else {
        ContextModel {
            funcs: m.funcs.update(m.funcs.len() - 1, m.funcs.last().push((name, f))),
            ..m
        }
    }
}

/// The context after assigning to the nearest binding of `name`, if any.
pub open spec fn ctx_assign_var(m: ContextModel, name: Seq<u8>, v: ValueModel) -> Option<
    ContextModel,
> {
    match scopes_assign(m.vars, name, v) {
        Some(vars) => Some(ContextModel { vars, ..m }),
        None => None,
    }
}

/// The context after entering a nested lexical scope: one fresh empty scope
/// on each stack.
pub open spec fn ctx_push(m: ContextModel) -> ContextModel {
    ContextModel { vars: m.vars.push(seq![]), funcs: m.funcs.push(seq![]), ..m }
}

/// The context after leaving a nested lexical scope: the innermost scope is
/// discarded from each stack.
pub open spec fn ctx_pop(m: ContextModel) -> ContextModel {
    ContextModel {
        vars: if m.vars.len() > 0 {
            m.vars.drop_last()
        } else {
            m.vars
        },
        funcs: if m.funcs.len() > 0 {
            m.funcs.drop_last()
        } else {
            m.funcs
        },
        ..m
    }
}

/// The context after one more output line.
pub open spec fn ctx_print(m: ContextModel, line: Seq<u8>) -> ContextModel {
    ContextModel { output: m.output.push(line), ..m }
}

/// The registry of built-in functions, in the order the default scope
/// preloads them.
pub open spec fn builtin_registry() -> Seq<(Seq<u8>, FunctionModel)> {
    seq![
        (builtin_name(Builtin::Print), FunctionModel::BuiltIn(Builtin::Print)),
        (builtin_name(Builtin::String), FunctionModel::BuiltIn(Builtin::String)),
        (builtin_name(Builtin::Length), FunctionModel::BuiltIn(Builtin::Length)),
        (builtin_name(Builtin::Push), FunctionModel::BuiltIn(Builtin::Push)),
        (builtin_name(Builtin::Pop), FunctionModel::BuiltIn(Builtin::Pop)),
        (builtin_name(Builtin::Range), FunctionModel::BuiltIn(Builtin::Range)),
    ]
}

/// A fresh default context: one empty variable scope, one function scope
/// preloaded with the built-in registry, and no output.
pub open spec fn initial_context() -> ContextModel {
    ContextModel { vars: seq![seq![]], funcs: seq![builtin_registry()], output: seq![] }
}

/// Finds the latest binding of `name` in one variable scope.
fn scope_find_var(scope: &Vec<(Vec<u8>, Value)>, name: &Vec<u8>) -> (r: Option<usize>)
    ensures
        match r {
            Some(k) => {
                &&& k < scope@.len()
                &&& var_scope_model(scope@)[k as int].0 == name@
                &&& scope_lookup_var(var_scope_model(scope@), name@) == Some(
                    var_scope_model(scope@)[k as int].1,
                )
                &&& forall|j: int|
                    k < j < scope@.len() ==> var_scope_model(scope@)[j].0 != name@
            },
            None => scope_lookup_var(var_scope_model(scope@), name@) is None,
        },
{
    let ghost m = var_scope_model(scope@);
    proof {
        lemma_var_scope_model_len(scope@);
        assert(m.take(scope@.len() as int) =~= m);
    }
    let mut i: usize = scope.len();
    while i > 0
        invariant
            i <= scope@.len(),
            scope_lookup_var(m, name@) == scope_lookup_var(m.take(i as int), name@),
            forall|j: int| i <= j < scope@.len() ==> m[j].0 != name@,
        decreases i,
    {
        i = i - 1;
        proof {
            lemma_var_scope_model_index(scope@, i as int);
            assert(m.take(i + 1).last() == m[i as int]);
            assert(m.take(i + 1).drop_last() =~= m.take(i as int));
        }
        if crate::utils::bytes_eq(&scope[i].0, name) {
            return Some(i);
        }
    }
    proof {
        assert(m.take(0) =~= Seq::<(Seq<u8>, ValueModel)>::empty());
    }
    None
}

/// Finds the latest binding of `name` in one function scope.
fn scope_find_fun(scope: &Vec<(Vec<u8>, Function)>, name: &Vec<u8>) -> (r: Option<usize>)
    ensures
        match r {
            Some(k) => {
                &&& k < scope@.len()
                &&& fun_scope_model(scope@)[k as int].0 == name@
                &&& scope_lookup_fun(fun_scope_model(scope@), name@) == Some(
                    fun_scope_model(scope@)[k as int].1,
                )
            },
            None => scope_lookup_fun(fun_scope_model(scope@), name@) is None,
        },
{
    let ghost m = fun_scope_model(scope@);
    proof {
        lemma_fun_scope_model_len(scope@);
        assert(m.take(scope@.len() as int) =~= m);
    }
    let mut i: usize = scope.len();
    while i > 0
        invariant
            i <= scope@.len(),
            scope_lookup_fun(m, name@) == scope_lookup_fun(m.take(i as int), name@),
            forall|j: int| i <= j < scope@.len() ==> m[j].0 != name@,
        decreases i,
    {
        i = i - 1;
        proof {
            lemma_fun_scope_model_index(scope@, i as int);
            assert(m.take(i + 1).last() == m[i as int]);
            assert(m.take(i + 1).drop_last() =~= m.take(i as int));
        }
        if crate::utils::bytes_eq(&scope[i].0, name) {
            return Some(i);
        }
    }
    proof {
        assert(m.take(0) =~= Seq::<(Seq<u8>, FunctionModel)>::empty());
    }
    None
}

/// Replacing the latest binding of a name leaves the rest of the scope as
/// it was: it is the update of the scope at that binding's position.
proof fn lemma_scope_set_var_at(
    scope: Seq<(Seq<u8>, ValueModel)>,
    name: Seq<u8>,
    v: ValueModel,
    k: int,
)
    requires
        0 <= k < scope.len(),
        scope[k].0 == name,
        forall|j: int| k < j < scope.len() ==> scope[j].0 != name,
    ensures
        scope_set_var(scope, name, v) == scope.update(k, (name, v)),
    decreases scope.len(),
{
    if k == scope.len() - 1 {
        assert(scope.last().0 == name);
    } else {
        assert(scope.last().0 != name);
        lemma_scope_set_var_at(scope.drop_last(), name, v, k);
        assert(scope.drop_last().update(k, (name, v)).push(scope.last()) =~= scope.update(
            k,
            (name, v),
        ));
    }
}

impl Context {
    /// A fresh default context, with the built-in registry preloaded.
    pub fn new() -> (r: Self)
        ensures
            r@ == initial_context(),
    {
        Context::default()
    }

    /// The value bound to `identifier` in the nearest enclosing scope, as a
    /// fresh copy; not defined when no scope binds it.
    pub fn variable(&self, identifier: &Vec<u8>) -> (r: Result<Value, SplashRuntimeError>)
        ensures
            match ctx_lookup_var(self@, identifier@) {
                Some(v) => r matches Ok(value) && value@ == v,
                None => r matches Err(e) && e@ == RuntimeErrorModel::NotDefined(identifier@),
            },
    {
        let ghost vm = self@.vars;
        proof {
            lemma_var_scopes_model_len(self.variables@);
            assert(vm.take(self.variables@.len() as int) =~= vm);
        }
        let mut i: usize = self.variables.len();
        while i > 0
            invariant
                i <= self.variables@.len(),
                lookup_var(vm, identifier@) == lookup_var(vm.take(i as int), identifier@),
            decreases i,
        {
            i = i - 1;
            proof {
                lemma_var_scopes_model_index(self.variables@, i as int);
                assert(vm.take(i + 1).last() == vm[i as int]);
                assert(vm.take(i + 1).drop_last() =~= vm.take(i as int));
            }
            let found = scope_find_var(&self.variables[i], identifier);
            match found {
                Some(k) => {
                    proof {
                        lemma_var_scope_model_index(self.variables@[i as int]@, k as int);
                    }
                    return Ok(self.variables[i][k].1.duplicate());
                }
                None => {}
            }
        }
        proof {
            assert(vm.take(0) =~= Seq::<Seq<(Seq<u8>, ValueModel)>>::empty());
        }
        Err(SplashRuntimeError::NotDefined(copy_bytes(identifier)))
    }

    /// The function bound to `identifier` in the nearest enclosing scope, as
    /// a fresh copy; not defined when no scope binds it.
    pub fn function(&self, identifier: &Vec<u8>) -> (r: Result<Function, SplashRuntimeError>)
        ensures
            match ctx_lookup_fun(self@, identifier@) {
                Some(f) => r matches Ok(value) && value@ == f,
                None => r matches Err(e) && e@ == RuntimeErrorModel::NotDefined(identifier@),
            },
    {
        let ghost fm = self@.funcs;
        proof {
            lemma_fun_scopes_model_len(self.functions@);
            assert(fm.take(self.functions@.len() as int) =~= fm);
        }
        let mut i: usize = self.functions.len();
        while i > 0
            invariant
                i <= self.functions@.len(),
                lookup_fun(fm, identifier@) == lookup_fun(fm.take(i as int), identifier@),
            decreases i,
        {
            i = i - 1;
            proof {
                lemma_fun_scopes_model_index(self.functions@, i as int);
                assert(fm.take(i + 1).last() == fm[i as int]);
                assert(fm.take(i + 1).drop_last() =~= fm.take(i as int));
            }
            let found = scope_find_fun(&self.functions[i], identifier);
            match found {
                Some(k) => {
                    proof {
                        lemma_fun_scope_model_index(self.functions@[i as int]@, k as int);
                    }
                    return Ok(self.functions[i][k].1.duplicate());
                }
                None => {}
            }
        }
        proof {
            assert(fm.take(0) =~= Seq::<Seq<(Seq<u8>, FunctionModel)>>::empty());
        }
        Err(SplashRuntimeError::NotDefined(copy_bytes(identifier)))
    }

    /// Declares `identifier` in the innermost scope, shadowing any earlier
    /// binding of the same name there.
    pub fn initialize_variable(&mut self, identifier: Vec<u8>, value: Value)
        ensures
            final(self)@ == ctx_init_var(old(self)@, identifier@, value@),
    {
        let n = self.variables.len();
        if n == 0 {
            return ;
        }
        let ghost vs0 = self.variables@;
        let ghost inner0 = self.variables@[n - 1]@;
        let scope = &mut self.variables[n - 1];
        let ghost s0 = scope@;
        scope.push((identifier, value));
        proof {
            assert(s0 == inner0);
            assert(self.variables@ =~= vs0.update(n - 1, self.variables@[n - 1]));
            lemma_var_scopes_model_len(vs0);
            lemma_var_scopes_model_index(vs0, n - 1);
            assert(self.variables@[n - 1]@.drop_last() =~= inner0);
            lemma_var_scopes_update(vs0, n - 1, self.variables@[n - 1]);
            assert(var_scope_model(self.variables@[n - 1]@) == var_scope_model(inner0).push(
                (identifier@, value@),
            ));
            assert(var_scopes_model(self.variables@) =~= var_scopes_model(vs0).update(
                n - 1,
                var_scope_model(inner0).push((identifier@, value@)),
            ));
            assert(final(self)@.vars =~= ctx_init_var(old(self)@, identifier@, value@).vars);
            assert(final(self)@ == ctx_init_var(old(self)@, identifier@, value@));
        }
    }
}

/// Assigning where the nearest binding sits in scope `i` updates exactly
/// that scope and leaves the others as they were.
proof fn lemma_scopes_assign_at(
    vars: Seq<Seq<(Seq<u8>, ValueModel)>>,
    name: Seq<u8>,
    v: ValueModel,
    i: int,
)
    requires
        0 <= i < vars.len(),
        scope_lookup_var(vars[i], name) is Some,
        forall|j: int| i < j < vars.len() ==> scope_lookup_var(#[trigger] vars[j], name) is None,
    ensures
        scopes_assign(vars, name, v) == Some(vars.update(i, scope_set_var(vars[i], name, v))),
    decreases vars.len(),
{
    if i == vars.len() - 1 {
        assert(vars.update(i, scope_set_var(vars[i], name, v)) =~= vars.update(
            vars.len() - 1,
            scope_set_var(vars.last(), name, v),
        ));
    } else {
        assert(scope_lookup_var(vars.last(), name) is None);
        lemma_scopes_assign_at(vars.drop_last(), name, v, i);
        assert(vars.drop_last()[i] == vars[i]);
        assert(vars.drop_last().update(i, scope_set_var(vars[i], name, v)).push(vars.last())
            =~= vars.update(i, scope_set_var(vars[i], name, v)));
    }
}

/// When no scope binds the name, assignment fails.
proof fn lemma_scopes_assign_none(vars: Seq<Seq<(Seq<u8>, ValueModel)>>, name: Seq<u8>, v: ValueModel)
    requires
        forall|j: int| 0 <= j < vars.len() ==> scope_lookup_var(#[trigger] vars[j], name) is None,
    ensures
        scopes_assign(vars, name, v) is None,
    decreases vars.len(),
{
    if vars.len() > 0 {
        lemma_scopes_assign_none(vars.drop_last(), name, v);
    }
}

/// Updating one entry of a scope updates its model pointwise.
proof fn lemma_var_scope_model_update(s: Seq<(Vec<u8>, Value)>, k: int, p: (Vec<u8>, Value))
    requires
        0 <= k < s.len(),
    ensures
        var_scope_model(s.update(k, p)) =~= var_scope_model(s).update(k, (p.0@, p.1@)),
{
    lemma_var_scope_model_len(s);
    lemma_var_scope_model_len(s.update(k, p));
    assert forall|j: int| 0 <= j < s.len() implies var_scope_model(s.update(k, p))[j]
        == var_scope_model(s).update(k, (p.0@, p.1@))[j] by {
        lemma_var_scope_model_index(s.update(k, p), j);
        lemma_var_scope_model_index(s, j);
    }
}

impl Context {
    /// Assigns to the nearest existing binding of `identifier`, searching
    /// outward through enclosing scopes; not defined when no scope binds it,
    /// in which case the context is unchanged.
    pub fn assign_variable(&mut self, identifier: &Vec<u8>, value: Value) -> (r: Result<
        (),
        SplashRuntimeError,
    >)
        ensures
            match ctx_assign_var(old(self)@, identifier@, value@) {
                Some(m) => r matches Ok(()) && final(self)@ == m,
                None => r matches Err(e) && e@ == RuntimeErrorModel::NotDefined(identifier@)
                    && final(self)@ == old(self)@,
            },
    {
        let ghost vm = self@.vars;
        proof {
            lemma_var_scopes_model_len(self.variables@);
        }
        let mut i: usize = self.variables.len();
        while i > 0
            invariant
                i <= self.variables@.len(),
                self@ == old(self)@,
                vm == self@.vars,
                forall|j: int|
                    i <= j < vm.len() ==> scope_lookup_var(#[trigger] vm[j], identifier@) is None,
            decreases i,
        {
            i = i - 1;
            proof {
                lemma_var_scopes_model_index(self.variables@, i as int);
            }
            let found = scope_find_var(&self.variables[i], identifier);
            match found {
                Some(k) => {
                    let ghost vs0 = self.variables@;
                    let ghost scope0 = var_scope_model(self.variables@[i as int]@);
                    let pair = (copy_bytes(identifier), value);
                    let ghost pm = (pair.0@, pair.1@);
                    self.variables[i][k] = pair;
                    proof {
                        assert(self.variables@ =~= vs0.update(
                            i as int,
                            self.variables@[i as int],
                        ));
                        assert(self.variables@[i as int]@ =~= vs0[i as int]@.update(
                            k as int,
                            pair,
                        ));
                        lemma_var_scope_model_update(vs0[i as int]@, k as int, pair);
                        lemma_var_scope_model_len(vs0[i as int]@);
                        lemma_scope_set_var_at(scope0, identifier@, value@, k as int);
                        lemma_var_scopes_update(vs0, i as int, self.variables@[i as int]);
                        assert(var_scopes_model(self.variables@) =~= vm.update(
                            i as int,
                            scope_set_var(scope0, identifier@, value@),
                        ));
                        lemma_scopes_assign_at(vm, identifier@, value@, i as int);
                        assert(final(self)@ == ctx_assign_var(old(self)@, identifier@, value@)
                            ->Some_0);
                    }
                    return Ok(());
                }
                None => {}
            }
        }
        proof {
            lemma_scopes_assign_none(vm, identifier@, value@);
        }
        Err(SplashRuntimeError::NotDefined(copy_bytes(identifier)))
    }

    /// Declares a custom function in the innermost scope.
    pub fn initialize_function(&mut self, identifier: Vec<u8>, arguments: Vec<Vec<u8>>, body: Block)
        ensures
            final(self)@ == ctx_init_fun(
                old(self)@,
                identifier@,
                FunctionModel::Custom(bytes_models(arguments@), body@),
            ),
    {
        let n = self.functions.len();
        if n == 0 {
            return ;
        }
        let ghost fs0 = self.functions@;
        let ghost inner0 = self.functions@[n - 1]@;
        let ghost fm = FunctionModel::Custom(bytes_models(arguments@), body@);
        let scope = &mut self.functions[n - 1];
        scope.push((identifier, Function::Custom(arguments, body)));
        proof {
            assert(self.functions@ =~= fs0.update(n - 1, self.functions@[n - 1]));
            lemma_fun_scopes_model_len(fs0);
            lemma_fun_scopes_model_index(fs0, n - 1);
            assert(self.functions@[n - 1]@.drop_last() =~= inner0);
            lemma_fun_scopes_update(fs0, n - 1, self.functions@[n - 1]);
            assert(fun_scope_model(self.functions@[n - 1]@) == fun_scope_model(inner0).push(
                (identifier@, fm),
            ));
            assert(fun_scopes_model(self.functions@) =~= fun_scopes_model(fs0).update(
                n - 1,
                fun_scope_model(inner0).push((identifier@, fm)),
            ));
            assert(final(self)@.funcs =~= ctx_init_fun(old(self)@, identifier@, fm).funcs);
            assert(final(self)@ == ctx_init_fun(old(self)@, identifier@, fm));
        }
    }

    /// Enters a nested lexical scope: pushes one fresh scope on each stack.
    pub fn push_scope(&mut self)
        ensures
            final(self)@ == ctx_push(old(self)@),
    {
        let ghost vs0 = self.variables@;
        let ghost fs0 = self.functions@;
        self.variables.push(Vec::new());
        self.functions.push(Vec::new());
        proof {
            assert(self.variables@.drop_last() =~= vs0);
            assert(self.functions@.drop_last() =~= fs0);
            assert(var_scope_model(self.variables@.last()@) =~= Seq::<(Seq<u8>, ValueModel)>::empty());
            assert(fun_scope_model(self.functions@.last()@) =~= Seq::<
                (Seq<u8>, FunctionModel),
            >::empty());
            assert(final(self)@.vars =~= ctx_push(old(self)@).vars);
            assert(final(self)@.funcs =~= ctx_push(old(self)@).funcs);
            assert(final(self)@ == ctx_push(old(self)@));
        }
    }

    /// Leaves a nested lexical scope: discards the innermost scope from each
    /// stack.
    pub fn pop_scope(&mut self)
        ensures
            final(self)@ == ctx_pop(old(self)@),
    {
        proof {
            lemma_var_scopes_model_len(self.variables@);
            lemma_fun_scopes_model_len(self.functions@);
        }
        if self.variables.len() > 0 {
            let ghost vs0 = self.variables@;
            self.variables.pop();
            proof {
                assert(var_scopes_model(vs0).drop_last() =~= var_scopes_model(vs0.drop_last()));
            }
        }
        if self.functions.len() > 0 {
            let ghost fs0 = self.functions@;
            self.functions.pop();
            proof {
                assert(fun_scopes_model(fs0).drop_last() =~= fun_scopes_model(fs0.drop_last()));
            }
        }
    }

    /// Appends one line to the output written so far.
    pub fn write_line(&mut self, line: Vec<u8>)
        ensures
            final(self)@ == ctx_print(old(self)@, line@),
    {
        let ghost o0 = self.output@;
        self.output.push(line);
        proof {
            assert(self.output@.drop_last() =~= o0);
        }
    }
}

impl Default for Context {
    /// A fresh default context: one empty variable scope, one function scope
    /// preloaded with the built-in registry, and no output.
    fn default() -> (r: Self)
        ensures
            r@ == initial_context(),
    {
        let mut variables: Vec<Vec<(Vec<u8>, Value)>> = Vec::new();
        variables.push(Vec::new());
        let mut registry: Vec<(Vec<u8>, Function)> = Vec::new();
        registry.push((Builtin::Print.to_bytes(), Function::BuiltIn(Builtin::Print)));
        registry.push((Builtin::String.to_bytes(), Function::BuiltIn(Builtin::String)));
        registry.push((Builtin::Length.to_bytes(), Function::BuiltIn(Builtin::Length)));
        registry.push((Builtin::Push.to_bytes(), Function::BuiltIn(Builtin::Push)));
        registry.push((Builtin::Pop.to_bytes(), Function::BuiltIn(Builtin::Pop)));
        registry.push((Builtin::Range.to_bytes(), Function::BuiltIn(Builtin::Range)));
        proof {
            lemma_fun_scope_model_len(registry@);
            assert forall|j: int| 0 <= j < 6 implies fun_scope_model(registry@)[j]
                == builtin_registry()[j] by {
                lemma_fun_scope_model_index(registry@, j);
            }
            assert(fun_scope_model(registry@) =~= builtin_registry());
        }
        let mut functions: Vec<Vec<(Vec<u8>, Function)>> = Vec::new();
        functions.push(registry);
        let r = Context { variables, functions, output: Vec::new() };
        proof {
            assert(r.variables@.drop_last() =~= Seq::<Vec<(Vec<u8>, Value)>>::empty());
            assert(r.functions@.drop_last() =~= Seq::<Vec<(Vec<u8>, Function)>>::empty());
            assert(var_scopes_model(r.variables@.drop_last()).len() == 0);
            assert(fun_scopes_model(r.functions@.drop_last()).len() == 0);
            assert(var_scope_model(r.variables@.last()@) =~= Seq::<(Seq<u8>, ValueModel)>::empty());
            assert(r@.vars =~= initial_context().vars);
            assert(r@.funcs =~= initial_context().funcs);
            assert(r@.output =~= initial_context().output);
            assert(r@ == initial_context());
        }
        r
    }
}

/// Updating one scope of a function-scope stack updates its model pointwise.
pub proof fn lemma_fun_scopes_update(
    s: Seq<Vec<(Vec<u8>, Function)>>,
    i: int,
    v: Vec<(Vec<u8>, Function)>,
)
    requires
        0 <= i < s.len(),
    ensures
        fun_scopes_model(s.update(i, v)) =~= fun_scopes_model(s).update(i, fun_scope_model(v@)),
    decreases s.len(),
{
    lemma_fun_scopes_model_len(s);
    lemma_fun_scopes_model_len(s.update(i, v));
    assert forall|j: int| 0 <= j < s.len() implies fun_scopes_model(s.update(i, v))[j]
        == fun_scopes_model(s).update(i, fun_scope_model(v@))[j] by {
        lemma_fun_scopes_model_index(s.update(i, v), j);
        lemma_fun_scopes_model_index(s, j);
        if j == i {
            assert(s.update(i, v)[j] == v);
        } else {
            assert(s.update(i, v)[j] == s[j]);
        }
    }
}

/// Updating one scope of a scope stack updates its model pointwise.
pub proof fn lemma_var_scopes_update(s: Seq<Vec<(Vec<u8>, Value)>>, i: int, v: Vec<(Vec<u8>, Value)>)
    requires
        0 <= i < s.len(),
    ensures
        var_scopes_model(s.update(i, v)) =~= var_scopes_model(s).update(i, var_scope_model(v@)),
    decreases s.len(),
{
    lemma_var_scopes_model_len(s);
    lemma_var_scopes_model_len(s.update(i, v));
    assert forall|j: int| 0 <= j < s.len() implies var_scopes_model(s.update(i, v))[j]
        == var_scopes_model(s).update(i, var_scope_model(v@))[j] by {
        lemma_var_scopes_model_index(s.update(i, v), j);
        lemma_var_scopes_model_index(s, j);
        if j == i {
            assert(s.update(i, v)[j] == v);
        } else {
            assert(s.update(i, v)[j] == s[j]);
        }
    }
}

/// Law: scope isolation at the scope manager. Entering a nested scope,
/// initializing a name there, and leaving restores the context exactly as
/// it was: the name's binding inside the scope is the initialized value,
/// and after the scope is popped every binding - the initialized name and
/// any outer binding it shadowed included - is what it was before.
pub proof fn lemma_scope_isolation(m: ContextModel, x: Seq<u8>, v: ValueModel)
    ensures
        ctx_lookup_var(ctx_init_var(ctx_push(m), x, v), x) == Some(v),
        ctx_pop(ctx_init_var(ctx_push(m), x, v)) == m,
{
    let pushed = ctx_push(m);
    let inner = ctx_init_var(pushed, x, v);
    assert(inner.vars =~= m.vars.push(seq![(x, v)])) by {
        assert(pushed.vars.last() =~= Seq::<(Seq<u8>, ValueModel)>::empty());
        assert(pushed.vars.update(pushed.vars.len() - 1, pushed.vars.last().push((x, v)))
            =~= m.vars.push(seq![(x, v)]));
    }
    assert(inner.vars.last() =~= seq![(x, v)]);
    assert(scope_lookup_var(inner.vars.last(), x) == Some(v));
    assert(ctx_pop(inner).vars =~= m.vars);
    assert(ctx_pop(inner).funcs =~= m.funcs);
    assert(ctx_pop(inner) == m);
}

} // verus!
