//! The type-checking context: the stack of lexical scopes and their symbols, the
//! type-variable substitutions, the registered definitions and the errors found.

use vstd::prelude::*;
use indexmap::IndexMap;
use crate::typeck::error::{Span, TypeError};
use crate::typeck::tables::{
    agent_entries, agents_get, agents_insert, agents_new, class_entries, classes_get,
    classes_insert, classes_new, struct_entries, structs_get, structs_insert, structs_new,
    substitution_entries, substitutions_get, substitutions_insert, substitutions_new,
    symbol_entries, symbols_contains, symbols_get, symbols_insert, symbols_new, tool_entries,
    tools_get, tools_insert, tools_new,
};
use crate::typeck::types::{
    AgentInfo, AgentModel, ClassInfo, ClassModel, StructInfo, StructModel, ToolInfo, ToolModel,
    Ty, Type, opt_ty,
};
use crate::typeck::unify::{acyclic, ranked};
use crate::typeck::builtins::{all_builtins, register_all};

verus! {

/// Information about a symbol in scope.
#[derive(Debug)]
pub struct Symbol {
    /// Symbol name
    pub name: String,
    /// Symbol type
    pub ty: Type,
    /// Whether the symbol is mutable (let vs const)
    pub mutable: bool,
    /// Where the symbol was defined
    pub span: Span,
}

/// The model of a symbol.
pub struct SymbolModel {
    pub name: Seq<char>,
    pub ty: Ty,
    pub mutable: bool,
    pub span: Span,
}

impl View for Symbol {
    type V = SymbolModel;

    open spec fn view(&self) -> SymbolModel {
        SymbolModel { name: self.name@, ty: self.ty.view_ty(), mutable: self.mutable, span: self.span }
    }
}

/// A single lexical scope.
struct Scope {
    /// Symbols defined in this scope
    symbols: IndexMap<String, Symbol>,
    /// Expected return type (for function scopes)
    return_type: Option<Type>,
    /// Whether this is a loop scope (for break/continue)
    is_loop: bool,
    /// Whether this is an async scope
    is_async: bool,
}

/// The model of a scope.
pub struct ScopeModel {
    pub symbols: Map<Seq<char>, SymbolModel>,
    pub return_type: Option<Ty>,
    pub is_loop: bool,
    pub is_async: bool,
}

impl View for Scope {
    type V = ScopeModel;

    closed spec fn view(&self) -> ScopeModel {
        ScopeModel {
            symbols: symbol_entries(self.symbols),
            return_type: opt_ty(self.return_type),
            is_loop: self.is_loop,
            is_async: self.is_async,
        }
    }
}

/// A scope with no symbols.
pub open spec fn plain_scope(return_type: Option<Ty>, is_loop: bool, is_async: bool) -> ScopeModel {
    ScopeModel { symbols: Map::empty(), return_type, is_loop, is_async }
}

impl Scope {
    fn new() -> (s: Self)
        ensures
            s@ == plain_scope(None, false, false),
    {
        Scope { symbols: symbols_new(), return_type: None, is_loop: false, is_async: false }
    }

    fn with_return_type(ret: Type) -> (s: Self)
        ensures
            s@ == plain_scope(Some(ret.view_ty()), false, false),
    {
        Scope { symbols: symbols_new(), return_type: Some(ret), is_loop: false, is_async: false }
    }
}

/// The symbol a name denotes in a stack of scopes: the innermost scope that
/// defines the name decides.
pub open spec fn lookup_in(scopes: Seq<ScopeModel>, name: Seq<char>) -> Option<SymbolModel>
    decreases scopes.len(),
{
    if scopes.len() == 0 {
        None
    } else if scopes.last().symbols.contains_key(name) {
        Some(scopes.last().symbols[name])
    } else {
        lookup_in(scopes.drop_last(), name)
    }
}

/// The return type expected by the innermost scope that declares one.
pub open spec fn return_type_in(scopes: Seq<ScopeModel>) -> Option<Ty>
    decreases scopes.len(),
{
    if scopes.len() == 0 {
        None
    } else if scopes.last().return_type is Some {
        scopes.last().return_type
    } else {
        return_type_in(scopes.drop_last())
    }
}

/// The scope stack with `name` bound to `sym` in its innermost scope.
pub open spec fn define_in(scopes: Seq<ScopeModel>, name: Seq<char>, sym: SymbolModel) -> Seq<
    ScopeModel,
> {
    let top = scopes.last();
    scopes.update(
        scopes.len() - 1,
        ScopeModel { symbols: top.symbols.insert(name, sym), ..top },
    )
}

/// Type checking context.
///
/// Maintains the symbol table, type variable substitutions,
/// and accumulated errors during type checking.
pub struct TypeContext {
    /// Stack of lexical scopes
    scopes: Vec<Scope>,
    /// Type variable substitutions for unification
    substitutions: IndexMap<u32, Type>,
    /// Counter for generating fresh type variables
    next_type_var: u32,
    /// Registered struct types
    structs: IndexMap<String, StructInfo>,
    /// Registered class types
    classes: IndexMap<String, ClassInfo>,
    /// Registered agent types
    agents: IndexMap<String, AgentInfo>,
    /// Registered tool types
    tools: IndexMap<String, ToolInfo>,
    /// Accumulated type errors
    errors: Vec<TypeError>,
}

impl TypeContext {
    /// The scopes, outermost first.
    pub closed spec fn scope_stack(&self) -> Seq<ScopeModel> {
        self.scopes@.map_values(|s: Scope| s@)
    }

    /// The type-variable substitutions.
    pub closed spec fn subst(&self) -> Map<u32, Ty> {
        substitution_entries(self.substitutions)
    }

    /// The next fresh type variable.
    pub closed spec fn next_var(&self) -> u32 {
        self.next_type_var
    }

    /// The registered structs.
    pub closed spec fn struct_table(&self) -> Map<Seq<char>, StructModel> {
        struct_entries(self.structs)
    }

    /// The registered classes.
    pub closed spec fn class_table(&self) -> Map<Seq<char>, ClassModel> {
        class_entries(self.classes)
    }

    /// The registered agents.
    pub closed spec fn agent_table(&self) -> Map<Seq<char>, AgentModel> {
        agent_entries(self.agents)
    }

    /// The registered tools.
    pub closed spec fn tool_table(&self) -> Map<Seq<char>, ToolModel> {
        tool_entries(self.tools)
    }

    /// The errors recorded so far, in order.
    pub closed spec fn error_list(&self) -> Seq<TypeError> {
        self.errors@
    }

    /// The context is well formed: there is always a global scope, and the
    /// substitutions are finite and free of cycles, so that resolving a type terminates.
    pub open spec fn wf(&self) -> bool {
        &&& self.scope_stack().len() >= 1
        &&& self.subst().dom().finite()
        &&& acyclic(self.subst())
    }

    /// Everything but the scopes is as in `other`.
    pub open spec fn same_but_scopes(&self, other: &Self) -> bool {
        &&& self.subst() == other.subst()
        &&& self.next_var() == other.next_var()
        &&& self.struct_table() == other.struct_table()
        &&& self.class_table() == other.class_table()
        &&& self.agent_table() == other.agent_table()
        &&& self.tool_table() == other.tool_table()
        &&& self.error_list() == other.error_list()
    }

    /// Everything but the substitutions and the errors is as in `other`.
    pub open spec fn same_but_inference(&self, other: &Self) -> bool {
        &&& self.scope_stack() == other.scope_stack()
        &&& self.next_var() == other.next_var()
        &&& self.struct_table() == other.struct_table()
        &&& self.class_table() == other.class_table()
        &&& self.agent_table() == other.agent_table()
        &&& self.tool_table() == other.tool_table()
    }

    /// A context with only an empty global scope.
    pub(crate) fn empty() -> (ctx: Self)
        ensures
            ctx.wf(),
            ctx.scope_stack() == seq![plain_scope(None, false, false)],
            ctx.subst() == Map::<u32, Ty>::empty(),
            ctx.next_var() == 0,
            ctx.struct_table() == Map::<Seq<char>, StructModel>::empty(),
            ctx.class_table() == Map::<Seq<char>, ClassModel>::empty(),
            ctx.agent_table() == Map::<Seq<char>, AgentModel>::empty(),
            ctx.tool_table() == Map::<Seq<char>, ToolModel>::empty(),
            ctx.error_list() == Seq::<TypeError>::empty(),
    {
        let mut scopes: Vec<Scope> = Vec::new();
        scopes.push(Scope::new());
        let ctx = TypeContext {
            scopes,
            substitutions: substitutions_new(),
            next_type_var: 0,
            structs: structs_new(),
            classes: classes_new(),
            agents: agents_new(),
            tools: tools_new(),
            errors: Vec::new(),
        };
        proof {
            assert(ctx.scope_stack() =~= seq![plain_scope(None, false, false)]);
            let rank = |x: u32| 0nat;
            assert(ranked(ctx.subst(), rank));
        }
        ctx
    }

    /// A context as `new` makes it: a global scope holding exactly the builtins,
    /// and nothing else.
    pub open spec fn is_fresh(&self) -> bool {
        &&& self.wf()
        &&& self.scope_stack() == seq![
            ScopeModel {
                symbols: all_builtins(Map::empty()),
                return_type: None,
                is_loop: false,
                is_async: false,
            },
        ]
        &&& self.subst() == Map::<u32, Ty>::empty()
        &&& self.next_var() == 0
        &&& self.struct_table() == Map::<Seq<char>, StructModel>::empty()
        &&& self.class_table() == Map::<Seq<char>, ClassModel>::empty()
        &&& self.agent_table() == Map::<Seq<char>, AgentModel>::empty()
        &&& self.tool_table() == Map::<Seq<char>, ToolModel>::empty()
        &&& self.error_list() == Seq::<TypeError>::empty()
    }

    /// Create a new type checking context with builtins registered.
    pub fn new() -> (ctx: Self)
        ensures
            ctx.is_fresh(),
    {
        let mut ctx = TypeContext::empty();
        ctx.register_builtins();
        ctx
    }

    /// Register built-in functions and types.
    fn register_builtins(&mut self)
        requires
            old(self).wf(),
            old(self).scope_stack().len() == 1,
        ensures
            final(self).wf(),
            final(self).scope_stack() == seq![
                ScopeModel {
                    symbols: all_builtins(old(self).scope_stack()[0].symbols),
                    ..old(self).scope_stack()[0]
                },
            ],
            final(self).same_but_scopes(old(self)),
    {
        register_all(self);
    }

    // =========================================================================
    // SCOPE MANAGEMENT
    // =========================================================================

    fn push_scope(&mut self, scope: Scope)
        requires
            old(self).wf(),
        ensures
            final(self).wf(),
            final(self).scope_stack() == old(self).scope_stack().push(scope@),
            final(self).same_but_scopes(old(self)),
    {
        self.scopes.push(scope);
        assert(self.scope_stack() =~= old(self).scope_stack().push(scope@));
    }

    /// Enter a new lexical scope.
    pub fn enter_scope(&mut self)
        requires
            old(self).wf(),
        ensures
            final(self).wf(),
            final(self).scope_stack() == old(self).scope_stack().push(
                plain_scope(None, false, false),
            ),
            final(self).same_but_scopes(old(self)),
    {
        self.push_scope(Scope::new());
    }

    /// Enter a function scope with expected return type.
    pub fn enter_function_scope(&mut self, return_type: Type, is_async: bool)
        requires
            old(self).wf(),
        ensures
            final(self).wf(),
            final(self).scope_stack() == old(self).scope_stack().push(
                plain_scope(Some(return_type.view_ty()), false, is_async),
            ),
            final(self).same_but_scopes(old(self)),
    {
        let mut scope = Scope::with_return_type(return_type);
        scope.is_async = is_async;
        self.push_scope(scope);
    }

    /// Enter a loop scope.
    pub fn enter_loop_scope(&mut self)
        requires
            old(self).wf(),
        ensures
            final(self).wf(),
            final(self).scope_stack() == old(self).scope_stack().push(
                plain_scope(None, true, false),
            ),
            final(self).same_but_scopes(old(self)),
    {
        let mut scope = Scope::new();
        scope.is_loop = true;
        self.push_scope(scope);
    }

    /// Exit the current lexical scope; the global scope is never left.
    pub fn exit_scope(&mut self)
        requires
            old(self).wf(),
        ensures
            final(self).wf(),
            final(self).scope_stack() == (if old(self).scope_stack().len() > 1 {
                old(self).scope_stack().drop_last()
            } else {
                old(self).scope_stack()
            }),
            final(self).same_but_scopes(old(self)),
    {
        if self.scopes.len() > 1 {
            self.scopes.pop();
            assert(self.scope_stack() =~= old(self).scope_stack().drop_last());
        }
    }

    /// Get the expected return type for the current function scope.
    pub fn expected_return_type(&self) -> (r: Option<&Type>)
        requires
            self.wf(),
        ensures
            match r {
                Some(t) => return_type_in(self.scope_stack()) == Some(t.view_ty()),
                None => return_type_in(self.scope_stack()) is None,
            },
    {
        let mut i: usize = self.scopes.len();
        assert(self.scope_stack().take(i as int) =~= self.scope_stack());
        while i > 0
            invariant
                i <= self.scopes.len(),
                self.scope_stack().len() == self.scopes.len(),
                return_type_in(self.scope_stack()) == return_type_in(
                    self.scope_stack().take(i as int),
                ),
            decreases i,
        {
            let ghost pre = self.scope_stack().take(i as int);
            assert(pre.last() == self.scopes@[i - 1]@);
            match &self.scopes[i - 1].return_type {
                Some(ret) => {
                    return Some(ret);
                },
                None => {},
            }
            assert(pre.drop_last() =~= self.scope_stack().take(i - 1));
            i -= 1;
        }
        None
    }

    /// Check if we're in a loop scope.
    pub fn in_loop(&self) -> (r: bool)
        requires
            self.wf(),
        ensures
            r == exists|i: int| 0 <= i < self.scope_stack().len() && #[trigger] self.scope_stack()[i].is_loop,
    {
        let mut i: usize = 0;
        while i < self.scopes.len()
            invariant
                i <= self.scopes.len(),
                self.scope_stack().len() == self.scopes.len(),
                forall|k: int| 0 <= k < i ==> !#[trigger] self.scope_stack()[k].is_loop,
            decreases self.scopes.len() - i,
        {
            assert(self.scope_stack()[i as int] == self.scopes@[i as int]@);
            if self.scopes[i].is_loop {
                assert(self.scope_stack()[i as int].is_loop);
                return true;
            }
            i += 1;
        }
        false
    }

    /// Check if we're in an async scope.
    pub fn in_async(&self) -> (r: bool)
        requires
            self.wf(),
        ensures
            r == exists|i: int| 0 <= i < self.scope_stack().len() && #[trigger] self.scope_stack()[i].is_async,
    {
        let mut i: usize = 0;
        while i < self.scopes.len()
            invariant
                i <= self.scopes.len(),
                self.scope_stack().len() == self.scopes.len(),
                forall|k: int| 0 <= k < i ==> !#[trigger] self.scope_stack()[k].is_async,
            decreases self.scopes.len() - i,
        {
            assert(self.scope_stack()[i as int] == self.scopes@[i as int]@);
            if self.scopes[i].is_async {
                assert(self.scope_stack()[i as int].is_async);
                return true;
            }
            i += 1;
        }
        false
    }

    // =========================================================================
    // SYMBOL TABLE
    // =========================================================================

    /// Define a new symbol in the current scope.
    pub fn define(&mut self, name: String, ty: Type, mutable: bool, span: Span)
        requires
            old(self).wf(),
        ensures
            final(self).wf(),
            final(self).scope_stack() == define_in(
                old(self).scope_stack(),
                name@,
                SymbolModel { name: name@, ty: ty.view_ty(), mutable, span },
            ),
            final(self).same_but_scopes(old(self)),
    {
        let key = name.clone();
        let symbol = Symbol { name, ty, mutable, span };
        let mut top = self.scopes.pop().unwrap();
        symbols_insert(&mut top.symbols, key, symbol);
        self.scopes.push(top);
        assert(self.scope_stack() =~= define_in(
            old(self).scope_stack(),
            key@,
            SymbolModel { name: key@, ty: symbol.ty.view_ty(), mutable, span },
        ));
    }

    /// Define a const (immutable) binding.
    pub fn define_const(&mut self, name: String, ty: Type, span: Span)
        requires
            old(self).wf(),
        ensures
            final(self).wf(),
            final(self).scope_stack() == define_in(
                old(self).scope_stack(),
                name@,
                SymbolModel { name: name@, ty: ty.view_ty(), mutable: false, span },
            ),
            final(self).same_but_scopes(old(self)),
    {
        self.define(name, ty, false, span);
    }

    /// Define a let (mutable) binding.
    pub fn define_let(&mut self, name: String, ty: Type, span: Span)
        requires
            old(self).wf(),
        ensures
            final(self).wf(),
            final(self).scope_stack() == define_in(
                old(self).scope_stack(),
                name@,
                SymbolModel { name: name@, ty: ty.view_ty(), mutable: true, span },
            ),
            final(self).same_but_scopes(old(self)),
    {
        self.define(name, ty, true, span);
    }

    /// Look up a symbol by name, searching from innermost to outermost scope.
    pub fn lookup(&self, name: &str) -> (r: Option<&Symbol>)
        requires
            self.wf(),
        ensures
            match r {
                Some(s) => lookup_in(self.scope_stack(), name@) == Some(s@),
                None => lookup_in(self.scope_stack(), name@) is None,
            },
    {
        let mut i: usize = self.scopes.len();
        assert(self.scope_stack().take(i as int) =~= self.scope_stack());
        while i > 0
            invariant
                i <= self.scopes.len(),
                self.scope_stack().len() == self.scopes.len(),
                lookup_in(self.scope_stack(), name@) == lookup_in(
                    self.scope_stack().take(i as int),
                    name@,
                ),
            decreases i,
        {
            let ghost pre = self.scope_stack().take(i as int);
            assert(pre.last() == self.scopes@[i - 1]@);
            match symbols_get(&self.scopes[i - 1].symbols, name) {
                Some(sym) => {
                    return Some(sym);
                },
                None => {},
            }
            assert(pre.drop_last() =~= self.scope_stack().take(i - 1));
            i -= 1;
        }
        None
    }

    /// Check if a symbol is defined in the current scope (not parent scopes).
    pub fn is_defined_locally(&self, name: &str) -> (r: bool)
        requires
            self.wf(),
        ensures
            r == self.scope_stack().last().symbols.contains_key(name@),
    {
        let n = self.scopes.len();
        assert(self.scope_stack().last() == self.scopes@[n - 1]@);
        symbols_contains(&self.scopes[n - 1].symbols, name)
    }

    // =========================================================================
    // TYPE REGISTRATION
    // =========================================================================

    /// Register a struct type under its name.
    pub fn register_struct(&mut self, info: StructInfo)
        requires
            old(self).wf(),
        ensures
            final(self).wf(),
            final(self).struct_table() == old(self).struct_table().insert(info.name@, info@),
            final(self).scope_stack() == old(self).scope_stack(),
            final(self).subst() == old(self).subst(),
            final(self).next_var() == old(self).next_var(),
            final(self).class_table() == old(self).class_table(),
            final(self).agent_table() == old(self).agent_table(),
            final(self).tool_table() == old(self).tool_table(),
            final(self).error_list() == old(self).error_list(),
    {
        let key = info.name.clone();
        structs_insert(&mut self.structs, key, info);
    }

    /// Register a class type under its name.
    pub fn register_class(&mut self, info: ClassInfo)
        requires
            old(self).wf(),
        ensures
            final(self).wf(),
            final(self).class_table() == old(self).class_table().insert(info.name@, info@),
            final(self).scope_stack() == old(self).scope_stack(),
            final(self).subst() == old(self).subst(),
            final(self).next_var() == old(self).next_var(),
            final(self).struct_table() == old(self).struct_table(),
            final(self).agent_table() == old(self).agent_table(),
            final(self).tool_table() == old(self).tool_table(),
            final(self).error_list() == old(self).error_list(),
    {
        let key = info.name.clone();
        classes_insert(&mut self.classes, key, info);
    }

    /// Register an agent type under its name.
    pub fn register_agent(&mut self, info: AgentInfo)
        requires
            old(self).wf(),
        ensures
            final(self).wf(),
            final(self).agent_table() == old(self).agent_table().insert(info.name@, info@),
            final(self).scope_stack() == old(self).scope_stack(),
            final(self).subst() == old(self).subst(),
            final(self).next_var() == old(self).next_var(),
            final(self).struct_table() == old(self).struct_table(),
            final(self).class_table() == old(self).class_table(),
            final(self).tool_table() == old(self).tool_table(),
            final(self).error_list() == old(self).error_list(),
    {
        let key = info.name.clone();
        agents_insert(&mut self.agents, key, info);
    }

    /// Register a tool type under its name.
    pub fn register_tool(&mut self, info: ToolInfo)
        requires
            old(self).wf(),
        ensures
            final(self).wf(),
            final(self).tool_table() == old(self).tool_table().insert(info.name@, info@),
            final(self).scope_stack() == old(self).scope_stack(),
            final(self).subst() == old(self).subst(),
            final(self).next_var() == old(self).next_var(),
            final(self).struct_table() == old(self).struct_table(),
            final(self).class_table() == old(self).class_table(),
            final(self).agent_table() == old(self).agent_table(),
            final(self).error_list() == old(self).error_list(),
    {
        let key = info.name.clone();
        tools_insert(&mut self.tools, key, info);
    }

    /// Look up a struct by name.
    pub fn lookup_struct(&self, name: &str) -> (r: Option<&StructInfo>)
        ensures
            match r {
                Some(s) => self.struct_table().contains_key(name@) && s@ == self.struct_table()[name@],
                None => !self.struct_table().contains_key(name@),
            },
    {
        structs_get(&self.structs, name)
    }

    /// Look up a class by name.
    pub fn lookup_class(&self, name: &str) -> (r: Option<&ClassInfo>)
        ensures
            match r {
                Some(c) => self.class_table().contains_key(name@) && c@ == self.class_table()[name@],
                None => !self.class_table().contains_key(name@),
            },
    {
        classes_get(&self.classes, name)
    }

    /// Look up an agent by name.
    pub fn lookup_agent(&self, name: &str) -> (r: Option<&AgentInfo>)
        ensures
            match r {
                Some(a) => self.agent_table().contains_key(name@) && a@ == self.agent_table()[name@],
                None => !self.agent_table().contains_key(name@),
            },
    {
        agents_get(&self.agents, name)
    }

    /// Look up a tool by name.
    pub fn lookup_tool(&self, name: &str) -> (r: Option<&ToolInfo>)
        ensures
            match r {
                Some(t) => self.tool_table().contains_key(name@) && t@ == self.tool_table()[name@],
                None => !self.tool_table().contains_key(name@),
            },
    {
        tools_get(&self.tools, name)
    }

    // =========================================================================
    // TYPE VARIABLES
    // =========================================================================

    /// Generate a fresh type variable.
    pub fn fresh_type_var(&mut self) -> (r: Type)
        requires
            old(self).wf(),
            old(self).next_var() < u32::MAX,
        ensures
            final(self).wf(),
            r.view_ty() == Ty::TypeVar(old(self).next_var()),
            final(self).next_var() == old(self).next_var() + 1,
            final(self).scope_stack() == old(self).scope_stack(),
            final(self).subst() == old(self).subst(),
            final(self).struct_table() == old(self).struct_table(),
            final(self).class_table() == old(self).class_table(),
            final(self).agent_table() == old(self).agent_table(),
            final(self).tool_table() == old(self).tool_table(),
            final(self).error_list() == old(self).error_list(),
    {
        let id = self.next_type_var;
        self.next_type_var = self.next_type_var + 1;
        Type::TypeVar(id)
    }

    /// Get the substitution for a type variable, if any.
    pub fn get_substitution(&self, id: u32) -> (r: Option<&Type>)
        ensures
            match r {
                Some(t) => self.subst().contains_key(id) && t.view_ty() == self.subst()[id],
                None => !self.subst().contains_key(id),
            },
    {
        substitutions_get(&self.substitutions, id)
    }

    /// Bind a type variable to a type (replacing its binding, if it has one). The
    /// substitutions must stay free of cycles: resolving through a cycle would
    /// never end.
    pub fn set_substitution(&mut self, id: u32, ty: Type)
        requires
            old(self).wf(),
            acyclic(old(self).subst().insert(id, ty.view_ty())),
        ensures
            final(self).wf(),
            final(self).subst() == old(self).subst().insert(id, ty.view_ty()),
            final(self).same_but_inference(old(self)),
            final(self).error_list() == old(self).error_list(),
    {
        substitutions_insert(&mut self.substitutions, id, ty);
    }

    // =========================================================================
    // ERROR HANDLING
    // =========================================================================

    /// Record a type error.
    pub fn error(&mut self, err: TypeError)
        requires
            old(self).wf(),
        ensures
            final(self).wf(),
            final(self).error_list() == old(self).error_list().push(err),
            final(self).same_but_inference(old(self)),
            final(self).subst() == old(self).subst(),
    {
        self.errors.push(err);
    }

    /// Check if any errors have been recorded.
    pub fn has_errors(&self) -> (r: bool)
        ensures
            r == (self.error_list().len() > 0),
    {
        !self.errors.is_empty()
    }

    /// Get all recorded errors.
    pub fn errors(&self) -> (r: &[TypeError])
        ensures
            r@ == self.error_list(),
    {
        self.errors.as_slice()
    }

    /// Take all recorded errors, clearing the internal list.
    pub fn take_errors(&mut self) -> (r: Vec<TypeError>)
        requires
            old(self).wf(),
        ensures
            final(self).wf(),
            r@ == old(self).error_list(),
            final(self).error_list() == Seq::<TypeError>::empty(),
            final(self).same_but_inference(old(self)),
            final(self).subst() == old(self).subst(),
    {
        let mut taken: Vec<TypeError> = Vec::new();
        std::mem::swap(&mut taken, &mut self.errors);
        taken
    }
}

impl Default for TypeContext {
    fn default() -> (ctx: Self)
        ensures
            ctx.is_fresh(),
    {
        Self::new()
    }
}

/// A name defined in the innermost scope is found there.
pub proof fn lemma_lookup_after_define(scopes: Seq<ScopeModel>, name: Seq<char>, sym: SymbolModel)
    requires
        scopes.len() >= 1,
    ensures
        lookup_in(define_in(scopes, name, sym), name) == Some(sym),
{
}

/// Defining one name leaves what every other name denotes.
pub proof fn lemma_lookup_other_after_define(
    scopes: Seq<ScopeModel>,
    name: Seq<char>,
    other: Seq<char>,
    sym: SymbolModel,
)
    requires
        scopes.len() >= 1,
        other != name,
    ensures
        lookup_in(define_in(scopes, name, sym), other) == lookup_in(scopes, other),
{
    let d = define_in(scopes, name, sym);
    assert(d.drop_last() =~= scopes.drop_last());
}

/// Entering a scope hides nothing, and leaving it again restores the scopes.
pub proof fn lemma_enter_exit(scopes: Seq<ScopeModel>, name: Seq<char>, s: ScopeModel)
    requires
        s.symbols == Map::<Seq<char>, SymbolModel>::empty(),
    ensures
        lookup_in(scopes.push(s), name) == lookup_in(scopes, name),
        scopes.push(s).drop_last() == scopes,
{
    assert(scopes.push(s).drop_last() =~= scopes);
}

} // verus!
