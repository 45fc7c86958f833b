//! The A16 type checker: types, unification with substitutions, subtyping,
//! operator typing, narrowing and match exhaustiveness, and the checking of
//! expressions, statements, items and whole modules. Checking is Hindley-Milner
//! style inference with gradual typing (`Any`) and the AI-specific kinds of
//! item (agents, tools, memories, prompts).

pub mod narrowing;
pub mod types;
pub mod error;
pub mod exhaustive;
pub mod tables;
pub mod context;
pub mod unify;
pub mod builtins;
pub mod operators;
pub mod annotations;
pub mod declarations;
pub mod access;
pub mod patterns;
pub mod statements;
pub mod bodies;
pub mod ast;
pub mod check_expr;
pub mod check_stmt;
pub mod check_item;
pub mod invariants;

use vstd::prelude::*;
use crate::typeck::ast::{Item, Module};
use crate::typeck::builtins::{all_builtins, register_all, with_symbols};
use crate::typeck::check_expr::via2;
use crate::typeck::check_item::{items_ok, module_checked, module_fresh};
use crate::typeck::context::TypeContext;
use crate::typeck::error::TypeError;

verus! {

/// `new` is `old` with the builtins registered (once more) in its global scope.
pub open spec fn builtins_registered(old: TypeContext, new: TypeContext) -> bool {
    &&& new.wf()
    &&& new.scope_stack() == seq![with_symbols(old.scope_stack()[0], all_builtins(old.scope_stack()[0].symbols))]
    &&& new.same_but_scopes(&old)
}

/// `ctx` is the context checking a module with these items ends in: a new
/// context, with the builtins registered, then the module checked.
pub open spec fn module_result(items: Seq<Item>, ctx: TypeContext) -> bool {
    exists|s0: TypeContext, s1: TypeContext|
        #![trigger via2(s0, s1)]
        via2(s0, s1) && s0.is_fresh() && builtins_registered(s0, s1) && module_checked(s1, ctx, items)
}

/// Type check a module and return the errors found, in the order they were
/// reported: a new context with the builtins, every item registered, then every
/// item checked. (Each fresh type variable must fit in the `u32` counter; a
/// module import without an alias needs a path.)
pub fn check(module: &Module) -> (r: Vec<TypeError>)
    requires
        module_fresh(module.items@) <= u32::MAX,
        items_ok(module.items@),
    ensures
        exists|ctx: TypeContext|
            #![trigger module_result(module.items@, ctx)]
            module_result(module.items@, ctx) && r@ == ctx.error_list(),
{
    let mut ctx = TypeContext::new();
    let ghost s0 = ctx;
    register_all(&mut ctx);
    let ghost s1 = ctx;
    ctx.check_module(module);
    assert(via2(s0, s1));
    assert(module_result(module.items@, ctx));
    ctx.take_errors()
}

/// Type check a module and return the context it ends in, its errors taken out,
/// along with those errors.
pub fn check_with_context(module: &Module) -> (r: (TypeContext, Vec<TypeError>))
    requires
        module_fresh(module.items@) <= u32::MAX,
        items_ok(module.items@),
    ensures
        exists|ctx: TypeContext|
            #![trigger module_result(module.items@, ctx)]
            {
                &&& module_result(module.items@, ctx)
                &&& r.1@ == ctx.error_list()
                &&& r.0.wf()
                &&& r.0.error_list() == Seq::<TypeError>::empty()
                &&& r.0.same_but_inference(&ctx)
                &&& r.0.subst() == ctx.subst()
            },
{
    let mut ctx = TypeContext::new();
    let ghost s0 = ctx;
    register_all(&mut ctx);
    let ghost s1 = ctx;
    ctx.check_module(module);
    let ghost s2 = ctx;
    assert(via2(s0, s1));
    assert(module_result(module.items@, s2));
    let errors = ctx.take_errors();
    (ctx, errors)
}

} // verus!
