//! The functions, types and constants every program starts with.

use vstd::prelude::*;
use crate::typeck::context::{ScopeModel, SymbolModel, TypeContext};
use crate::typeck::error::Span;
use crate::typeck::types::{Ty, Type, lemma_views_of_index, views_of};
use crate::stdlib::text::owned;

verus! {

/// A table of symbols by name.
pub type Symbols = Map<Seq<char>, SymbolModel>;

/// The symbol a builtin is defined as: immutable, at the empty span.
pub open spec fn builtin(name: Seq<char>, ty: Ty) -> SymbolModel {
    SymbolModel { name, ty, mutable: false, span: Span { start: 0, end: 0 } }
}

/// `m` with the builtin `name` of type `ty`.
pub open spec fn with_builtin(m: Symbols, name: Seq<char>, ty: Ty) -> Symbols {
    m.insert(name, builtin(name, ty))
}

/// A scope with its symbols replaced.
pub open spec fn with_symbols(s: ScopeModel, symbols: Symbols) -> ScopeModel {
    ScopeModel { symbols, ..s }
}

/// A function type.
pub open spec fn fn_ty(params: Seq<Ty>, ret: Ty) -> Ty {
    Ty::Function { params, ret: Box::new(ret) }
}

/// An async function type.
pub open spec fn async_ty(params: Seq<Ty>, ret: Ty) -> Ty {
    Ty::AsyncFunction { params, ret: Box::new(ret) }
}

/// A list type.
pub open spec fn list_ty(t: Ty) -> Ty {
    Ty::List(Box::new(t))
}

/// A set type.
pub open spec fn set_ty(t: Ty) -> Ty {
    Ty::SetOf(Box::new(t))
}

/// An iterator type.
pub open spec fn iter_ty(t: Ty) -> Ty {
    Ty::Iterator(Box::new(t))
}

/// A dict type.
pub open spec fn dict_ty(k: Ty, v: Ty) -> Ty {
    Ty::Dict(Box::new(k), Box::new(v))
}

pub(crate) fn types0() -> (r: Vec<Type>)
    ensures
        views_of(r@) == Seq::<Ty>::empty(),
{
    let r: Vec<Type> = Vec::new();
    proof {
        lemma_views_of_index(r@);
    }
    r
}

pub(crate) fn types1(a: Type) -> (r: Vec<Type>)
    ensures
        views_of(r@) == seq![a.view_ty()],
{
    let mut r: Vec<Type> = Vec::new();
    r.push(a);
    proof {
        lemma_views_of_index(r@);
        assert(views_of(r@) =~= seq![a.view_ty()]);
    }
    r
}

pub(crate) fn types2(a: Type, b: Type) -> (r: Vec<Type>)
    ensures
        views_of(r@) == seq![a.view_ty(), b.view_ty()],
{
    let mut r: Vec<Type> = Vec::new();
    r.push(a);
    r.push(b);
    proof {
        lemma_views_of_index(r@);
        assert(views_of(r@) =~= seq![a.view_ty(), b.view_ty()]);
    }
    r
}

pub(crate) fn types3(a: Type, b: Type, c: Type) -> (r: Vec<Type>)
    ensures
        views_of(r@) == seq![a.view_ty(), b.view_ty(), c.view_ty()],
{
    let mut r: Vec<Type> = Vec::new();
    r.push(a);
    r.push(b);
    r.push(c);
    proof {
        lemma_views_of_index(r@);
        assert(views_of(r@) =~= seq![a.view_ty(), b.view_ty(), c.view_ty()]);
    }
    r
}

pub(crate) fn func(params: Vec<Type>, ret: Type) -> (r: Type)
    ensures
        r.view_ty() == fn_ty(views_of(params@), ret.view_ty()),
{
    Type::Function { params, ret: Box::new(ret) }
}

fn async_func(params: Vec<Type>, ret: Type) -> (r: Type)
    ensures
        r.view_ty() == async_ty(views_of(params@), ret.view_ty()),
{
    Type::AsyncFunction { params, ret: Box::new(ret) }
}

pub(crate) fn list_of(t: Type) -> (r: Type)
    ensures
        r.view_ty() == list_ty(t.view_ty()),
{
    Type::List(Box::new(t))
}

fn set_of(t: Type) -> (r: Type)
    ensures
        r.view_ty() == set_ty(t.view_ty()),
{
    Type::SetOf(Box::new(t))
}

pub(crate) fn iter_of(t: Type) -> (r: Type)
    ensures
        r.view_ty() == iter_ty(t.view_ty()),
{
    Type::Iterator(Box::new(t))
}

fn dict_of(k: Type, v: Type) -> (r: Type)
    ensures
        r.view_ty() == dict_ty(k.view_ty(), v.view_ty()),
{
    Type::Dict(Box::new(k), Box::new(v))
}

/// Define one builtin in the global scope.
fn define_builtin(ctx: &mut TypeContext, name: &str, ty: Type)
    requires
        old(ctx).wf(),
        old(ctx).scope_stack().len() == 1,
    ensures
        final(ctx).wf(),
        final(ctx).scope_stack() == seq![
            with_symbols(
                old(ctx).scope_stack()[0],
                with_builtin(old(ctx).scope_stack()[0].symbols, name@, ty.view_ty()),
            ),
        ],
        final(ctx).same_but_scopes(old(ctx)),
{
    let ghost before = ctx.scope_stack();
    ctx.define(owned(name), ty, false, Span { start: 0, end: 0 });
    assert(ctx.scope_stack() =~= seq![
        with_symbols(before[0], with_builtin(before[0].symbols, name@, ty.view_ty())),
    ]);
}

/// The symbol table `m` with the I/O and string functions added, in order.
pub open spec fn io_builtins(m: Symbols) -> Symbols {
    let m = with_builtin(m, "print"@, fn_ty(seq![Ty::Any], Ty::NoneType));
    let m = with_builtin(m, "println"@, fn_ty(seq![Ty::Any], Ty::NoneType));
    let m = with_builtin(m, "input"@, fn_ty(seq![Ty::Str], Ty::Str));
    let m = with_builtin(m, "upper"@, fn_ty(seq![Ty::Str], Ty::Str));
    let m = with_builtin(m, "lower"@, fn_ty(seq![Ty::Str], Ty::Str));
    let m = with_builtin(m, "strip"@, fn_ty(seq![Ty::Str], Ty::Str));
    let m = with_builtin(m, "split"@, fn_ty(seq![Ty::Str, Ty::Str], list_ty(Ty::Str)));
    let m = with_builtin(m, "join"@, fn_ty(seq![Ty::Str, list_ty(Ty::Str)], Ty::Str));
    m
}

/// The symbol table `m` with the list mutation and conversion functions added, in order.
pub open spec fn conversion_builtins(m: Symbols) -> Symbols {
    let m = with_builtin(m, "append"@, fn_ty(seq![Ty::Any, Ty::Any], Ty::NoneType));
    let m = with_builtin(m, "push"@, fn_ty(seq![Ty::Any, Ty::Any], Ty::NoneType));
    let m = with_builtin(m, "pop"@, fn_ty(seq![Ty::Any], Ty::Any));
    let m = with_builtin(m, "int"@, fn_ty(seq![Ty::Any], Ty::Int));
    let m = with_builtin(m, "float"@, fn_ty(seq![Ty::Any], Ty::Float));
    let m = with_builtin(m, "str"@, fn_ty(seq![Ty::Any], Ty::Str));
    let m = with_builtin(m, "bool"@, fn_ty(seq![Ty::Any], Ty::Bool));
    let m = with_builtin(m, "bytes"@, fn_ty(seq![Ty::Any], Ty::Bytes));
    let m = with_builtin(m, "list"@, fn_ty(seq![Ty::Any], list_ty(Ty::Any)));
    let m = with_builtin(m, "dict"@, fn_ty(Seq::empty(), dict_ty(Ty::Any, Ty::Any)));
    let m = with_builtin(m, "set"@, fn_ty(seq![Ty::Any], set_ty(Ty::Any)));
    let m = with_builtin(m, "tuple"@, fn_ty(seq![Ty::Any], Ty::Tuple(Seq::empty())));
    m
}

/// The symbol table `m` with the length, ranges and iteration added, in order.
pub open spec fn iteration_builtins(m: Symbols) -> Symbols {
    let m = with_builtin(m, "len"@, fn_ty(seq![Ty::Any], Ty::Int));
    let m = with_builtin(m, "range"@, fn_ty(seq![Ty::Int], iter_ty(Ty::Int)));
    let m = with_builtin(m, "enumerate"@, fn_ty(seq![Ty::Any], iter_ty(Ty::Tuple(seq![Ty::Int, Ty::Any]))));
    let m = with_builtin(m, "zip"@, fn_ty(seq![Ty::Any, Ty::Any], iter_ty(Ty::Tuple(seq![Ty::Any, Ty::Any]))));
    let m = with_builtin(m, "map"@, fn_ty(seq![Ty::Any, Ty::Any], iter_ty(Ty::Any)));
    let m = with_builtin(m, "filter"@, fn_ty(seq![Ty::Any, Ty::Any], iter_ty(Ty::Any)));
    let m = with_builtin(m, "reduce"@, fn_ty(seq![Ty::Any, Ty::Any, Ty::Any], Ty::Any));
    let m = with_builtin(m, "sorted"@, fn_ty(seq![Ty::Any], list_ty(Ty::Any)));
    let m = with_builtin(m, "reversed"@, fn_ty(seq![Ty::Any], iter_ty(Ty::Any)));
    m
}

/// The symbol table `m` with the math functions added, in order.
pub open spec fn math_builtins(m: Symbols) -> Symbols {
    let m = with_builtin(m, "abs"@, fn_ty(seq![Ty::Any], Ty::Any));
    let m = with_builtin(m, "min"@, fn_ty(seq![Ty::Any], Ty::Any));
    let m = with_builtin(m, "max"@, fn_ty(seq![Ty::Any], Ty::Any));
    let m = with_builtin(m, "sum"@, fn_ty(seq![Ty::Any], Ty::Any));
    let m = with_builtin(m, "pow"@, fn_ty(seq![Ty::Any, Ty::Any], Ty::Any));
    let m = with_builtin(m, "sqrt"@, fn_ty(seq![Ty::Float], Ty::Float));
    m
}

/// The symbol table `m` with the reflection and formatting functions added, in order.
pub open spec fn reflection_builtins(m: Symbols) -> Symbols {
    let m = with_builtin(m, "type"@, fn_ty(seq![Ty::Any], Ty::Str));
    let m = with_builtin(m, "isinstance"@, fn_ty(seq![Ty::Any, Ty::Any], Ty::Bool));
    let m = with_builtin(m, "hasattr"@, fn_ty(seq![Ty::Any, Ty::Str], Ty::Bool));
    let m = with_builtin(m, "getattr"@, fn_ty(seq![Ty::Any, Ty::Str], Ty::Any));
    let m = with_builtin(m, "setattr"@, fn_ty(seq![Ty::Any, Ty::Str, Ty::Any], Ty::NoneType));
    let m = with_builtin(m, "repr"@, fn_ty(seq![Ty::Any], Ty::Str));
    let m = with_builtin(m, "format"@, fn_ty(seq![Ty::Str, Ty::Any], Ty::Str));
    let m = with_builtin(m, "hash"@, fn_ty(seq![Ty::Any], Ty::Int));
    m
}

/// The symbol table `m` with the async and AI primitives and the first tensor operations added, in order.
pub open spec fn ai_builtins(m: Symbols) -> Symbols {
    let m = with_builtin(m, "sleep"@, async_ty(seq![Ty::Float], Ty::NoneType));
    let m = with_builtin(m, "embed"@, async_ty(seq![Ty::Any], Ty::Embedding));
    let m = with_builtin(m, "token_count"@, fn_ty(seq![Ty::Str], Ty::Int));
    let m = with_builtin(m, "now"@, fn_ty(Seq::empty(), Ty::Float));
    let m = with_builtin(m, "tensor_zeros"@, fn_ty(seq![list_ty(Ty::Int)], Ty::Any));
    let m = with_builtin(m, "tensor_ones"@, fn_ty(seq![list_ty(Ty::Int)], Ty::Any));
    let m = with_builtin(m, "tensor_randn"@, fn_ty(seq![list_ty(Ty::Int)], Ty::Any));
    let m = with_builtin(m, "tensor_add"@, fn_ty(seq![Ty::Any, Ty::Any], Ty::Any));
    let m = with_builtin(m, "tensor_mul"@, fn_ty(seq![Ty::Any, Ty::Any], Ty::Any));
    let m = with_builtin(m, "tensor_matmul"@, fn_ty(seq![Ty::Any, Ty::Any], Ty::Any));
    let m = with_builtin(m, "tensor_relu"@, fn_ty(seq![Ty::Any], Ty::Any));
    let m = with_builtin(m, "tensor_mean"@, fn_ty(seq![Ty::Any], Ty::Any));
    let m = with_builtin(m, "tensor_backward"@, fn_ty(seq![Ty::Any], Ty::NoneType));
    let m = with_builtin(m, "tensor_grad"@, fn_ty(seq![Ty::Any], Ty::Any));
    let m = with_builtin(m, "tensor_item"@, fn_ty(seq![Ty::Any], Ty::Float));
    m
}

/// The symbol table `m` with the memory and further tensor operations added, in order.
pub open spec fn memory_builtins(m: Symbols) -> Symbols {
    let m = with_builtin(m, "memory_new"@, fn_ty(seq![Ty::Int], Ty::Any));
    let m = with_builtin(m, "memory_store"@, fn_ty(seq![Ty::Any, Ty::Any], Ty::NoneType));
    let m = with_builtin(m, "memory_retrieve"@, fn_ty(seq![Ty::Any, Ty::Any], Ty::Any));
    let m = with_builtin(m, "tensor_shape"@, fn_ty(seq![Ty::Any], list_ty(Ty::Int)));
    let m = with_builtin(m, "tensor_data"@, fn_ty(seq![Ty::Any], list_ty(Ty::Float)));
    let m = with_builtin(m, "tensor_from_list"@, fn_ty(seq![list_ty(Ty::Float), list_ty(Ty::Int)], Ty::Any));
    let m = with_builtin(m, "tensor_sub"@, fn_ty(seq![Ty::Any, Ty::Any], Ty::Any));
    m
}

/// The symbol table `m` with the boolean and mathematical constants added, in order.
pub open spec fn constants_builtins(m: Symbols) -> Symbols {
    let m = with_builtin(m, "True"@, Ty::Bool);
    let m = with_builtin(m, "False"@, Ty::Bool);
    let m = with_builtin(m, "None"@, Ty::NoneType);
    let m = with_builtin(m, "PI"@, Ty::Float);
    let m = with_builtin(m, "E"@, Ty::Float);
    let m = with_builtin(m, "INF"@, Ty::Float);
    let m = with_builtin(m, "NAN"@, Ty::Float);
    m
}

/// Define the I/O and string functions.
fn register_io(ctx: &mut TypeContext)
    requires
        old(ctx).wf(),
        old(ctx).scope_stack().len() == 1,
    ensures
        final(ctx).wf(),
        final(ctx).scope_stack() == seq![
            with_symbols(
                old(ctx).scope_stack()[0],
                io_builtins(old(ctx).scope_stack()[0].symbols),
            ),
        ],
        final(ctx).same_but_scopes(old(ctx)),
{
    define_builtin(ctx, "print", func(types1(Type::Any), Type::NoneType));
    define_builtin(ctx, "println", func(types1(Type::Any), Type::NoneType));
    define_builtin(ctx, "input", func(types1(Type::Str), Type::Str));
    define_builtin(ctx, "upper", func(types1(Type::Str), Type::Str));
    define_builtin(ctx, "lower", func(types1(Type::Str), Type::Str));
    define_builtin(ctx, "strip", func(types1(Type::Str), Type::Str));
    define_builtin(ctx, "split", func(types2(Type::Str, Type::Str), list_of(Type::Str)));
    define_builtin(ctx, "join", func(types2(Type::Str, list_of(Type::Str)), Type::Str));
}

/// Define the list mutation and conversion functions.
fn register_conversion(ctx: &mut TypeContext)
    requires
        old(ctx).wf(),
        old(ctx).scope_stack().len() == 1,
    ensures
        final(ctx).wf(),
        final(ctx).scope_stack() == seq![
            with_symbols(
                old(ctx).scope_stack()[0],
                conversion_builtins(old(ctx).scope_stack()[0].symbols),
            ),
        ],
        final(ctx).same_but_scopes(old(ctx)),
{
    define_builtin(ctx, "append", func(types2(Type::Any, Type::Any), Type::NoneType));
    define_builtin(ctx, "push", func(types2(Type::Any, Type::Any), Type::NoneType));
    define_builtin(ctx, "pop", func(types1(Type::Any), Type::Any));
    define_builtin(ctx, "int", func(types1(Type::Any), Type::Int));
    define_builtin(ctx, "float", func(types1(Type::Any), Type::Float));
    define_builtin(ctx, "str", func(types1(Type::Any), Type::Str));
    define_builtin(ctx, "bool", func(types1(Type::Any), Type::Bool));
    define_builtin(ctx, "bytes", func(types1(Type::Any), Type::Bytes));
    define_builtin(ctx, "list", func(types1(Type::Any), list_of(Type::Any)));
    define_builtin(ctx, "dict", func(types0(), dict_of(Type::Any, Type::Any)));
    define_builtin(ctx, "set", func(types1(Type::Any), set_of(Type::Any)));
    define_builtin(ctx, "tuple", func(types1(Type::Any), Type::Tuple(types0())));
}

/// Define the length, ranges and iteration.
fn register_iteration(ctx: &mut TypeContext)
    requires
        old(ctx).wf(),
        old(ctx).scope_stack().len() == 1,
    ensures
        final(ctx).wf(),
        final(ctx).scope_stack() == seq![
            with_symbols(
                old(ctx).scope_stack()[0],
                iteration_builtins(old(ctx).scope_stack()[0].symbols),
            ),
        ],
        final(ctx).same_but_scopes(old(ctx)),
{
    define_builtin(ctx, "len", func(types1(Type::Any), Type::Int));
    define_builtin(ctx, "range", func(types1(Type::Int), iter_of(Type::Int)));
    define_builtin(ctx, "enumerate", func(types1(Type::Any), iter_of(Type::Tuple(types2(Type::Int, Type::Any)))));
    define_builtin(ctx, "zip", func(types2(Type::Any, Type::Any), iter_of(Type::Tuple(types2(Type::Any, Type::Any)))));
    define_builtin(ctx, "map", func(types2(Type::Any, Type::Any), iter_of(Type::Any)));
    define_builtin(ctx, "filter", func(types2(Type::Any, Type::Any), iter_of(Type::Any)));
    define_builtin(ctx, "reduce", func(types3(Type::Any, Type::Any, Type::Any), Type::Any));
    define_builtin(ctx, "sorted", func(types1(Type::Any), list_of(Type::Any)));
    define_builtin(ctx, "reversed", func(types1(Type::Any), iter_of(Type::Any)));
}

/// Define the math functions.
fn register_math(ctx: &mut TypeContext)
    requires
        old(ctx).wf(),
        old(ctx).scope_stack().len() == 1,
    ensures
        final(ctx).wf(),
        final(ctx).scope_stack() == seq![
            with_symbols(
                old(ctx).scope_stack()[0],
                math_builtins(old(ctx).scope_stack()[0].symbols),
            ),
        ],
        final(ctx).same_but_scopes(old(ctx)),
{
    define_builtin(ctx, "abs", func(types1(Type::Any), Type::Any));
    define_builtin(ctx, "min", func(types1(Type::Any), Type::Any));
    define_builtin(ctx, "max", func(types1(Type::Any), Type::Any));
    define_builtin(ctx, "sum", func(types1(Type::Any), Type::Any));
    define_builtin(ctx, "pow", func(types2(Type::Any, Type::Any), Type::Any));
    define_builtin(ctx, "sqrt", func(types1(Type::Float), Type::Float));
}

/// Define the reflection and formatting functions.
fn register_reflection(ctx: &mut TypeContext)
    requires
        old(ctx).wf(),
        old(ctx).scope_stack().len() == 1,
    ensures
        final(ctx).wf(),
        final(ctx).scope_stack() == seq![
            with_symbols(
                old(ctx).scope_stack()[0],
                reflection_builtins(old(ctx).scope_stack()[0].symbols),
            ),
        ],
        final(ctx).same_but_scopes(old(ctx)),
{
    define_builtin(ctx, "type", func(types1(Type::Any), Type::Str));
    define_builtin(ctx, "isinstance", func(types2(Type::Any, Type::Any), Type::Bool));
    define_builtin(ctx, "hasattr", func(types2(Type::Any, Type::Str), Type::Bool));
    define_builtin(ctx, "getattr", func(types2(Type::Any, Type::Str), Type::Any));
    define_builtin(ctx, "setattr", func(types3(Type::Any, Type::Str, Type::Any), Type::NoneType));
    define_builtin(ctx, "repr", func(types1(Type::Any), Type::Str));
    define_builtin(ctx, "format", func(types2(Type::Str, Type::Any), Type::Str));
    define_builtin(ctx, "hash", func(types1(Type::Any), Type::Int));
}

/// Define the async and AI primitives and the first tensor operations.
fn register_ai(ctx: &mut TypeContext)
    requires
        old(ctx).wf(),
        old(ctx).scope_stack().len() == 1,
    ensures
        final(ctx).wf(),
        final(ctx).scope_stack() == seq![
            with_symbols(
                old(ctx).scope_stack()[0],
                ai_builtins(old(ctx).scope_stack()[0].symbols),
            ),
        ],
        final(ctx).same_but_scopes(old(ctx)),
{
    define_builtin(ctx, "sleep", async_func(types1(Type::Float), Type::NoneType));
    define_builtin(ctx, "embed", async_func(types1(Type::Any), Type::Embedding));
    define_builtin(ctx, "token_count", func(types1(Type::Str), Type::Int));
    define_builtin(ctx, "now", func(types0(), Type::Float));
    define_builtin(ctx, "tensor_zeros", func(types1(list_of(Type::Int)), Type::Any));
    define_builtin(ctx, "tensor_ones", func(types1(list_of(Type::Int)), Type::Any));
    define_builtin(ctx, "tensor_randn", func(types1(list_of(Type::Int)), Type::Any));
    define_builtin(ctx, "tensor_add", func(types2(Type::Any, Type::Any), Type::Any));
    define_builtin(ctx, "tensor_mul", func(types2(Type::Any, Type::Any), Type::Any));
    define_builtin(ctx, "tensor_matmul", func(types2(Type::Any, Type::Any), Type::Any));
    define_builtin(ctx, "tensor_relu", func(types1(Type::Any), Type::Any));
    define_builtin(ctx, "tensor_mean", func(types1(Type::Any), Type::Any));
    define_builtin(ctx, "tensor_backward", func(types1(Type::Any), Type::NoneType));
    define_builtin(ctx, "tensor_grad", func(types1(Type::Any), Type::Any));
    define_builtin(ctx, "tensor_item", func(types1(Type::Any), Type::Float));
}

/// Define the memory and further tensor operations.
fn register_memory(ctx: &mut TypeContext)
    requires
        old(ctx).wf(),
        old(ctx).scope_stack().len() == 1,
    ensures
        final(ctx).wf(),
        final(ctx).scope_stack() == seq![
            with_symbols(
                old(ctx).scope_stack()[0],
                memory_builtins(old(ctx).scope_stack()[0].symbols),
            ),
        ],
        final(ctx).same_but_scopes(old(ctx)),
{
    define_builtin(ctx, "memory_new", func(types1(Type::Int), Type::Any));
    define_builtin(ctx, "memory_store", func(types2(Type::Any, Type::Any), Type::NoneType));
    define_builtin(ctx, "memory_retrieve", func(types2(Type::Any, Type::Any), Type::Any));
    define_builtin(ctx, "tensor_shape", func(types1(Type::Any), list_of(Type::Int)));
    define_builtin(ctx, "tensor_data", func(types1(Type::Any), list_of(Type::Float)));
    define_builtin(ctx, "tensor_from_list", func(types2(list_of(Type::Float), list_of(Type::Int)), Type::Any));
    define_builtin(ctx, "tensor_sub", func(types2(Type::Any, Type::Any), Type::Any));
}

/// Define the boolean and mathematical constants.
fn register_constants(ctx: &mut TypeContext)
    requires
        old(ctx).wf(),
        old(ctx).scope_stack().len() == 1,
    ensures
        final(ctx).wf(),
        final(ctx).scope_stack() == seq![
            with_symbols(
                old(ctx).scope_stack()[0],
                constants_builtins(old(ctx).scope_stack()[0].symbols),
            ),
        ],
        final(ctx).same_but_scopes(old(ctx)),
{
    define_builtin(ctx, "True", Type::Bool);
    define_builtin(ctx, "False", Type::Bool);
    define_builtin(ctx, "None", Type::NoneType);
    define_builtin(ctx, "PI", Type::Float);
    define_builtin(ctx, "E", Type::Float);
    define_builtin(ctx, "INF", Type::Float);
    define_builtin(ctx, "NAN", Type::Float);
}
/// The symbols of all builtins, added to `m` in order: the functions, then the constants.
pub open spec fn all_builtins(m: Symbols) -> Symbols {
    constants_builtins(
        memory_builtins(
            ai_builtins(
                reflection_builtins(
                    math_builtins(iteration_builtins(conversion_builtins(io_builtins(m)))),
                ),
            ),
        ),
    )
}

/// Register built-in functions.
fn register_builtin_functions(ctx: &mut TypeContext)
    requires
        old(ctx).wf(),
        old(ctx).scope_stack().len() == 1,
    ensures
        final(ctx).wf(),
        final(ctx).scope_stack() == seq![
            with_symbols(
                old(ctx).scope_stack()[0],
                memory_builtins(
                    ai_builtins(
                        reflection_builtins(
                            math_builtins(
                                iteration_builtins(
                                    conversion_builtins(io_builtins(old(ctx).scope_stack()[0].symbols)),
                                ),
                            ),
                        ),
                    ),
                ),
            ),
        ],
        final(ctx).same_but_scopes(old(ctx)),
{
    register_io(ctx);
    register_conversion(ctx);
    register_iteration(ctx);
    register_math(ctx);
    register_reflection(ctx);
    register_ai(ctx);
    register_memory(ctx);
}

/// Register built-in type aliases and constants.
fn register_builtin_types(ctx: &mut TypeContext)
    requires
        old(ctx).wf(),
        old(ctx).scope_stack().len() == 1,
    ensures
        final(ctx).wf(),
        final(ctx).scope_stack() == seq![
            with_symbols(
                old(ctx).scope_stack()[0],
                constants_builtins(old(ctx).scope_stack()[0].symbols),
            ),
        ],
        final(ctx).same_but_scopes(old(ctx)),
{
    register_constants(ctx);
}

/// Register all built-in functions and types in the global scope.
pub fn register_all(ctx: &mut TypeContext)
    requires
        old(ctx).wf(),
        old(ctx).scope_stack().len() == 1,
    ensures
        final(ctx).wf(),
        final(ctx).scope_stack() == seq![
            with_symbols(old(ctx).scope_stack()[0], all_builtins(old(ctx).scope_stack()[0].symbols)),
        ],
        final(ctx).same_but_scopes(old(ctx)),
{
    register_builtin_functions(ctx);
    register_builtin_types(ctx);
}

} // verus!
