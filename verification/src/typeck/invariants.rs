//! What checking keeps. Checking an expression leaves the scopes as they were
//! (lambdas and comprehensions bind their names in scopes of their own, which are
//! closed again); checking a statement, an item or a whole module changes at most
//! the innermost scope, by what it defines there, and closes every scope it
//! opens. And no checking step drops or changes an error reported before it: new
//! errors only ever come after the old ones.

use vstd::prelude::*;
use crate::typeck::access::{call_params, callee_checked, member_checked, subscript_checked};
use crate::typeck::annotations::TypeExpr;
use crate::typeck::ast::{
    AgentConfig, AgentDef, AgentMember, ClassDef, ClassMember, Expr, ExprKind, FieldDef, Generator, Handler, Item,
    MatchArm, MemoryMember, PromptSection, Stmt, ToolMember, WithItem,
};
use crate::typeck::bodies::{
    body_entered, handler_entered, import_symbols, lambda_entered, param_annotations, param_symbols, Param,
};
use crate::typeck::check_expr::{
    args_unified, elems_folded, entered, expr_checked, exited, exprs_checked, exprs_typed, gens_checked,
    pairs_folded, via1, via2, via3, via4, via6, via8,
};
use crate::typeck::check_item::{
    agent_checked, agent_member_checked, agent_members_checked, budget_values, checked_all, class_checked,
    class_member_checked, config_checked, configs_checked, defined_const, field_checked, function_checked,
    has_execute, has_model, item_checked, members_checked, memory_member_checked, memory_members_checked,
    module_checked, on_event_checked, prompt_param_types, registered_all, reported_missing_model,
    reported_no_execute, sections_checked, struct_fields_checked, tool_member_checked, tool_members_checked,
};
use crate::typeck::check_stmt::{
    arms_checked, block_checked, defined_let, elifs_checked, handler_head, handlers_checked, items_checked,
    opt_expr_checked, opt_scoped, scoped_block, stmt_checked, target_assigned, targets_assigned,
};
use crate::typeck::context::{define_in, plain_scope, ScopeModel, SymbolModel, TypeContext};
use crate::typeck::declarations::{denotes, item_registered, item_symbol, missing_count, slot, slot_types};
use crate::typeck::error::{errors_kept, lemma_prefix_kept, source_of, SourceSpan};
use crate::typeck::operators::{binop_checked, unop_checked};
use crate::typeck::patterns::{define_all, element_or_any, pattern_binds, Pattern};
use crate::typeck::statements::{aug_assigned, iterated, let_bound, let_typed, name_assigned, picked3, returned};
use crate::typeck::types::Ty;
use crate::typeck::unify::{outcome, unify_spec};

verus! {

/// Only the innermost scope differs, if any: the same number of scopes, and the
/// same outer ones.
pub open spec fn inner_only(old: Seq<ScopeModel>, new: Seq<ScopeModel>) -> bool {
    &&& new.len() == old.len()
    &&& new.drop_last() == old.drop_last()
}

broadcast use lemma_prefix_kept;

/// Defining symbols changes only the innermost scope.
proof fn lemma_define_all_inner(scopes: Seq<ScopeModel>, syms: Seq<SymbolModel>)
    requires
        scopes.len() >= 1,
    ensures
        inner_only(scopes, define_all(scopes, syms)),
    decreases syms.len(),
{
    if syms.len() > 0 {
        lemma_define_all_inner(scopes, syms.drop_last());
        let d = define_all(scopes, syms.drop_last());
        let s = syms.last();
        assert(define_in(d, s.name, s).drop_last() =~= d.drop_last());
    }
}

/// Defining one symbol changes only the innermost scope.
proof fn lemma_define_in_inner(scopes: Seq<ScopeModel>, name: Seq<char>, sym: SymbolModel)
    requires
        scopes.len() >= 1,
    ensures
        inner_only(scopes, define_in(scopes, name, sym)),
{
    assert(define_in(scopes, name, sym).drop_last() =~= scopes.drop_last());
}

/// Opening a scope, changing only it, and closing it gives back the scopes it
/// started from.
proof fn lemma_closed_again(old: Seq<ScopeModel>, x: ScopeModel, inner: Seq<ScopeModel>, new: Seq<ScopeModel>)
    requires
        old.len() >= 1,
        inner_only(old.push(x), inner),
        new == (if inner.len() > 1 {
            inner.drop_last()
        } else {
            inner
        }),
    ensures
        new == old,
{
    assert(old.push(x).drop_last() =~= old);
}

/// Checking an expression leaves the scopes as they were and keeps the errors
/// reported before it.
pub proof fn lemma_expr_keeps_scopes(old: TypeContext, new: TypeContext, e: Expr, r: Ty)
    requires
        old.scope_stack().len() >= 1,
        expr_checked(old, new, e, r),
    ensures
        new.scope_stack() == old.scope_stack(),
        errors_kept(old.error_list(), new.error_list()),
    decreases e,
{
    let span = source_of(e.span);
    match e.kind {
        ExprKind::FString(parts) => {
            lemma_exprs_keep_scopes(old, new, parts@);
        },
        ExprKind::Binary(op, l, rhs) => {
            let (s1, t1, s2, t2) = choose|s1: TypeContext, t1: Ty, s2: TypeContext, t2: Ty|
                #![trigger via4(s1, t1, s2, t2)]
                via4(s1, t1, s2, t2) && {
                    &&& expr_checked(old, s1, *l, t1)
                    &&& expr_checked(s1, s2, *rhs, t2)
                    &&& binop_checked(s2, new, op, t1, t2, span, r)
                };
            lemma_expr_keeps_scopes(old, s1, *l, t1);
            lemma_expr_keeps_scopes(s1, s2, *rhs, t2);
        },
        ExprKind::Unary(op, x) => {
            let (s1, t) = choose|s1: TypeContext, t: Ty|
                #![trigger via2(s1, t)]
                via2(s1, t) && expr_checked(old, s1, *x, t) && unop_checked(s1, new, op, t, span, r);
            lemma_expr_keeps_scopes(old, s1, *x, t);
        },
        ExprKind::Compare(l, rs) => {
            let (s1, t) = choose|s1: TypeContext, t: Ty|
                #![trigger via2(s1, t)]
                via2(s1, t) && expr_checked(old, s1, *l, t) && exprs_checked(s1, new, rs@);
            lemma_expr_keeps_scopes(old, s1, *l, t);
            lemma_exprs_keep_scopes(s1, new, rs@);
        },
        ExprKind::IfExpr(c, a, b) => {
            let (s1, tc, s2, ta, s3, tb) = choose|
                s1: TypeContext,
                tc: Ty,
                s2: TypeContext,
                ta: Ty,
                s3: TypeContext,
                tb: Ty,
            |
                #![trigger via6(s1, tc, s2, ta, s3, tb)]
                via6(s1, tc, s2, ta, s3, tb) && {
                    &&& expr_checked(old, s1, *c, tc)
                    &&& expr_checked(s1, s2, *a, ta)
                    &&& expr_checked(s2, s3, *b, tb)
                    &&& outcome(s3, new, unify_spec(s3.subst(), ta, tb), r, span)
                };
            lemma_expr_keeps_scopes(old, s1, *c, tc);
            lemma_expr_keeps_scopes(s1, s2, *a, ta);
            lemma_expr_keeps_scopes(s2, s3, *b, tb);
        },
        ExprKind::List(es) => {
            if let Ty::List(t) = r {
                if es@.len() > 0 {
                    lemma_elems_keep_scopes(old, new, es@, span, *t);
                }
            }
        },
        ExprKind::SetLit(es) => {
            if let Ty::SetOf(t) = r {
                if es@.len() > 0 {
                    lemma_elems_keep_scopes(old, new, es@, span, *t);
                }
            }
        },
        ExprKind::Dict(ps) => {
            if let Ty::Dict(k, v) = r {
                lemma_pairs_keep_scopes(old, new, ps@, span, *k, *v);
            }
        },
        ExprKind::Tuple(es) => {
            if let Ty::Tuple(ts) = r {
                lemma_exprs_typed_keep_scopes(old, new, es@, ts);
            }
        },
        ExprKind::Call(f, args) => {
            let (s1, tf, s2) = choose|s1: TypeContext, tf: Ty, s2: TypeContext|
                #![trigger via3(s1, tf, s2)]
                via3(s1, tf, s2) && {
                    &&& expr_checked(old, s1, *f, tf)
                    &&& callee_checked(s1, s2, tf, args@.len(), span, r)
                    &&& args_unified(s2, new, call_params(tf), args@)
                };
            lemma_expr_keeps_scopes(old, s1, *f, tf);
            lemma_args_keep_scopes(s2, new, call_params(tf), args@);
        },
        ExprKind::Attribute(x, m) => {
            let (s1, t) = choose|s1: TypeContext, t: Ty|
                #![trigger via2(s1, t)]
                via2(s1, t) && expr_checked(old, s1, *x, t) && member_checked(s1, new, t, m@, span, r);
            lemma_expr_keeps_scopes(old, s1, *x, t);
        },
        ExprKind::Subscript(x, i) => {
            let (s1, t1, s2, t2) = choose|s1: TypeContext, t1: Ty, s2: TypeContext, t2: Ty|
                #![trigger via4(s1, t1, s2, t2)]
                via4(s1, t1, s2, t2) && {
                    &&& expr_checked(old, s1, *x, t1)
                    &&& expr_checked(s1, s2, *i, t2)
                    &&& subscript_checked(s2, new, t1, t2, span, r)
                };
            lemma_expr_keeps_scopes(old, s1, *x, t1);
            lemma_expr_keeps_scopes(s1, s2, *i, t2);
        },
        ExprKind::Lambda(ps, body) => {
            let (s1, s2, tb) = choose|s1: TypeContext, s2: TypeContext, tb: Ty|
                #![trigger via3(s1, s2, tb)]
                via3(s1, s2, tb) && {
                    &&& lambda_entered(old, s1, ps@)
                    &&& expr_checked(s1, s2, *body, tb)
                    &&& exited(s2, new)
                    &&& r == Ty::Function {
                        params: slot_types(
                            param_annotations(ps@),
                            old.next_var() as int,
                            old.type_names(),
                        ),
                        ret: Box::new(tb),
                    }
                };
            let pushed = old.scope_stack().push(plain_scope(None, false, false));
            lemma_define_all_inner(
                pushed,
                param_symbols(
                    ps@,
                    slot_types(
                        param_annotations(ps@),
                        old.next_var() as int,
                        old.type_names(),
                    ),
                ),
            );
            lemma_expr_keeps_scopes(s1, s2, *body, tb);
            lemma_closed_again(
                old.scope_stack(),
                plain_scope(None, false, false),
                s2.scope_stack(),
                new.scope_stack(),
            );
        },
        ExprKind::Await(x) => {
            lemma_expr_keeps_scopes(old, new, *x, r);
        },
        ExprKind::Yield(x) => {
            if let Some(v) = x {
                lemma_expr_keeps_scopes(old, new, *v, r);
            }
        },
        ExprKind::Spawn(x) => {
            let t = choose|t: Ty| #![trigger via1(t)] via1(t) && expr_checked(old, new, *x, t);
            lemma_expr_keeps_scopes(old, new, *x, t);
        },
        ExprKind::ListComp(gs, el) => {
            if let Ty::List(t) = r {
                let (s1, s2, s3) = choose|s1: TypeContext, s2: TypeContext, s3: TypeContext|
                    #![trigger via3(s1, s2, s3)]
                    via3(s1, s2, s3) && {
                        &&& entered(old, s1, plain_scope(None, false, false))
                        &&& gens_checked(s1, s2, gs@)
                        &&& expr_checked(s2, s3, *el, *t)
                        &&& exited(s3, new)
                    };
                lemma_gens_inner(s1, s2, gs@);
                lemma_expr_keeps_scopes(s2, s3, *el, *t);
                lemma_closed_again(
                    old.scope_stack(),
                    plain_scope(None, false, false),
                    s3.scope_stack(),
                    new.scope_stack(),
                );
            }
        },
        ExprKind::SetComp(gs, el) => {
            if let Ty::SetOf(t) = r {
                let (s1, s2, s3) = choose|s1: TypeContext, s2: TypeContext, s3: TypeContext|
                    #![trigger via3(s1, s2, s3)]
                    via3(s1, s2, s3) && {
                        &&& entered(old, s1, plain_scope(None, false, false))
                        &&& gens_checked(s1, s2, gs@)
                        &&& expr_checked(s2, s3, *el, *t)
                        &&& exited(s3, new)
                    };
                lemma_gens_inner(s1, s2, gs@);
                lemma_expr_keeps_scopes(s2, s3, *el, *t);
                lemma_closed_again(
                    old.scope_stack(),
                    plain_scope(None, false, false),
                    s3.scope_stack(),
                    new.scope_stack(),
                );
            }
        },
        ExprKind::GeneratorExpr(gs, el) => {
            if let Ty::Iterator(t) = r {
                let (s1, s2, s3) = choose|s1: TypeContext, s2: TypeContext, s3: TypeContext|
                    #![trigger via3(s1, s2, s3)]
                    via3(s1, s2, s3) && {
                        &&& entered(old, s1, plain_scope(None, false, false))
                        &&& gens_checked(s1, s2, gs@)
                        &&& expr_checked(s2, s3, *el, *t)
                        &&& exited(s3, new)
                    };
                lemma_gens_inner(s1, s2, gs@);
                lemma_expr_keeps_scopes(s2, s3, *el, *t);
                lemma_closed_again(
                    old.scope_stack(),
                    plain_scope(None, false, false),
                    s3.scope_stack(),
                    new.scope_stack(),
                );
            }
        },
        ExprKind::DictComp(gs, k, v) => {
            if let Ty::Dict(kt, vt) = r {
                let (s1, s2, s3, s4) = choose|s1: TypeContext, s2: TypeContext, s3: TypeContext, s4: TypeContext|
                    #![trigger via4(s1, s2, s3, s4)]
                    via4(s1, s2, s3, s4) && {
                        &&& entered(old, s1, plain_scope(None, false, false))
                        &&& gens_checked(s1, s2, gs@)
                        &&& expr_checked(s2, s3, *k, *kt)
                        &&& expr_checked(s3, s4, *v, *vt)
                        &&& exited(s4, new)
                    };
                lemma_gens_inner(s1, s2, gs@);
                lemma_expr_keeps_scopes(s2, s3, *k, *kt);
                lemma_expr_keeps_scopes(s3, s4, *v, *vt);
                lemma_closed_again(
                    old.scope_stack(),
                    plain_scope(None, false, false),
                    s4.scope_stack(),
                    new.scope_stack(),
                );
            }
        },
        _ => {},
    }
}

/// Checking expressions in order leaves the scopes as they were.
pub proof fn lemma_exprs_keep_scopes(old: TypeContext, new: TypeContext, es: Seq<Expr>)
    requires
        old.scope_stack().len() >= 1,
        exprs_checked(old, new, es),
    ensures
        new.scope_stack() == old.scope_stack(),
        errors_kept(old.error_list(), new.error_list()),
    decreases es,
{
    if es.len() > 0 {
        let (mid, t) = choose|mid: TypeContext, t: Ty|
            #![trigger via2(mid, t)]
            via2(mid, t) && exprs_checked(old, mid, es.drop_last()) && expr_checked(mid, new, es.last(), t);
        lemma_exprs_keep_scopes(old, mid, es.drop_last());
        lemma_expr_keeps_scopes(mid, new, es.last(), t);
    }
}

/// Checking a tuple's elements leaves the scopes as they were.
proof fn lemma_exprs_typed_keep_scopes(old: TypeContext, new: TypeContext, es: Seq<Expr>, ts: Seq<Ty>)
    requires
        old.scope_stack().len() >= 1,
        exprs_typed(old, new, es, ts),
    ensures
        new.scope_stack() == old.scope_stack(),
        errors_kept(old.error_list(), new.error_list()),
    decreases es,
{
    if es.len() > 0 {
        let mid = choose|mid: TypeContext|
            #![trigger via1(mid)]
            via1(mid) && exprs_typed(old, mid, es.drop_last(), ts.drop_last()) && expr_checked(
                mid,
                new,
                es.last(),
                ts.last(),
            );
        lemma_exprs_typed_keep_scopes(old, mid, es.drop_last(), ts.drop_last());
        lemma_expr_keeps_scopes(mid, new, es.last(), ts.last());
    }
}

/// Checking a list or set literal's elements leaves the scopes as they were.
proof fn lemma_elems_keep_scopes(
    old: TypeContext,
    new: TypeContext,
    es: Seq<Expr>,
    span: SourceSpan,
    acc: Ty,
)
    requires
        old.scope_stack().len() >= 1,
        elems_folded(old, new, es, span, acc),
    ensures
        new.scope_stack() == old.scope_stack(),
        errors_kept(old.error_list(), new.error_list()),
    decreases es,
{
    if es.len() == 1 {
        lemma_expr_keeps_scopes(old, new, es[0], acc);
    } else if es.len() > 1 {
        let (mid, acc0, s1, t) = choose|mid: TypeContext, acc0: Ty, s1: TypeContext, t: Ty|
            #![trigger via4(mid, acc0, s1, t)]
            via4(mid, acc0, s1, t) && {
                &&& elems_folded(old, mid, es.drop_last(), span, acc0)
                &&& expr_checked(mid, s1, es.last(), t)
                &&& outcome(s1, new, unify_spec(s1.subst(), acc0, t), acc, span)
            };
        lemma_elems_keep_scopes(old, mid, es.drop_last(), span, acc0);
        lemma_expr_keeps_scopes(mid, s1, es.last(), t);
    }
}

/// Checking a dict literal's pairs leaves the scopes as they were.
proof fn lemma_pairs_keep_scopes(
    old: TypeContext,
    new: TypeContext,
    ps: Seq<(Expr, Expr)>,
    span: SourceSpan,
    k: Ty,
    v: Ty,
)
    requires
        old.scope_stack().len() >= 1,
        pairs_folded(old, new, ps, span, k, v),
    ensures
        new.scope_stack() == old.scope_stack(),
        errors_kept(old.error_list(), new.error_list()),
    decreases ps,
{
    if ps.len() > 0 {
        let (mid, k0, v0, s1, tk, s2, tv, s3) = choose|
            mid: TypeContext,
            k0: Ty,
            v0: Ty,
            s1: TypeContext,
            tk: Ty,
            s2: TypeContext,
            tv: Ty,
            s3: TypeContext,
        |
            #![trigger via8(mid, k0, v0, s1, tk, s2, tv, s3)]
            via8(mid, k0, v0, s1, tk, s2, tv, s3) && {
                &&& pairs_folded(old, mid, ps.drop_last(), span, k0, v0)
                &&& expr_checked(mid, s1, ps.last().0, tk)
                &&& expr_checked(s1, s2, ps.last().1, tv)
                &&& outcome(s2, s3, unify_spec(s2.subst(), k0, tk), k, span)
                &&& outcome(s3, new, unify_spec(s3.subst(), v0, tv), v, span)
            };
        lemma_pairs_keep_scopes(old, mid, ps.drop_last(), span, k0, v0);
        lemma_expr_keeps_scopes(mid, s1, ps.last().0, tk);
        lemma_expr_keeps_scopes(s1, s2, ps.last().1, tv);
    }
}

/// Checking a call's arguments leaves the scopes as they were.
proof fn lemma_args_keep_scopes(old: TypeContext, new: TypeContext, ps: Seq<Ty>, args: Seq<Expr>)
    requires
        old.scope_stack().len() >= 1,
        args_unified(old, new, ps, args),
    ensures
        new.scope_stack() == old.scope_stack(),
        errors_kept(old.error_list(), new.error_list()),
    decreases args,
{
    if args.len() > ps.len() {
        lemma_args_keep_scopes(old, new, ps, args.drop_last());
    } else if args.len() > 0 {
        let (mid, s1, t) = choose|mid: TypeContext, s1: TypeContext, t: Ty|
            #![trigger via3(mid, s1, t)]
            via3(mid, s1, t) && {
                &&& args_unified(old, mid, ps, args.drop_last())
                &&& expr_checked(mid, s1, args.last(), t)
                &&& outcome(
                    s1,
                    new,
                    unify_spec(s1.subst(), ps[args.len() - 1], t),
                    unify_spec(s1.subst(), ps[args.len() - 1], t).ty,
                    source_of(args.last().span),
                )
            };
        lemma_args_keep_scopes(old, mid, ps, args.drop_last());
        lemma_expr_keeps_scopes(mid, s1, args.last(), t);
    }
}

/// Checking a comprehension's generators changes only the innermost scope.
proof fn lemma_gens_inner(old: TypeContext, new: TypeContext, gs: Seq<Generator>)
    requires
        old.scope_stack().len() >= 1,
        gens_checked(old, new, gs),
    ensures
        inner_only(old.scope_stack(), new.scope_stack()),
        errors_kept(old.error_list(), new.error_list()),
    decreases gs,
{
    if gs.len() > 0 {
        let (mid, s1, ti, s2) = choose|mid: TypeContext, s1: TypeContext, ti: Ty, s2: TypeContext|
            #![trigger via4(mid, s1, ti, s2)]
            via4(mid, s1, ti, s2) && {
                &&& gens_checked(old, mid, gs.drop_last())
                &&& expr_checked(mid, s1, gs.last().iter, ti)
                &&& s2.bound_as(&s1, pattern_binds(gs.last().target, element_or_any(ti), true, false))
                &&& exprs_checked(s2, new, gs.last().conditions@)
            };
        lemma_gens_inner(old, mid, gs.drop_last());
        lemma_expr_keeps_scopes(mid, s1, gs.last().iter, ti);
        lemma_define_all_inner(s1.scope_stack(), pattern_binds(gs.last().target, element_or_any(ti), true, false));
        lemma_exprs_keep_scopes(s2, new, gs.last().conditions@);
    }
}

/// `inner_only` is transitive.
proof fn lemma_inner_trans(a: Seq<ScopeModel>, b: Seq<ScopeModel>, c: Seq<ScopeModel>)
    requires
        inner_only(a, b),
        inner_only(b, c),
    ensures
        inner_only(a, c),
{
}

/// Checking an optional expression leaves the scopes as they were.
proof fn lemma_opt_expr_keeps_scopes(old: TypeContext, new: TypeContext, o: Option<Expr>)
    requires
        old.scope_stack().len() >= 1,
        opt_expr_checked(old, new, o),
    ensures
        new.scope_stack() == old.scope_stack(),
        errors_kept(old.error_list(), new.error_list()),
{
    if let Some(e) = o {
        let t = choose|t: Ty| #![trigger via1(t)] via1(t) && expr_checked(old, new, e, t);
        lemma_expr_keeps_scopes(old, new, e, t);
    }
}

/// Checking an assignment target leaves the scopes as they were.
proof fn lemma_target_keeps_scopes(old: TypeContext, new: TypeContext, e: Expr)
    requires
        old.scope_stack().len() >= 1,
        target_assigned(old, new, e),
    ensures
        new.scope_stack() == old.scope_stack(),
        errors_kept(old.error_list(), new.error_list()),
    decreases e,
{
    match e.kind {
        ExprKind::Ident(_) => {},
        ExprKind::Tuple(es) => {
            lemma_targets_keep_scopes(old, new, es@);
        },
        _ => {
            let t = choose|t: Ty| #![trigger via1(t)] via1(t) && expr_checked(old, new, e, t);
            lemma_expr_keeps_scopes(old, new, e, t);
        },
    }
}

/// Checking assignment targets in order leaves the scopes as they were.
proof fn lemma_targets_keep_scopes(old: TypeContext, new: TypeContext, es: Seq<Expr>)
    requires
        old.scope_stack().len() >= 1,
        targets_assigned(old, new, es),
    ensures
        new.scope_stack() == old.scope_stack(),
        errors_kept(old.error_list(), new.error_list()),
    decreases es,
{
    if es.len() > 0 {
        let mid = choose|mid: TypeContext|
            #![trigger via1(mid)]
            via1(mid) && targets_assigned(old, mid, es.drop_last()) && target_assigned(mid, new, es.last());
        lemma_targets_keep_scopes(old, mid, es.drop_last());
        lemma_target_keeps_scopes(mid, new, es.last());
    }
}

/// Binding `with` items changes only the innermost scope.
proof fn lemma_with_items_inner(old: TypeContext, new: TypeContext, items: Seq<WithItem>)
    requires
        old.scope_stack().len() >= 1,
        items_checked(old, new, items),
    ensures
        inner_only(old.scope_stack(), new.scope_stack()),
        errors_kept(old.error_list(), new.error_list()),
    decreases items,
{
    if items.len() > 0 {
        let (mid, s1, t) = choose|mid: TypeContext, s1: TypeContext, t: Ty|
            #![trigger via3(mid, s1, t)]
            {
                &&& via3(mid, s1, t)
                &&& items_checked(old, mid, items.drop_last())
                &&& expr_checked(mid, s1, items.last().context, t)
                &&& match items.last().alias {
                    Some((n, sp)) => defined_let(s1, new, n@, t, sp),
                    None => new == s1,
                }
            };
        lemma_with_items_inner(old, mid, items.drop_last());
        lemma_expr_keeps_scopes(mid, s1, items.last().context, t);
        if let Some((n, sp)) = items.last().alias {
            lemma_define_in_inner(s1.scope_stack(), n@, SymbolModel { name: n@, ty: t, mutable: true, span: sp });
        }
        lemma_inner_trans(old.scope_stack(), s1.scope_stack(), new.scope_stack());
    }
}

/// Binding a `let` changes only the innermost scope.
proof fn lemma_let_inner(
    old: TypeContext,
    new: TypeContext,
    init: Option<Ty>,
    annotation: Option<TypeExpr>,
    pattern: Pattern,
    mutable: bool,
    span: SourceSpan,
)
    requires
        old.scope_stack().len() >= 1,
        let_bound(old, new, init, annotation, pattern, mutable, span),
    ensures
        inner_only(old.scope_stack(), new.scope_stack()),
        errors_kept(old.error_list(), new.error_list()),
{
    let (mid, s2, bound) = choose|mid: TypeContext, s2: TypeContext, bound: Ty|
        #![trigger picked3(mid, s2, bound)]
        {
            &&& picked3(mid, s2, bound)
            &&& match init {
                Some(_) => mid == old,
                None => mid.counter_moved(&old, 1),
            }
            &&& s2.wf()
            &&& let_typed(
                mid,
                s2,
                match init {
                    Some(t) => t,
                    None => Ty::TypeVar(old.next_var()),
                },
                init is Some,
                annotation,
                span,
                bound,
            )
            &&& new.bound_as(&s2, pattern_binds(pattern, bound, mutable, false))
        };
    assert(s2.scope_stack() == old.scope_stack());
    lemma_define_all_inner(s2.scope_stack(), pattern_binds(pattern, bound, mutable, false));
}

/// Checking a statement changes at most the innermost scope (by what it defines
/// there), closing again the scopes it opens for its blocks, and keeps the errors
/// reported before it.
pub proof fn lemma_stmt_inner_only(old: TypeContext, new: TypeContext, s: Stmt)
    requires
        old.scope_stack().len() >= 1,
        stmt_checked(old, new, s),
    ensures
        inner_only(old.scope_stack(), new.scope_stack()),
        errors_kept(old.error_list(), new.error_list()),
    decreases s, 0int,
{
    match s {
        Stmt::Expr(e) => {
            let t = choose|t: Ty| #![trigger via1(t)] via1(t) && expr_checked(old, new, e, t);
            lemma_expr_keeps_scopes(old, new, e, t);
        },
        Stmt::Let(l) => {
            let (s1, ti) = choose|s1: TypeContext, ti: Ty|
                #![trigger via2(s1, ti)]
                {
                    &&& via2(s1, ti)
                    &&& match l.value {
                        Some(v) => expr_checked(old, s1, v, ti),
                        None => s1 == old,
                    }
                    &&& let_bound(
                        s1,
                        new,
                        if l.value is Some {
                            Some(ti)
                        } else {
                            None
                        },
                        l.ty,
                        l.pattern,
                        l.is_mutable && !l.is_const,
                        source_of(l.span),
                    )
                };
            if let Some(v) = l.value {
                lemma_expr_keeps_scopes(old, s1, v, ti);
            }
            lemma_let_inner(
                s1,
                new,
                if l.value is Some {
                    Some(ti)
                } else {
                    None
                },
                l.ty,
                l.pattern,
                l.is_mutable && !l.is_const,
                source_of(l.span),
            );
        },
        Stmt::Assign { target, value, span } => {
            let (s1, tv) = choose|s1: TypeContext, tv: Ty|
                #![trigger via2(s1, tv)]
                {
                    &&& via2(s1, tv)
                    &&& expr_checked(old, s1, value, tv)
                    &&& match target.kind {
                        ExprKind::Ident(n) => name_assigned(s1, new, n@, target.span, tv, source_of(span)),
                        ExprKind::Tuple(es) => targets_assigned(s1, new, es@),
                        _ => exists|t: Ty| #![trigger via1(t)] via1(t) && expr_checked(s1, new, target, t),
                    }
                };
            lemma_expr_keeps_scopes(old, s1, value, tv);
            match target.kind {
                ExprKind::Ident(_) => {},
                ExprKind::Tuple(es) => {
                    lemma_targets_keep_scopes(s1, new, es@);
                },
                _ => {
                    let t = choose|t: Ty| #![trigger via1(t)] via1(t) && expr_checked(s1, new, target, t);
                    lemma_expr_keeps_scopes(s1, new, target, t);
                },
            }
        },
        Stmt::AugAssign { target, op, value, span } => {
            let (s1, tt, s2, tv) = choose|s1: TypeContext, tt: Ty, s2: TypeContext, tv: Ty|
                #![trigger via4(s1, tt, s2, tv)]
                {
                    &&& via4(s1, tt, s2, tv)
                    &&& expr_checked(old, s1, target, tt)
                    &&& expr_checked(s1, s2, value, tv)
                    &&& aug_assigned(
                        s2,
                        new,
                        match target.kind {
                            ExprKind::Ident(n) => Some((n@, target.span)),
                            _ => None,
                        },
                        op,
                        tt,
                        tv,
                        source_of(span),
                    )
                };
            lemma_expr_keeps_scopes(old, s1, target, tt);
            lemma_expr_keeps_scopes(s1, s2, value, tv);
        },
        Stmt::Return { value, span } => {
            let (s1, tv) = choose|s1: TypeContext, tv: Ty|
                #![trigger via2(s1, tv)]
                {
                    &&& via2(s1, tv)
                    &&& match value {
                        Some(v) => expr_checked(old, s1, v, tv),
                        None => s1 == old && tv == Ty::NoneType,
                    }
                    &&& returned(s1, new, tv, source_of(span))
                };
            if let Some(v) = value {
                lemma_expr_keeps_scopes(old, s1, v, tv);
            }
        },
        Stmt::If { condition, then_block, elifs, else_block } => {
            let (s1, tc, s2) = choose|s1: TypeContext, tc: Ty, s2: TypeContext|
                #![trigger via3(s1, tc, s2)]
                {
                    &&& via3(s1, tc, s2)
                    &&& expr_checked(old, s1, condition, tc)
                    &&& scoped_block(s1, s2, then_block@, plain_scope(None, false, false))
                    &&& exists|s3: TypeContext| #![trigger via1(s3)]
                        via1(s3) && elifs_checked(s2, s3, elifs@) && opt_scoped(s3, new, else_block)
                };
            let s3 = choose|s3: TypeContext| #![trigger via1(s3)]
                via1(s3) && elifs_checked(s2, s3, elifs@) && opt_scoped(s3, new, else_block);
            lemma_expr_keeps_scopes(old, s1, condition, tc);
            lemma_scoped_keeps_scopes(s1, s2, then_block@, plain_scope(None, false, false));
            lemma_elifs_keep_scopes(s2, s3, elifs@);
            lemma_opt_scoped_keeps_scopes(s3, new, else_block);
        },
        Stmt::For { target, iter, body, else_block } => {
            let (s1, ti, s2, el, s3, s4, s5, s6) = choose|
                s1: TypeContext,
                ti: Ty,
                s2: TypeContext,
                el: Ty,
                s3: TypeContext,
                s4: TypeContext,
                s5: TypeContext,
                s6: TypeContext,
            |
                #![trigger via8(s1, ti, s2, el, s3, s4, s5, s6)]
                {
                    &&& via8(s1, ti, s2, el, s3, s4, s5, s6)
                    &&& expr_checked(old, s1, iter, ti)
                    &&& iterated(s1, s2, ti, source_of(iter.span), el)
                    &&& entered(s2, s3, plain_scope(None, true, false))
                    &&& s4.bound_as(&s3, pattern_binds(target, el, true, false))
                    &&& block_checked(s4, s5, body@)
                    &&& exited(s5, s6)
                    &&& opt_scoped(s6, new, else_block)
                };
            lemma_expr_keeps_scopes(old, s1, iter, ti);
            lemma_define_all_inner(s3.scope_stack(), pattern_binds(target, el, true, false));
            lemma_block_inner_only(s4, s5, body@);
            lemma_inner_trans(s3.scope_stack(), s4.scope_stack(), s5.scope_stack());
            lemma_closed_again(s2.scope_stack(), plain_scope(None, true, false), s5.scope_stack(), s6.scope_stack());
            lemma_opt_scoped_keeps_scopes(s6, new, else_block);
        },
        Stmt::While { condition, body, else_block } => {
            let (s1, tc, s2) = choose|s1: TypeContext, tc: Ty, s2: TypeContext|
                #![trigger via3(s1, tc, s2)]
                {
                    &&& via3(s1, tc, s2)
                    &&& expr_checked(old, s1, condition, tc)
                    &&& scoped_block(s1, s2, body@, plain_scope(None, true, false))
                    &&& opt_scoped(s2, new, else_block)
                };
            lemma_expr_keeps_scopes(old, s1, condition, tc);
            lemma_scoped_keeps_scopes(s1, s2, body@, plain_scope(None, true, false));
            lemma_opt_scoped_keeps_scopes(s2, new, else_block);
        },
        Stmt::Match { subject, arms } => {
            let (s1, ts) = choose|s1: TypeContext, ts: Ty|
                #![trigger via2(s1, ts)]
                via2(s1, ts) && expr_checked(old, s1, subject, ts) && arms_checked(s1, new, arms@, ts);
            lemma_expr_keeps_scopes(old, s1, subject, ts);
            lemma_arms_keep_scopes(s1, new, arms@, ts);
        },
        Stmt::Try { body, handlers, else_block, finally_block } => {
            let (s1, s2, s3) = choose|s1: TypeContext, s2: TypeContext, s3: TypeContext|
                #![trigger via3(s1, s2, s3)]
                {
                    &&& via3(s1, s2, s3)
                    &&& scoped_block(old, s1, body@, plain_scope(None, false, false))
                    &&& handlers_checked(s1, s2, handlers@)
                    &&& opt_scoped(s2, s3, else_block)
                    &&& opt_scoped(s3, new, finally_block)
                };
            lemma_scoped_keeps_scopes(old, s1, body@, plain_scope(None, false, false));
            lemma_handlers_keep_scopes(s1, s2, handlers@);
            lemma_opt_scoped_keeps_scopes(s2, s3, else_block);
            lemma_opt_scoped_keeps_scopes(s3, new, finally_block);
        },
        Stmt::With { items, body } => {
            let (s1, s2, s3) = choose|s1: TypeContext, s2: TypeContext, s3: TypeContext|
                #![trigger via3(s1, s2, s3)]
                {
                    &&& via3(s1, s2, s3)
                    &&& entered(old, s1, plain_scope(None, false, false))
                    &&& items_checked(s1, s2, items@)
                    &&& block_checked(s2, s3, body@)
                    &&& exited(s3, new)
                };
            lemma_with_items_inner(s1, s2, items@);
            lemma_block_inner_only(s2, s3, body@);
            lemma_inner_trans(s1.scope_stack(), s2.scope_stack(), s3.scope_stack());
            lemma_closed_again(old.scope_stack(), plain_scope(None, false, false), s3.scope_stack(), new.scope_stack());
        },
        Stmt::Raise { exception, cause } => {
            let s1 = choose|s1: TypeContext| #![trigger via1(s1)]
                via1(s1) && opt_expr_checked(old, s1, exception) && opt_expr_checked(s1, new, cause);
            lemma_opt_expr_keeps_scopes(old, s1, exception);
            lemma_opt_expr_keeps_scopes(s1, new, cause);
        },
        Stmt::Assert { test, msg } => {
            let (s1, t) = choose|s1: TypeContext, t: Ty|
                #![trigger via2(s1, t)]
                via2(s1, t) && expr_checked(old, s1, test, t) && opt_expr_checked(s1, new, msg);
            lemma_expr_keeps_scopes(old, s1, test, t);
            lemma_opt_expr_keeps_scopes(s1, new, msg);
        },
        Stmt::Async(ss) => {
            lemma_scoped_keeps_scopes(old, new, ss@, plain_scope(None, false, false));
        },
        _ => {},
    }
}

/// Checking a block changes at most the innermost scope and keeps the errors
/// reported before it.
pub proof fn lemma_block_inner_only(old: TypeContext, new: TypeContext, ss: Seq<Stmt>)
    requires
        old.scope_stack().len() >= 1,
        block_checked(old, new, ss),
    ensures
        inner_only(old.scope_stack(), new.scope_stack()),
        errors_kept(old.error_list(), new.error_list()),
    decreases ss, 0int,
{
    if ss.len() > 0 {
        let mid = choose|mid: TypeContext| #![trigger via1(mid)]
            via1(mid) && block_checked(old, mid, ss.drop_last()) && stmt_checked(mid, new, ss.last());
        lemma_block_inner_only(old, mid, ss.drop_last());
        lemma_stmt_inner_only(mid, new, ss.last());
        lemma_inner_trans(old.scope_stack(), mid.scope_stack(), new.scope_stack());
    }
}

/// Checking a block in a scope of its own leaves the scopes as they were.
proof fn lemma_scoped_keeps_scopes(old: TypeContext, new: TypeContext, ss: Seq<Stmt>, scope: ScopeModel)
    requires
        old.scope_stack().len() >= 1,
        scoped_block(old, new, ss, scope),
    ensures
        new.scope_stack() == old.scope_stack(),
        errors_kept(old.error_list(), new.error_list()),
    decreases ss, 1int,
{
    let (s1, s2) = choose|s1: TypeContext, s2: TypeContext| #![trigger via2(s1, s2)]
        via2(s1, s2) && entered(old, s1, scope) && block_checked(s1, s2, ss) && exited(s2, new);
    lemma_block_inner_only(s1, s2, ss);
    lemma_closed_again(old.scope_stack(), scope, s2.scope_stack(), new.scope_stack());
}

/// Checking an optional block in a scope of its own leaves the scopes as they were.
proof fn lemma_opt_scoped_keeps_scopes(old: TypeContext, new: TypeContext, b: Option<Vec<Stmt>>)
    requires
        old.scope_stack().len() >= 1,
        opt_scoped(old, new, b),
    ensures
        new.scope_stack() == old.scope_stack(),
        errors_kept(old.error_list(), new.error_list()),
    decreases b, 0int,
{
    if let Some(ss) = b {
        lemma_scoped_keeps_scopes(old, new, ss@, plain_scope(None, false, false));
    }
}

/// Checking `elif` branches leaves the scopes as they were.
proof fn lemma_elifs_keep_scopes(old: TypeContext, new: TypeContext, es: Seq<(Expr, Vec<Stmt>)>)
    requires
        old.scope_stack().len() >= 1,
        elifs_checked(old, new, es),
    ensures
        new.scope_stack() == old.scope_stack(),
        errors_kept(old.error_list(), new.error_list()),
    decreases es, 0int,
{
    if es.len() > 0 {
        let (mid, s1, tc) = choose|mid: TypeContext, s1: TypeContext, tc: Ty|
            #![trigger via3(mid, s1, tc)]
            {
                &&& via3(mid, s1, tc)
                &&& elifs_checked(old, mid, es.drop_last())
                &&& expr_checked(mid, s1, es.last().0, tc)
                &&& scoped_block(s1, new, es.last().1@, plain_scope(None, false, false))
            };
        lemma_elifs_keep_scopes(old, mid, es.drop_last());
        lemma_expr_keeps_scopes(mid, s1, es.last().0, tc);
        lemma_scoped_keeps_scopes(s1, new, es.last().1@, plain_scope(None, false, false));
    }
}

/// Checking match arms leaves the scopes as they were.
proof fn lemma_arms_keep_scopes(old: TypeContext, new: TypeContext, arms: Seq<MatchArm>, t: Ty)
    requires
        old.scope_stack().len() >= 1,
        arms_checked(old, new, arms, t),
    ensures
        new.scope_stack() == old.scope_stack(),
        errors_kept(old.error_list(), new.error_list()),
    decreases arms, 0int,
{
    if arms.len() > 0 {
        let (mid, s1, s2, s3, s4) = choose|mid: TypeContext, s1: TypeContext, s2: TypeContext, s3: TypeContext, s4: TypeContext|
            #![trigger via6(mid, s1, s2, s3, s4, t)]
            {
                &&& via6(mid, s1, s2, s3, s4, t)
                &&& arms_checked(old, mid, arms.drop_last(), t)
                &&& entered(mid, s1, plain_scope(None, false, false))
                &&& s2.bound_as(&s1, pattern_binds(arms.last().pattern, t, true, true))
                &&& opt_expr_checked(s2, s3, arms.last().guard)
                &&& block_checked(s3, s4, arms.last().body@)
                &&& exited(s4, new)
            };
        lemma_arms_keep_scopes(old, mid, arms.drop_last(), t);
        lemma_define_all_inner(s1.scope_stack(), pattern_binds(arms.last().pattern, t, true, true));
        lemma_opt_expr_keeps_scopes(s2, s3, arms.last().guard);
        lemma_block_inner_only(s3, s4, arms.last().body@);
        lemma_inner_trans(s1.scope_stack(), s2.scope_stack(), s4.scope_stack());
        lemma_closed_again(mid.scope_stack(), plain_scope(None, false, false), s4.scope_stack(), new.scope_stack());
    }
}

/// Checking `except` handlers leaves the scopes as they were.
proof fn lemma_handlers_keep_scopes(old: TypeContext, new: TypeContext, hs: Seq<Handler>)
    requires
        old.scope_stack().len() >= 1,
        handlers_checked(old, new, hs),
    ensures
        new.scope_stack() == old.scope_stack(),
        errors_kept(old.error_list(), new.error_list()),
    decreases hs, 0int,
{
    if hs.len() > 0 {
        let (mid, s1, s2, s3) = choose|mid: TypeContext, s1: TypeContext, s2: TypeContext, s3: TypeContext|
            #![trigger via4(mid, s1, s2, s3)]
            {
                &&& via4(mid, s1, s2, s3)
                &&& handlers_checked(old, mid, hs.drop_last())
                &&& entered(mid, s1, plain_scope(None, false, false))
                &&& handler_head(s1, s2, hs.last().ty, hs.last().name)
                &&& block_checked(s2, s3, hs.last().body@)
                &&& exited(s3, new)
            };
        lemma_handlers_keep_scopes(old, mid, hs.drop_last());
        match hs.last().ty {
            None => {},
            Some(x) => {
                let (h1, t) = choose|h1: TypeContext, t: Ty|
                    #![trigger via2(h1, t)]
                    {
                        &&& via2(h1, t)
                        &&& expr_checked(s1, h1, x, t)
                        &&& match hs.last().name {
                            Some((n, sp)) => defined_let(h1, s2, n@, t, sp),
                            None => s2 == h1,
                        }
                    };
                lemma_expr_keeps_scopes(s1, h1, x, t);
                if let Some((n, sp)) = hs.last().name {
                    lemma_define_in_inner(h1.scope_stack(), n@, SymbolModel { name: n@, ty: t, mutable: true, span: sp });
                }
            },
        }
        lemma_block_inner_only(s2, s3, hs.last().body@);
        lemma_inner_trans(s1.scope_stack(), s2.scope_stack(), s3.scope_stack());
        lemma_closed_again(mid.scope_stack(), plain_scope(None, false, false), s3.scope_stack(), new.scope_stack());
    }
}

/// Checking a function (or method, or task) body leaves the scopes as they were.
proof fn lemma_function_keeps_scopes(
    old: TypeContext,
    new: TypeContext,
    params: Seq<Param>,
    ret: Option<TypeExpr>,
    is_async: bool,
    body: Seq<Stmt>,
)
    requires
        old.scope_stack().len() >= 1,
        function_checked(old, new, params, ret, is_async, body),
    ensures
        new.scope_stack() == old.scope_stack(),
        errors_kept(old.error_list(), new.error_list()),
{
    let (s1, s2) = choose|s1: TypeContext, s2: TypeContext|
        #![trigger via2(s1, s2)]
        via2(s1, s2) && body_entered(old, s1, params, ret, is_async) && block_checked(s1, s2, body) && exited(s2, new);
    let anns = param_annotations(params);
    let next = old.next_var() as int;
    let x = plain_scope(Some(slot(ret, next + missing_count(anns), old.type_names())), false, is_async);
    lemma_define_all_inner(old.scope_stack().push(x), param_symbols(params, slot_types(anns, next, old.type_names())));
    lemma_block_inner_only(s1, s2, body);
    lemma_inner_trans(old.scope_stack().push(x), s1.scope_stack(), s2.scope_stack());
    lemma_closed_again(old.scope_stack(), x, s2.scope_stack(), new.scope_stack());
}

/// Checking an event handler leaves the scopes as they were.
proof fn lemma_on_event_keeps_scopes(old: TypeContext, new: TypeContext, params: Seq<Param>, body: Seq<Stmt>)
    requires
        old.scope_stack().len() >= 1,
        on_event_checked(old, new, params, body),
    ensures
        new.scope_stack() == old.scope_stack(),
        errors_kept(old.error_list(), new.error_list()),
{
    let (s1, s2) = choose|s1: TypeContext, s2: TypeContext|
        #![trigger via2(s1, s2)]
        via2(s1, s2) && handler_entered(old, s1, params) && block_checked(s1, s2, body) && exited(s2, new);
    let anns = param_annotations(params);
    let x = plain_scope(Some(Ty::NoneType), false, true);
    lemma_define_all_inner(
        old.scope_stack().push(x),
        param_symbols(params, slot_types(anns, old.next_var() as int, old.type_names())),
    );
    lemma_block_inner_only(s1, s2, body);
    lemma_inner_trans(old.scope_stack().push(x), s1.scope_stack(), s2.scope_stack());
    lemma_closed_again(old.scope_stack(), x, s2.scope_stack(), new.scope_stack());
}

/// Checking a field leaves the scopes as they were.
proof fn lemma_field_keeps_scopes(old: TypeContext, new: TypeContext, f: FieldDef, late: bool)
    requires
        old.scope_stack().len() >= 1,
        field_checked(old, new, f, late),
    ensures
        new.scope_stack() == old.scope_stack(),
        errors_kept(old.error_list(), new.error_list()),
{
    if let Some(d) = f.default {
        let (s1, t) = choose|s1: TypeContext, t: Ty|
            #![trigger via2(s1, t)]
            {
                let declared = denotes(
                    f.ty,
                    if late {
                        s1.type_names()
                    } else {
                        old.type_names()
                    },
                );
                let u = unify_spec(s1.subst(), declared, t);
                &&& via2(s1, t)
                &&& expr_checked(old, s1, d, t)
                &&& outcome(s1, new, u, u.ty, source_of(d.span))
            };
        lemma_expr_keeps_scopes(old, s1, d, t);
    }
}

/// Checking a class leaves the scopes as they were.
proof fn lemma_class_keeps_scopes(old: TypeContext, new: TypeContext, c: ClassDef)
    requires
        old.scope_stack().len() >= 1,
        class_checked(old, new, c),
    ensures
        new.scope_stack() == old.scope_stack(),
        errors_kept(old.error_list(), new.error_list()),
    decreases c,
{
    let (s1, s2, s3) = choose|s1: TypeContext, s2: TypeContext, s3: TypeContext|
        #![trigger via3(s1, s2, s3)]
        {
            &&& via3(s1, s2, s3)
            &&& entered(old, s1, plain_scope(None, false, false))
            &&& defined_const(s1, s2, "self"@, Ty::Class(c.name@), c.span)
            &&& members_checked(s2, s3, c.body@)
            &&& exited(s3, new)
        };
    let x = plain_scope(None, false, false);
    lemma_define_in_inner(s1.scope_stack(), "self"@, SymbolModel { name: "self"@, ty: Ty::Class(c.name@), mutable: false, span: c.span });
    lemma_members_keep_scopes(s2, s3, c.body@);
    lemma_closed_again(old.scope_stack(), x, s3.scope_stack(), new.scope_stack());
}

/// Checking class members leaves the scopes as they were.
proof fn lemma_members_keep_scopes(old: TypeContext, new: TypeContext, ms: Seq<ClassMember>)
    requires
        old.scope_stack().len() >= 1,
        members_checked(old, new, ms),
    ensures
        new.scope_stack() == old.scope_stack(),
        errors_kept(old.error_list(), new.error_list()),
    decreases ms,
{
    if ms.len() > 0 {
        let mid = choose|mid: TypeContext|
            #![trigger via1(mid)]
            via1(mid) && members_checked(old, mid, ms.drop_last()) && class_member_checked(mid, new, ms.last());
        lemma_members_keep_scopes(old, mid, ms.drop_last());
        lemma_member_keeps_scopes(mid, new, ms.last());
    }
}

/// Checking a class member leaves the scopes as they were.
proof fn lemma_member_keeps_scopes(old: TypeContext, new: TypeContext, m: ClassMember)
    requires
        old.scope_stack().len() >= 1,
        class_member_checked(old, new, m),
    ensures
        new.scope_stack() == old.scope_stack(),
        errors_kept(old.error_list(), new.error_list()),
    decreases m,
{
    match m {
        ClassMember::Field(f) => lemma_field_keeps_scopes(old, new, f, false),
        ClassMember::Method(f) => lemma_function_keeps_scopes(old, new, f.params@, f.return_type, f.is_async, f.body@),
        ClassMember::Class(c) => lemma_class_keeps_scopes(old, new, c),
    }
}

/// Checking a configuration entry leaves the scopes as they were.
proof fn lemma_config_keeps_scopes(old: TypeContext, new: TypeContext, c: AgentConfig)
    requires
        old.scope_stack().len() >= 1,
        config_checked(old, new, c),
    ensures
        new.scope_stack() == old.scope_stack(),
        errors_kept(old.error_list(), new.error_list()),
{
    match c {
        AgentConfig::Model(e) => {
            let t = choose|t: Ty| #![trigger via1(t)] via1(t) && expr_checked(old, new, e, t);
            lemma_expr_keeps_scopes(old, new, e, t);
        },
        AgentConfig::Memory(es) => lemma_exprs_keep_scopes(old, new, es@),
        AgentConfig::Tools(es) => lemma_exprs_keep_scopes(old, new, es@),
        AgentConfig::Budget(items) => lemma_exprs_keep_scopes(old, new, budget_values(items@)),
        AgentConfig::Policy(es) => lemma_exprs_keep_scopes(old, new, es@),
    }
}

/// Checking configuration entries leaves the scopes as they were.
proof fn lemma_configs_keep_scopes(old: TypeContext, new: TypeContext, cs: Seq<AgentConfig>)
    requires
        old.scope_stack().len() >= 1,
        configs_checked(old, new, cs),
    ensures
        new.scope_stack() == old.scope_stack(),
        errors_kept(old.error_list(), new.error_list()),
    decreases cs.len(),
{
    if cs.len() > 0 {
        let mid = choose|mid: TypeContext|
            #![trigger via1(mid)]
            via1(mid) && configs_checked(old, mid, cs.drop_last()) && config_checked(mid, new, cs.last());
        lemma_configs_keep_scopes(old, mid, cs.drop_last());
        lemma_config_keeps_scopes(mid, new, cs.last());
    }
}

/// Checking agent members leaves the scopes as they were.
proof fn lemma_agent_members_keep_scopes(old: TypeContext, new: TypeContext, ms: Seq<AgentMember>)
    requires
        old.scope_stack().len() >= 1,
        agent_members_checked(old, new, ms),
    ensures
        new.scope_stack() == old.scope_stack(),
        errors_kept(old.error_list(), new.error_list()),
    decreases ms.len(),
{
    if ms.len() > 0 {
        let mid = choose|mid: TypeContext|
            #![trigger via1(mid)]
            via1(mid) && agent_members_checked(old, mid, ms.drop_last()) && agent_member_checked(mid, new, ms.last());
        lemma_agent_members_keep_scopes(old, mid, ms.drop_last());
        match ms.last() {
            AgentMember::Config(c) => lemma_config_keeps_scopes(mid, new, c),
            AgentMember::Task(t) => lemma_function_keeps_scopes(mid, new, t.params@, t.return_type, true, t.body@),
            AgentMember::Method(f) => lemma_function_keeps_scopes(mid, new, f.params@, f.return_type, f.is_async, f.body@),
            AgentMember::OnEvent(h) => lemma_on_event_keeps_scopes(mid, new, h.params@, h.body@),
        }
    }
}

/// Checking an agent leaves the scopes as they were.
proof fn lemma_agent_keeps_scopes(old: TypeContext, new: TypeContext, a: AgentDef)
    requires
        old.scope_stack().len() >= 1,
        agent_checked(old, new, a),
    ensures
        new.scope_stack() == old.scope_stack(),
        errors_kept(old.error_list(), new.error_list()),
{
    let (s1, s2, s3) = choose|s1: TypeContext, s2: TypeContext, s3: TypeContext|
        #![trigger via3(s1, s2, s3)]
        {
            &&& via3(s1, s2, s3)
            &&& entered(old, s1, plain_scope(None, false, false))
            &&& defined_const(s1, s2, "self"@, Ty::Agent(a.name@), a.span)
            &&& configs_checked(s2, s3, a.config@)
            &&& exists|s4: TypeContext, s5: TypeContext|
                #![trigger via2(s4, s5)]
                {
                    &&& via2(s4, s5)
                    &&& agent_members_checked(s3, s4, a.members@)
                    &&& if has_model(a) {
                        s5 == s4
                    } else {
                        reported_missing_model(s4, s5, a)
                    }
                    &&& exited(s5, new)
                }
        };
    let (s4, s5) = choose|s4: TypeContext, s5: TypeContext|
        #![trigger via2(s4, s5)]
        {
            &&& via2(s4, s5)
            &&& agent_members_checked(s3, s4, a.members@)
            &&& if has_model(a) {
                s5 == s4
            } else {
                reported_missing_model(s4, s5, a)
            }
            &&& exited(s5, new)
        };
    lemma_define_in_inner(s1.scope_stack(), "self"@, SymbolModel { name: "self"@, ty: Ty::Agent(a.name@), mutable: false, span: a.span });
    lemma_configs_keep_scopes(s2, s3, a.config@);
    lemma_agent_members_keep_scopes(s3, s4, a.members@);
    lemma_closed_again(old.scope_stack(), plain_scope(None, false, false), s5.scope_stack(), new.scope_stack());
}

/// Checking tool members leaves the scopes as they were.
proof fn lemma_tool_members_keep_scopes(old: TypeContext, new: TypeContext, ms: Seq<ToolMember>)
    requires
        old.scope_stack().len() >= 1,
        tool_members_checked(old, new, ms),
    ensures
        new.scope_stack() == old.scope_stack(),
        errors_kept(old.error_list(), new.error_list()),
    decreases ms.len(),
{
    if ms.len() > 0 {
        let mid = choose|mid: TypeContext|
            #![trigger via1(mid)]
            via1(mid) && tool_members_checked(old, mid, ms.drop_last()) && tool_member_checked(mid, new, ms.last());
        lemma_tool_members_keep_scopes(old, mid, ms.drop_last());
        match ms.last() {
            ToolMember::RateLimit(e) => {
                let t = choose|t: Ty| #![trigger via1(t)] via1(t) && expr_checked(mid, new, e, t);
                lemma_expr_keeps_scopes(mid, new, e, t);
            },
            ToolMember::Method(f) => lemma_function_keeps_scopes(mid, new, f.params@, f.return_type, f.is_async, f.body@),
            _ => {},
        }
    }
}

/// Checking memory members leaves the scopes as they were.
proof fn lemma_memory_members_keep_scopes(old: TypeContext, new: TypeContext, ms: Seq<MemoryMember>)
    requires
        old.scope_stack().len() >= 1,
        memory_members_checked(old, new, ms),
    ensures
        new.scope_stack() == old.scope_stack(),
        errors_kept(old.error_list(), new.error_list()),
    decreases ms.len(),
{
    if ms.len() > 0 {
        let mid = choose|mid: TypeContext|
            #![trigger via1(mid)]
            via1(mid) && memory_members_checked(old, mid, ms.drop_last()) && memory_member_checked(mid, new, ms.last());
        lemma_memory_members_keep_scopes(old, mid, ms.drop_last());
        match ms.last() {
            MemoryMember::Capacity(e) => {
                let t = choose|t: Ty| #![trigger via1(t)] via1(t) && expr_checked(mid, new, e, t);
                lemma_expr_keeps_scopes(mid, new, e, t);
            },
            MemoryMember::Retention(e) => {
                let t = choose|t: Ty| #![trigger via1(t)] via1(t) && expr_checked(mid, new, e, t);
                lemma_expr_keeps_scopes(mid, new, e, t);
            },
            MemoryMember::Method(f) => lemma_function_keeps_scopes(mid, new, f.params@, f.return_type, f.is_async, f.body@),
            _ => {},
        }
    }
}

/// Checking prompt sections changes only the innermost scope.
proof fn lemma_sections_inner(old: TypeContext, new: TypeContext, ss: Seq<PromptSection>)
    requires
        old.scope_stack().len() >= 1,
        sections_checked(old, new, ss),
    ensures
        inner_only(old.scope_stack(), new.scope_stack()),
        errors_kept(old.error_list(), new.error_list()),
    decreases ss.len(),
{
    if ss.len() > 0 {
        let mid = choose|mid: TypeContext|
            #![trigger via1(mid)]
            {
                &&& via1(mid)
                &&& sections_checked(old, mid, ss.drop_last())
                &&& match ss.last() {
                    PromptSection::Text(_) => new == mid,
                    PromptSection::Block(b) => block_checked(mid, new, b@),
                }
            };
        lemma_sections_inner(old, mid, ss.drop_last());
        if let PromptSection::Block(b) = ss.last() {
            lemma_block_inner_only(mid, new, b@);
        }
        lemma_inner_trans(old.scope_stack(), mid.scope_stack(), new.scope_stack());
    }
}

/// Checking a struct's fields leaves the scopes as they were.
proof fn lemma_struct_fields_keep_scopes(old: TypeContext, new: TypeContext, fs: Seq<FieldDef>)
    requires
        old.scope_stack().len() >= 1,
        struct_fields_checked(old, new, fs),
    ensures
        new.scope_stack() == old.scope_stack(),
        errors_kept(old.error_list(), new.error_list()),
    decreases fs.len(),
{
    if fs.len() > 0 {
        let mid = choose|mid: TypeContext|
            #![trigger via1(mid)]
            via1(mid) && struct_fields_checked(old, mid, fs.drop_last()) && field_checked(mid, new, fs.last(), true);
        lemma_struct_fields_keep_scopes(old, mid, fs.drop_last());
        lemma_field_keeps_scopes(mid, new, fs.last(), true);
    }
}

/// Checking an item changes at most the innermost scope: a constant, an import or
/// a statement defines names there; every other kind of item opens a scope of
/// its own, checks its parts there, and closes it again. The errors reported
/// before are kept.
pub proof fn lemma_item_inner_only(old: TypeContext, new: TypeContext, item: Item)
    requires
        old.scope_stack().len() >= 1,
        item_checked(old, new, item),
    ensures
        inner_only(old.scope_stack(), new.scope_stack()),
        errors_kept(old.error_list(), new.error_list()),
{
    match item {
        Item::Function(f) => lemma_function_keeps_scopes(old, new, f.params@, f.return_type, f.is_async, f.body@),
        Item::Class(c) => lemma_class_keeps_scopes(old, new, c),
        Item::Agent(a) => lemma_agent_keeps_scopes(old, new, a),
        Item::Tool(t) => {
            let (s1, s2, s3) = choose|s1: TypeContext, s2: TypeContext, s3: TypeContext|
                #![trigger via3(s1, s2, s3)]
                {
                    &&& via3(s1, s2, s3)
                    &&& entered(old, s1, plain_scope(None, false, false))
                    &&& tool_members_checked(s1, s2, t.members@)
                    &&& if has_execute(t.members@) {
                        s3 == s2
                    } else {
                        reported_no_execute(s2, s3, t)
                    }
                    &&& exited(s3, new)
                };
            lemma_tool_members_keep_scopes(s1, s2, t.members@);
            lemma_closed_again(old.scope_stack(), plain_scope(None, false, false), s3.scope_stack(), new.scope_stack());
        },
        Item::Memory(m) => {
            let (s1, s2) = choose|s1: TypeContext, s2: TypeContext|
                #![trigger via2(s1, s2)]
                via2(s1, s2) && entered(old, s1, plain_scope(None, false, false)) && memory_members_checked(
                    s1,
                    s2,
                    m.members@,
                ) && exited(s2, new);
            lemma_memory_members_keep_scopes(s1, s2, m.members@);
            lemma_closed_again(old.scope_stack(), plain_scope(None, false, false), s2.scope_stack(), new.scope_stack());
        },
        Item::Prompt(p) => {
            let (s1, s2, s3) = choose|s1: TypeContext, s2: TypeContext, s3: TypeContext|
                #![trigger via3(s1, s2, s3)]
                {
                    &&& via3(s1, s2, s3)
                    &&& entered(old, s1, plain_scope(None, false, false))
                    &&& s2.bound_as(&s1, param_symbols(p.params@, prompt_param_types(p.params@, old.type_names())))
                    &&& sections_checked(s2, s3, p.sections@)
                    &&& exited(s3, new)
                };
            lemma_define_all_inner(
                s1.scope_stack(),
                param_symbols(p.params@, prompt_param_types(p.params@, old.type_names())),
            );
            lemma_sections_inner(s2, s3, p.sections@);
            lemma_inner_trans(s1.scope_stack(), s2.scope_stack(), s3.scope_stack());
            lemma_closed_again(old.scope_stack(), plain_scope(None, false, false), s3.scope_stack(), new.scope_stack());
        },
        Item::Struct(d) => lemma_struct_fields_keep_scopes(old, new, d.fields@),
        Item::Enum(_) => {},
        Item::Import(i) => lemma_define_all_inner(old.scope_stack(), import_symbols(i)),
        Item::Const(c) => {
            let (s1, t, mid, ct) = choose|s1: TypeContext, t: Ty, mid: TypeContext, ct: Ty|
                #![trigger via4(s1, t, mid, ct)]
                {
                    &&& via4(s1, t, mid, ct)
                    &&& expr_checked(old, s1, c.value, t)
                    &&& mid.wf()
                    &&& let_typed(s1, mid, t, true, c.ty, source_of(c.value.span), ct)
                    &&& new.wf()
                    &&& new.scope_stack() == define_in(
                        mid.scope_stack(),
                        c.name@,
                        SymbolModel { name: c.name@, ty: ct, mutable: false, span: c.span },
                    )
                    &&& new.same_but_scopes(&mid)
                };
            lemma_expr_keeps_scopes(old, s1, c.value, t);
            assert(mid.scope_stack() == s1.scope_stack());
            lemma_define_in_inner(mid.scope_stack(), c.name@, SymbolModel { name: c.name@, ty: ct, mutable: false, span: c.span });
        },
        Item::Stmt(st) => lemma_stmt_inner_only(old, new, st),
    }
}

/// Checking items in order changes at most the innermost scope.
proof fn lemma_checked_all_inner(old: TypeContext, new: TypeContext, items: Seq<Item>)
    requires
        old.scope_stack().len() >= 1,
        checked_all(old, new, items),
    ensures
        inner_only(old.scope_stack(), new.scope_stack()),
        errors_kept(old.error_list(), new.error_list()),
    decreases items.len(),
{
    if items.len() > 0 {
        let mid = choose|mid: TypeContext|
            #![trigger via1(mid)]
            via1(mid) && checked_all(old, mid, items.drop_last()) && item_checked(mid, new, items.last());
        lemma_checked_all_inner(old, mid, items.drop_last());
        lemma_item_inner_only(mid, new, items.last());
        lemma_inner_trans(old.scope_stack(), mid.scope_stack(), new.scope_stack());
    }
}

/// Registering items in order changes at most the innermost scope.
proof fn lemma_registered_all_inner(old: TypeContext, new: TypeContext, items: Seq<Item>)
    requires
        old.scope_stack().len() >= 1,
        registered_all(old, new, items),
    ensures
        inner_only(old.scope_stack(), new.scope_stack()),
        errors_kept(old.error_list(), new.error_list()),
    decreases items.len(),
{
    if items.len() > 0 {
        let mid = choose|mid: TypeContext|
            #![trigger via1(mid)]
            via1(mid) && registered_all(old, mid, items.drop_last()) && item_registered(mid, new, items.last());
        lemma_registered_all_inner(old, mid, items.drop_last());
        let sym = item_symbol(items.last(), mid.next_var() as int, mid.type_names());
        if let Some(x) = sym {
            lemma_define_in_inner(mid.scope_stack(), x.name, x);
        }
        lemma_inner_trans(old.scope_stack(), mid.scope_stack(), new.scope_stack());
    }
}

/// Checking a module changes at most the innermost scope (the global one, for a
/// module checked in a fresh context): every scope that checking opens for a
/// function, class, agent, tool, memory or prompt, or for a block, lambda or
/// comprehension inside one, is closed again, and the outer scopes are untouched.
/// Every error is kept once reported: the errors of the whole module come in the
/// order they were found.
pub proof fn lemma_module_inner_only(old: TypeContext, new: TypeContext, items: Seq<Item>)
    requires
        old.scope_stack().len() >= 1,
        module_checked(old, new, items),
    ensures
        inner_only(old.scope_stack(), new.scope_stack()),
        errors_kept(old.error_list(), new.error_list()),
{
    let mid = choose|mid: TypeContext| #![trigger via1(mid)] via1(mid) && registered_all(old, mid, items) && checked_all(mid, new, items);
    lemma_registered_all_inner(old, mid, items);
    lemma_checked_all_inner(mid, new, items);
    lemma_inner_trans(old.scope_stack(), mid.scope_stack(), new.scope_stack());
}

} // verus!
