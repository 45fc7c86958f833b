//! Type checking expressions: the type of an expression, with the substitutions
//! and reports that checking it leaves.

use vstd::prelude::*;
use crate::typeck::access::{call_params, callee_checked, ident_checked, member_checked, subscript_checked};
use crate::typeck::ast::{Expr, ExprKind, Generator};
use crate::typeck::bodies::{lambda_entered, param_annotations};
use crate::typeck::context::{plain_scope, ScopeModel, TypeContext};
use crate::typeck::declarations::{missing_count, slot_types};
use crate::typeck::error::{SourceSpan, source_of};
use crate::typeck::unify::lemma_views_of_push;
use crate::typeck::operators::{binop_checked, unop_checked};
use crate::typeck::patterns::{element_or_any, pattern_binds};
use crate::typeck::error::Span;
use crate::typeck::types::{lemma_views_of_index, views_of, Ty, Type};
use crate::typeck::unify::{outcome, unify_spec};

verus! {

/// Marks the intermediate results a check goes through (it always holds); the
/// relations below name their intermediate states and types through it.
pub open spec fn via2<A, B>(a: A, b: B) -> bool {
    true
}

/// Marks one intermediate result.
pub open spec fn via1<A>(a: A) -> bool {
    true
}

/// Marks three intermediate results.
pub open spec fn via3<A, B, C>(a: A, b: B, c: C) -> bool {
    true
}

/// Marks four intermediate results.
pub open spec fn via4<A, B, C, D>(a: A, b: B, c: C, d: D) -> bool {
    true
}

/// Marks six intermediate results.
pub open spec fn via6<A, B, C, D, E, F>(a: A, b: B, c: C, d: D, e: E, f: F) -> bool {
    true
}

/// Marks eight intermediate results.
pub open spec fn via8<A, B, C, D, E, F, G, H>(a: A, b: B, c: C, d: D, e: E, f: F, g: G, h: H) -> bool {
    true
}

/// `new` is `old` with the scope `s` entered.
pub open spec fn entered(old: TypeContext, new: TypeContext, s: ScopeModel) -> bool {
    &&& new.wf()
    &&& new.scope_stack() == old.scope_stack().push(s)
    &&& new.same_but_scopes(&old)
}

/// `new` is `old` after leaving the innermost scope (the global scope stays).
pub open spec fn exited(old: TypeContext, new: TypeContext) -> bool {
    &&& new.wf()
    &&& new.scope_stack() == if old.scope_stack().len() > 1 {
        old.scope_stack().drop_last()
    } else {
        old.scope_stack()
    }
    &&& new.same_but_scopes(&old)
}

/// The most fresh type variables checking an expression can take: one for each
/// empty list or set literal, two for each dict literal, and one for each
/// unannotated lambda parameter.
pub open spec fn expr_fresh(e: Expr) -> nat
    decreases e,
{
    match e.kind {
        ExprKind::FString(ps) => exprs_fresh(ps@),
        ExprKind::Binary(_, l, r) => expr_fresh(*l) + expr_fresh(*r),
        ExprKind::Unary(_, x) => expr_fresh(*x),
        ExprKind::Compare(l, rs) => expr_fresh(*l) + exprs_fresh(rs@),
        ExprKind::IfExpr(c, a, b) => expr_fresh(*c) + expr_fresh(*a) + expr_fresh(*b),
        ExprKind::List(es) => if es@.len() == 0 {
            1
        } else {
            exprs_fresh(es@)
        },
        ExprKind::SetLit(es) => if es@.len() == 0 {
            1
        } else {
            exprs_fresh(es@)
        },
        ExprKind::Dict(ps) => 2 + pairs_fresh(ps@),
        ExprKind::Tuple(es) => exprs_fresh(es@),
        ExprKind::Call(f, args) => expr_fresh(*f) + exprs_fresh(args@),
        ExprKind::Attribute(x, _) => expr_fresh(*x),
        ExprKind::Subscript(x, i) => expr_fresh(*x) + expr_fresh(*i),
        ExprKind::Lambda(ps, body) => missing_count(param_annotations(ps@)) + expr_fresh(*body),
        ExprKind::Await(x) => expr_fresh(*x),
        ExprKind::Yield(x) => match x {
            Some(v) => expr_fresh(*v),
            None => 0,
        },
        ExprKind::Spawn(x) => expr_fresh(*x),
        ExprKind::ListComp(gs, el) => gens_fresh(gs@) + expr_fresh(*el),
        ExprKind::SetComp(gs, el) => gens_fresh(gs@) + expr_fresh(*el),
        ExprKind::GeneratorExpr(gs, el) => gens_fresh(gs@) + expr_fresh(*el),
        ExprKind::DictComp(gs, k, v) => gens_fresh(gs@) + expr_fresh(*k) + expr_fresh(*v),
        _ => 0,
    }
}

/// The most fresh type variables checking each of `es` can take.
pub open spec fn exprs_fresh(es: Seq<Expr>) -> nat
    decreases es,
{
    if es.len() == 0 {
        0
    } else {
        exprs_fresh(es.drop_last()) + expr_fresh(es.last())
    }
}

/// The most fresh type variables checking the pairs of a dict literal can take.
pub open spec fn pairs_fresh(ps: Seq<(Expr, Expr)>) -> nat
    decreases ps,
{
    if ps.len() == 0 {
        0
    } else {
        pairs_fresh(ps.drop_last()) + expr_fresh(ps.last().0) + expr_fresh(ps.last().1)
    }
}

/// The most fresh type variables checking the generators of a comprehension can take.
pub open spec fn gens_fresh(gs: Seq<Generator>) -> nat
    decreases gs,
{
    if gs.len() == 0 {
        0
    } else {
        gens_fresh(gs.drop_last()) + expr_fresh(gs.last().iter) + exprs_fresh(gs.last().conditions@)
    }
}

/// Checking `e` from `old` gives type `r` and leaves `new`.
///
/// Literals have their types; a name its binding's; operators, member access,
/// subscripts and calls check their operands left to right and then type the
/// operation; a conditional expression unifies its two branches; a list or set
/// literal unifies its elements in order (an empty one takes a fresh element
/// type); a dict literal starts from two fresh types and unifies each key and value
/// in; a call checks only the arguments that meet a parameter, each unified with
/// it at the argument; a lambda binds its parameters in a scope of its own and
/// gives a function of them to its body's type; comprehensions bind their
/// generators' targets to the iterated element types in a scope of their own.
pub open spec fn expr_checked(old: TypeContext, new: TypeContext, e: Expr, r: Ty) -> bool
    decreases e,
{
    let span = source_of(e.span);
    match e.kind {
        ExprKind::Int => new == old && r == Ty::Int,
        ExprKind::Float => new == old && r == Ty::Float,
        ExprKind::Bool => new == old && r == Ty::Bool,
        ExprKind::Str => new == old && r == Ty::Str,
        ExprKind::NoneLit => new == old && r == Ty::NoneType,
        ExprKind::FString(parts) => r == Ty::Str && exprs_checked(old, new, parts@),
        ExprKind::Ident(n) => ident_checked(old, new, n@, e.span, r),
        ExprKind::Binary(op, l, rhs) => exists|s1: TypeContext, t1: Ty, s2: TypeContext, t2: Ty|
            #![trigger via4(s1, t1, s2, t2)]
            via4(s1, t1, s2, t2) && {
                &&& expr_checked(old, s1, *l, t1)
                &&& expr_checked(s1, s2, *rhs, t2)
                &&& binop_checked(s2, new, op, t1, t2, span, r)
            },
        ExprKind::Unary(op, x) => exists|s1: TypeContext, t: Ty|
            #![trigger via2(s1, t)]
            via2(s1, t) && expr_checked(old, s1, *x, t) && unop_checked(s1, new, op, t, span, r),
        ExprKind::Compare(l, rs) => r == Ty::Bool && exists|s1: TypeContext, t: Ty|
            #![trigger via2(s1, t)]
            via2(s1, t) && expr_checked(old, s1, *l, t) && exprs_checked(s1, new, rs@),
        ExprKind::IfExpr(c, a, b) => exists|s1: TypeContext, tc: Ty, s2: TypeContext, ta: Ty, s3: TypeContext, tb: Ty|
            #![trigger via6(s1, tc, s2, ta, s3, tb)]
            via6(s1, tc, s2, ta, s3, tb) && {
                &&& expr_checked(old, s1, *c, tc)
                &&& expr_checked(s1, s2, *a, ta)
                &&& expr_checked(s2, s3, *b, tb)
                &&& outcome(s3, new, unify_spec(s3.subst(), ta, tb), r, span)
            },
        ExprKind::List(es) => match r {
            Ty::List(t) => if es@.len() == 0 {
                new.counter_moved(&old, 1) && *t == Ty::TypeVar(old.next_var())
            } else {
                elems_folded(old, new, es@, span, *t)
            },
            _ => false,
        },
        ExprKind::SetLit(es) => match r {
            Ty::SetOf(t) => if es@.len() == 0 {
                new.counter_moved(&old, 1) && *t == Ty::TypeVar(old.next_var())
            } else {
                elems_folded(old, new, es@, span, *t)
            },
            _ => false,
        },
        ExprKind::Dict(ps) => match r {
            Ty::Dict(k, v) => pairs_folded(old, new, ps@, span, *k, *v),
            _ => false,
        },
        ExprKind::Tuple(es) => match r {
            Ty::Tuple(ts) => exprs_typed(old, new, es@, ts),
            _ => false,
        },
        ExprKind::Call(f, args) => exists|s1: TypeContext, tf: Ty, s2: TypeContext|
            #![trigger via3(s1, tf, s2)]
            via3(s1, tf, s2) && {
                &&& expr_checked(old, s1, *f, tf)
                &&& callee_checked(s1, s2, tf, args@.len(), span, r)
                &&& args_unified(s2, new, call_params(tf), args@)
            },
        ExprKind::Attribute(x, m) => exists|s1: TypeContext, t: Ty|
            #![trigger via2(s1, t)]
            via2(s1, t) && expr_checked(old, s1, *x, t) && member_checked(s1, new, t, m@, span, r),
        ExprKind::Subscript(x, i) => exists|s1: TypeContext, t1: Ty, s2: TypeContext, t2: Ty|
            #![trigger via4(s1, t1, s2, t2)]
            via4(s1, t1, s2, t2) && {
                &&& expr_checked(old, s1, *x, t1)
                &&& expr_checked(s1, s2, *i, t2)
                &&& subscript_checked(s2, new, t1, t2, span, r)
            },
        ExprKind::Lambda(ps, body) => exists|s1: TypeContext, s2: TypeContext, tb: Ty|
            #![trigger via3(s1, s2, tb)]
            via3(s1, s2, tb) && {
                &&& lambda_entered(old, s1, ps@)
                &&& expr_checked(s1, s2, *body, tb)
                &&& exited(s2, new)
                &&& r == Ty::Function {
                    params: slot_types(param_annotations(ps@), old.next_var() as int, old.type_names()),
                    ret: Box::new(tb),
                }
            },
        ExprKind::Await(x) => expr_checked(old, new, *x, r),
        ExprKind::Yield(x) => match x {
            Some(v) => expr_checked(old, new, *v, r),
            None => new == old && r == Ty::NoneType,
        },
        ExprKind::Spawn(x) => r == Ty::Any && exists|t: Ty| #![trigger via1(t)] via1(t) && expr_checked(old, new, *x, t),
        ExprKind::ListComp(gs, el) => match r {
            Ty::List(t) => exists|s1: TypeContext, s2: TypeContext, s3: TypeContext|
                #![trigger via3(s1, s2, s3)]
                via3(s1, s2, s3) && {
                    &&& entered(old, s1, plain_scope(None, false, false))
                    &&& gens_checked(s1, s2, gs@)
                    &&& expr_checked(s2, s3, *el, *t)
                    &&& exited(s3, new)
                },
            _ => false,
        },
        ExprKind::SetComp(gs, el) => match r {
            Ty::SetOf(t) => exists|s1: TypeContext, s2: TypeContext, s3: TypeContext|
                #![trigger via3(s1, s2, s3)]
                via3(s1, s2, s3) && {
                    &&& entered(old, s1, plain_scope(None, false, false))
                    &&& gens_checked(s1, s2, gs@)
                    &&& expr_checked(s2, s3, *el, *t)
                    &&& exited(s3, new)
                },
            _ => false,
        },
        ExprKind::GeneratorExpr(gs, el) => match r {
            Ty::Iterator(t) => exists|s1: TypeContext, s2: TypeContext, s3: TypeContext|
                #![trigger via3(s1, s2, s3)]
                via3(s1, s2, s3) && {
                    &&& entered(old, s1, plain_scope(None, false, false))
                    &&& gens_checked(s1, s2, gs@)
                    &&& expr_checked(s2, s3, *el, *t)
                    &&& exited(s3, new)
                },
            _ => false,
        },
        ExprKind::DictComp(gs, k, v) => match r {
            Ty::Dict(kt, vt) => exists|s1: TypeContext, s2: TypeContext, s3: TypeContext, s4: TypeContext|
                #![trigger via4(s1, s2, s3, s4)]
                via4(s1, s2, s3, s4) && {
                    &&& entered(old, s1, plain_scope(None, false, false))
                    &&& gens_checked(s1, s2, gs@)
                    &&& expr_checked(s2, s3, *k, *kt)
                    &&& expr_checked(s3, s4, *v, *vt)
                    &&& exited(s4, new)
                },
            _ => false,
        },
    }
}

/// Checking each of `es` in order, whatever their types, leaves `new`.
pub open spec fn exprs_checked(old: TypeContext, new: TypeContext, es: Seq<Expr>) -> bool
    decreases es,
{
    if es.len() == 0 {
        new == old
    } else {
        exists|mid: TypeContext, t: Ty|
            #![trigger via2(mid, t)]
            via2(mid, t) && exprs_checked(old, mid, es.drop_last()) && expr_checked(mid, new, es.last(), t)
    }
}

/// Checking each of `es` in order gives the types `ts` and leaves `new`.
pub open spec fn exprs_typed(old: TypeContext, new: TypeContext, es: Seq<Expr>, ts: Seq<Ty>) -> bool
    decreases es,
{
    if es.len() == 0 {
        new == old && ts.len() == 0
    } else {
        &&& ts.len() == es.len()
        &&& exists|mid: TypeContext|
            #![trigger via1(mid)]
            via1(mid) && exprs_typed(old, mid, es.drop_last(), ts.drop_last()) && expr_checked(mid, new, es.last(), ts.last())
    }
}

/// Checking the elements `es` (at least one) in order, unifying each after the
/// first with the type so far at `span`, gives the type `acc`.
pub open spec fn elems_folded(old: TypeContext, new: TypeContext, es: Seq<Expr>, span: SourceSpan, acc: Ty) -> bool
    decreases es,
{
    if es.len() == 0 {
        false
    } else if es.len() == 1 {
        expr_checked(old, new, es[0], acc)
    } else {
        exists|mid: TypeContext, acc0: Ty, s1: TypeContext, t: Ty|
            #![trigger via4(mid, acc0, s1, t)]
            via4(mid, acc0, s1, t) && {
                &&& elems_folded(old, mid, es.drop_last(), span, acc0)
                &&& expr_checked(mid, s1, es.last(), t)
                &&& outcome(s1, new, unify_spec(s1.subst(), acc0, t), acc, span)
            }
    }
}

/// A dict literal with pairs `ps` (at `span`) has key type `k` and value type `v`:
/// starting from two fresh type variables (key, then value), each key and value is
/// checked and then unified into the key and value types, in order.
pub open spec fn pairs_folded(old: TypeContext, new: TypeContext, ps: Seq<(Expr, Expr)>, span: SourceSpan, k: Ty, v: Ty) -> bool
    decreases ps,
{
    if ps.len() == 0 {
        &&& new.counter_moved(&old, 2)
        &&& k == Ty::TypeVar(old.next_var())
        &&& v == Ty::TypeVar((old.next_var() + 1) as u32)
    } else {
        exists|mid: TypeContext, k0: Ty, v0: Ty, s1: TypeContext, tk: Ty, s2: TypeContext, tv: Ty, s3: TypeContext|
            #![trigger via8(mid, k0, v0, s1, tk, s2, tv, s3)]
            via8(mid, k0, v0, s1, tk, s2, tv, s3) && {
                &&& pairs_folded(old, mid, ps.drop_last(), span, k0, v0)
                &&& expr_checked(mid, s1, ps.last().0, tk)
                &&& expr_checked(s1, s2, ps.last().1, tv)
                &&& outcome(s2, s3, unify_spec(s2.subst(), k0, tk), k, span)
                &&& outcome(s3, new, unify_spec(s3.subst(), v0, tv), v, span)
            }
    }
}

/// The arguments `args` that meet one of the parameters `ps` are checked in order,
/// each then unified with its parameter at the argument's span; the others are not
/// checked.
pub open spec fn args_unified(old: TypeContext, new: TypeContext, ps: Seq<Ty>, args: Seq<Expr>) -> bool
    decreases args,
{
    if args.len() == 0 {
        new == old
    } else if args.len() > ps.len() {
        args_unified(old, new, ps, args.drop_last())
    } else {
        exists|mid: TypeContext, s1: TypeContext, t: Ty|
            #![trigger via3(mid, s1, t)]
            via3(mid, s1, t) && {
                &&& args_unified(old, mid, ps, args.drop_last())
                &&& expr_checked(mid, s1, args.last(), t)
                &&& outcome(
                    s1,
                    new,
                    unify_spec(s1.subst(), ps[args.len() - 1], t),
                    unify_spec(s1.subst(), ps[args.len() - 1], t).ty,
                    source_of(args.last().span),
                )
            }
    }
}

/// The generators `gs` of a comprehension, in order: each iterated value is checked,
/// its target bound (as mutable variables) to the element type, and its conditions
/// checked.
pub open spec fn gens_checked(old: TypeContext, new: TypeContext, gs: Seq<Generator>) -> bool
    decreases gs,
{
    if gs.len() == 0 {
        new == old
    } else {
        exists|mid: TypeContext, s1: TypeContext, ti: Ty, s2: TypeContext|
            #![trigger via4(mid, s1, ti, s2)]
            via4(mid, s1, ti, s2) && {
                &&& gens_checked(old, mid, gs.drop_last())
                &&& expr_checked(mid, s1, gs.last().iter, ti)
                &&& s2.bound_as(&s1, pattern_binds(gs.last().target, element_or_any(ti), true, false))
                &&& exprs_checked(s2, new, gs.last().conditions@)
            }
    }
}

/// Checking one more expression after a list of them.
pub(crate) proof fn lemma_exprs_checked_step(old: TypeContext, mid: TypeContext, new: TypeContext, es: Seq<Expr>, t: Ty)
    requires
        es.len() > 0,
        exprs_checked(old, mid, es.drop_last()),
        expr_checked(mid, new, es.last(), t),
    ensures
        exprs_checked(old, new, es),
{
    assert(via2(mid, t));
}

/// Arguments past the parameters are not checked.
proof fn lemma_args_unified_beyond(old: TypeContext, new: TypeContext, ps: Seq<Ty>, args: Seq<Expr>, k: int)
    requires
        ps.len() <= k <= args.len(),
        args_unified(old, new, ps, args.take(ps.len() as int)),
    ensures
        args_unified(old, new, ps, args.take(k)),
    decreases k,
{
    if k > ps.len() {
        lemma_args_unified_beyond(old, new, ps, args, k - 1);
        assert(args.take(k).drop_last() =~= args.take(k - 1));
    }
}

/// A prefix never takes more fresh variables than the whole list.
pub(crate) proof fn lemma_exprs_fresh_prefix(es: Seq<Expr>, i: int)
    requires
        0 <= i <= es.len(),
    ensures
        exprs_fresh(es.take(i)) <= exprs_fresh(es),
    decreases es.len(),
{
    if i < es.len() {
        lemma_exprs_fresh_prefix(es.drop_last(), i);
        assert(es.drop_last().take(i) =~= es.take(i));
    } else {
        assert(es.take(i) =~= es);
    }
}

/// A prefix never takes more fresh variables than all the pairs.
proof fn lemma_pairs_fresh_prefix(ps: Seq<(Expr, Expr)>, i: int)
    requires
        0 <= i <= ps.len(),
    ensures
        pairs_fresh(ps.take(i)) <= pairs_fresh(ps),
    decreases ps.len(),
{
    if i < ps.len() {
        lemma_pairs_fresh_prefix(ps.drop_last(), i);
        assert(ps.drop_last().take(i) =~= ps.take(i));
    } else {
        assert(ps.take(i) =~= ps);
    }
}

/// A prefix never takes more fresh variables than all the generators.
proof fn lemma_gens_fresh_prefix(gs: Seq<Generator>, i: int)
    requires
        0 <= i <= gs.len(),
    ensures
        gens_fresh(gs.take(i)) <= gens_fresh(gs),
    decreases gs.len(),
{
    if i < gs.len() {
        lemma_gens_fresh_prefix(gs.drop_last(), i);
        assert(gs.drop_last().take(i) =~= gs.take(i));
    } else {
        assert(gs.take(i) =~= gs);
    }
}

impl TypeContext {
    /// The counter moved on by at most `n` from `old`, and the context is well formed.
    pub open spec fn advanced_within(&self, old: &Self, n: nat) -> bool {
        &&& self.wf()
        &&& old.next_var() <= self.next_var() <= old.next_var() + n
    }

    /// Check each of `es` in order.
    pub(crate) fn check_exprs(&mut self, es: &Vec<Expr>)
        requires
            old(self).wf(),
            old(self).next_var() + exprs_fresh(es@) <= u32::MAX,
        ensures
            final(self).advanced_within(old(self), exprs_fresh(es@)),
            exprs_checked(*old(self), *final(self), es@),
        decreases es@,
    {
        let ghost s0 = *self;
        let mut i: usize = 0;
        assert(es@.take(0) =~= Seq::<Expr>::empty());
        while i < es.len()
            invariant
                i <= es.len(),
                s0.wf(),
                s0.next_var() + exprs_fresh(es@) <= u32::MAX,
                self.advanced_within(&s0, exprs_fresh(es@.take(i as int))),
                exprs_checked(s0, *self, es@.take(i as int)),
            decreases es.len() - i,
        {
            proof {
                assert(es@.take(i + 1).drop_last() =~= es@.take(i as int));
                assert(es@.take(i + 1).last() == es@[i as int]);
                lemma_exprs_fresh_prefix(es@, i + 1);
            }
            let ghost mid = *self;
            assert(decreases_to!(es@ => es@[i as int]));
            let t = self.check_expr(&es[i]);
            proof {
                lemma_exprs_checked_step(s0, mid, *self, es@.take(i + 1), t.view_ty());
            }
            i += 1;
        }
        assert(es@.take(es.len() as int) =~= es@);
    }

    /// Check each of `es` in order, giving their types.
    fn check_exprs_typed(&mut self, es: &Vec<Expr>) -> (r: Vec<Type>)
        requires
            old(self).wf(),
            old(self).next_var() + exprs_fresh(es@) <= u32::MAX,
        ensures
            final(self).advanced_within(old(self), exprs_fresh(es@)),
            exprs_typed(*old(self), *final(self), es@, views_of(r@)),
        decreases es@,
    {
        let ghost s0 = *self;
        let mut out: Vec<Type> = Vec::new();
        let mut i: usize = 0;
        assert(es@.take(0) =~= Seq::<Expr>::empty());
        while i < es.len()
            invariant
                i <= es.len(),
                s0.wf(),
                s0.next_var() + exprs_fresh(es@) <= u32::MAX,
                self.advanced_within(&s0, exprs_fresh(es@.take(i as int))),
                exprs_typed(s0, *self, es@.take(i as int), views_of(out@)),
            decreases es.len() - i,
        {
            proof {
                assert(es@.take(i + 1).drop_last() =~= es@.take(i as int));
                assert(es@.take(i + 1).last() == es@[i as int]);
                lemma_exprs_fresh_prefix(es@, i + 1);
                lemma_views_of_index(out@);
            }
            let ghost mid = *self;
            assert(decreases_to!(es@ => es@[i as int]));
            let t = self.check_expr(&es[i]);
            proof {
                lemma_views_of_push(out@, t);
                lemma_views_of_index(out@.push(t));
                assert(views_of(out@.push(t)).drop_last() =~= views_of(out@));
            }
            out.push(t);
            assert(via1(mid));
            assert(exprs_typed(s0, mid, es@.take(i + 1).drop_last(), views_of(out@).drop_last()));
            i += 1;
        }
        assert(es@.take(es.len() as int) =~= es@);
        out
    }

    /// A list or set literal's element type.
    fn check_seq_literal(&mut self, es: &Vec<Expr>, span: Span) -> (r: Type)
        requires
            old(self).wf(),
            old(self).next_var() + (if es@.len() == 0 { 1 } else { exprs_fresh(es@) }) <= u32::MAX,
        ensures
            final(self).advanced_within(old(self), if es@.len() == 0 { 1 } else { exprs_fresh(es@) }),
            if es@.len() == 0 {
                final(self).counter_moved(old(self), 1) && r.view_ty() == Ty::TypeVar(old(self).next_var())
            } else {
                elems_folded(*old(self), *final(self), es@, source_of(span), r.view_ty())
            },
        decreases es@,
    {
        if es.len() == 0 {
            return self.fresh_type_var();
        }
        let ghost s0 = *self;
        let ghost sp = source_of(span);
        proof {
            assert(es@.take(1).drop_last() =~= Seq::<Expr>::empty());
            assert(es@.take(1).last() == es@[0]);
            lemma_exprs_fresh_prefix(es@, 1);
        }
        assert(decreases_to!(es@ => es@[0]));
        let mut acc = self.check_expr(&es[0]);
        assert(es@.take(1)[0] == es@[0]);
        let mut i: usize = 1;
        while i < es.len()
            invariant
                1 <= i <= es.len(),
                s0.wf(),
                sp == source_of(span),
                s0.next_var() + exprs_fresh(es@) <= u32::MAX,
                self.advanced_within(&s0, exprs_fresh(es@.take(i as int))),
                elems_folded(s0, *self, es@.take(i as int), sp, acc.view_ty()),
            decreases es.len() - i,
        {
            proof {
                assert(es@.take(i + 1).drop_last() =~= es@.take(i as int));
                assert(es@.take(i + 1).last() == es@[i as int]);
                lemma_exprs_fresh_prefix(es@, i + 1);
            }
            let ghost mid = *self;
            let ghost acc0 = acc.view_ty();
            assert(decreases_to!(es@ => es@[i as int]));
            let t = self.check_expr(&es[i]);
            let ghost s1 = *self;
            acc = self.unify(&acc, &t, span);
            assert(via4(mid, acc0, s1, t.view_ty()));
            i += 1;
        }
        assert(es@.take(es.len() as int) =~= es@);
        acc
    }

    /// A dict literal's key and value types.
    fn check_dict_literal(&mut self, ps: &Vec<(Expr, Expr)>, span: Span) -> (r: (Type, Type))
        requires
            old(self).wf(),
            old(self).next_var() + 2 + pairs_fresh(ps@) <= u32::MAX,
        ensures
            final(self).advanced_within(old(self), 2 + pairs_fresh(ps@)),
            pairs_folded(*old(self), *final(self), ps@, source_of(span), r.0.view_ty(), r.1.view_ty()),
        decreases ps@,
    {
        let ghost s0 = *self;
        let ghost sp = source_of(span);
        let mut k = self.fresh_type_var();
        let mut v = self.fresh_type_var();
        assert(ps@.take(0) =~= Seq::<(Expr, Expr)>::empty());
        let mut i: usize = 0;
        while i < ps.len()
            invariant
                i <= ps.len(),
                s0.wf(),
                sp == source_of(span),
                s0.next_var() + 2 + pairs_fresh(ps@) <= u32::MAX,
                self.advanced_within(&s0, 2 + pairs_fresh(ps@.take(i as int))),
                pairs_folded(s0, *self, ps@.take(i as int), sp, k.view_ty(), v.view_ty()),
            decreases ps.len() - i,
        {
            proof {
                assert(ps@.take(i + 1).drop_last() =~= ps@.take(i as int));
                assert(ps@.take(i + 1).last() == ps@[i as int]);
                lemma_pairs_fresh_prefix(ps@, i + 1);
            }
            let ghost mid = *self;
            let ghost k0 = k.view_ty();
            let ghost v0 = v.view_ty();
            assert(decreases_to!(ps@ => ps@[i as int]));
            let tk = self.check_expr(&ps[i].0);
            let ghost s1 = *self;
            let tv = self.check_expr(&ps[i].1);
            let ghost s2 = *self;
            k = self.unify(&k, &tk, span);
            let ghost s3 = *self;
            v = self.unify(&v, &tv, span);
            assert(via8(mid, k0, v0, s1, tk.view_ty(), s2, tv.view_ty(), s3));
            i += 1;
        }
        assert(ps@.take(ps.len() as int) =~= ps@);
        (k, v)
    }

    /// Check the arguments that meet a parameter, each unified with it.
    fn check_args(&mut self, params: &Vec<Type>, args: &Vec<Expr>)
        requires
            old(self).wf(),
            old(self).next_var() + exprs_fresh(args@) <= u32::MAX,
        ensures
            final(self).advanced_within(old(self), exprs_fresh(args@)),
            args_unified(*old(self), *final(self), views_of(params@), args@),
        decreases args@,
    {
        let ghost s0 = *self;
        let ghost ps = views_of(params@);
        proof {
            lemma_views_of_index(params@);
        }
        let n = if args.len() <= params.len() {
            args.len()
        } else {
            params.len()
        };
        assert(args@.take(0) =~= Seq::<Expr>::empty());
        let mut i: usize = 0;
        while i < n
            invariant
                i <= n,
                n <= args.len(),
                n <= params.len(),
                n == args.len() || n == params.len(),
                s0.wf(),
                ps == views_of(params@),
                ps.len() == params.len(),
                forall|k: int| 0 <= k < params.len() ==> #[trigger] ps[k] == params@[k].view_ty(),
                s0.next_var() + exprs_fresh(args@) <= u32::MAX,
                self.advanced_within(&s0, exprs_fresh(args@.take(i as int))),
                args_unified(s0, *self, ps, args@.take(i as int)),
            decreases n - i,
        {
            proof {
                assert(args@.take(i + 1).drop_last() =~= args@.take(i as int));
                assert(args@.take(i + 1).last() == args@[i as int]);
                lemma_exprs_fresh_prefix(args@, i + 1);
            }
            let ghost mid = *self;
            assert(decreases_to!(args@ => args@[i as int]));
            let t = self.check_expr(&args[i]);
            let ghost s1 = *self;
            self.unify(&params[i], &t, args[i].span);
            assert(via3(mid, s1, t.view_ty()));
            i += 1;
        }
        proof {
            lemma_exprs_fresh_prefix(args@, n as int);
            if n == args.len() {
                assert(args@.take(n as int) =~= args@);
            } else {
                assert(args@.take(args.len() as int) =~= args@);
                lemma_args_unified_beyond(s0, *self, ps, args@, args.len() as int);
            }
        }
    }

    /// Check the generators of a comprehension.
    fn check_gens(&mut self, gs: &Vec<Generator>)
        requires
            old(self).wf(),
            old(self).next_var() + gens_fresh(gs@) <= u32::MAX,
        ensures
            final(self).advanced_within(old(self), gens_fresh(gs@)),
            gens_checked(*old(self), *final(self), gs@),
        decreases gs@,
    {
        let ghost s0 = *self;
        assert(gs@.take(0) =~= Seq::<Generator>::empty());
        let mut i: usize = 0;
        while i < gs.len()
            invariant
                i <= gs.len(),
                s0.wf(),
                s0.next_var() + gens_fresh(gs@) <= u32::MAX,
                self.advanced_within(&s0, gens_fresh(gs@.take(i as int))),
                gens_checked(s0, *self, gs@.take(i as int)),
            decreases gs.len() - i,
        {
            proof {
                assert(gs@.take(i + 1).drop_last() =~= gs@.take(i as int));
                assert(gs@.take(i + 1).last() == gs@[i as int]);
                lemma_gens_fresh_prefix(gs@, i + 1);
            }
            let g = &gs[i];
            let ghost mid = *self;
            assert(decreases_to!(gs@ => gs@[i as int]));
            let ti = self.check_expr(&g.iter);
            let ghost s1 = *self;
            let elem = match ti.element_type() {
                Some(e) => e,
                None => Type::Any,
            };
            self.bind_pattern(&g.target, &elem);
            let ghost s2 = *self;
            self.check_exprs(&g.conditions);
            assert(via4(mid, s1, ti.view_ty(), s2));
            i += 1;
        }
        assert(gs@.take(gs.len() as int) =~= gs@);
    }

    /// Check an expression: its type, with the substitutions and reports checking
    /// it leaves, as `expr_checked` says. (Each fresh type variable it takes must
    /// fit in the `u32` counter.)
    #[verifier::rlimit(40)]
    pub fn check_expr(&mut self, e: &Expr) -> (r: Type)
        requires
            old(self).wf(),
            old(self).next_var() + expr_fresh(*e) <= u32::MAX,
        ensures
            final(self).advanced_within(old(self), expr_fresh(*e)),
            expr_checked(*old(self), *final(self), *e, r.view_ty()),
        decreases *e,
    {
        let ghost s0 = *self;
        match &e.kind {
            ExprKind::Int => Type::Int,
            ExprKind::Float => Type::Float,
            ExprKind::Bool => Type::Bool,
            ExprKind::Str => Type::Str,
            ExprKind::NoneLit => Type::NoneType,
            ExprKind::FString(parts) => {
                self.check_exprs(parts);
                Type::Str
            },
            ExprKind::Ident(n) => self.check_ident_type(n.as_str(), e.span),
            ExprKind::Binary(op, l, rhs) => {
                let lt = self.check_expr(l);
                let ghost s1 = *self;
                let rt = self.check_expr(rhs);
                let ghost s2 = *self;
                let r = self.check_binary_types(*op, &lt, &rt, e.span);
                assert(via4(s1, lt.view_ty(), s2, rt.view_ty()));
                r
            },
            ExprKind::Unary(op, x) => {
                let t = self.check_expr(x);
                let ghost s1 = *self;
                let r = self.check_unary_type(*op, &t, e.span);
                assert(via2(s1, t.view_ty()));
                r
            },
            ExprKind::Compare(l, rs) => {
                let t = self.check_expr(l);
                let ghost s1 = *self;
                self.check_exprs(rs);
                assert(via2(s1, t.view_ty()));
                Type::Bool
            },
            ExprKind::IfExpr(c, a, b) => {
                let tc = self.check_expr(c);
                let ghost s1 = *self;
                let ta = self.check_expr(a);
                let ghost s2 = *self;
                let tb = self.check_expr(b);
                let ghost s3 = *self;
                let r = self.unify(&ta, &tb, e.span);
                assert(via6(s1, tc.view_ty(), s2, ta.view_ty(), s3, tb.view_ty()));
                r
            },
            ExprKind::List(es) => {
                let t = self.check_seq_literal(es, e.span);
                Type::List(Box::new(t))
            },
            ExprKind::SetLit(es) => {
                let t = self.check_seq_literal(es, e.span);
                Type::SetOf(Box::new(t))
            },
            ExprKind::Dict(ps) => {
                let (k, v) = self.check_dict_literal(ps, e.span);
                Type::Dict(Box::new(k), Box::new(v))
            },
            ExprKind::Tuple(es) => {
                let ts = self.check_exprs_typed(es);
                Type::Tuple(ts)
            },
            ExprKind::Call(f, args) => {
                let tf = self.check_expr(f);
                let ghost s1 = *self;
                let (ret, params) = self.check_callee_type(&tf, args.len(), e.span);
                let ghost s2 = *self;
                self.check_args(&params, args);
                assert(via3(s1, tf.view_ty(), s2));
                ret
            },
            ExprKind::Attribute(x, m) => {
                let t = self.check_expr(x);
                let ghost s1 = *self;
                let r = self.check_attribute_type(&t, m.as_str(), e.span);
                assert(via2(s1, t.view_ty()));
                r
            },
            ExprKind::Subscript(x, i) => {
                let t1 = self.check_expr(x);
                let ghost s1 = *self;
                let t2 = self.check_expr(i);
                let ghost s2 = *self;
                let r = self.check_subscript_type(&t1, &t2, e.span);
                assert(via4(s1, t1.view_ty(), s2, t2.view_ty()));
                r
            },
            ExprKind::Lambda(ps, body) => {
                let tys = self.enter_lambda_params(ps);
                let ghost s1 = *self;
                let tb = self.check_expr(body);
                let ghost s2 = *self;
                self.exit_scope();
                assert(via3(s1, s2, tb.view_ty()));
                Type::Function { params: tys, ret: Box::new(tb) }
            },
            ExprKind::Await(x) => self.check_expr(x),
            ExprKind::Yield(x) => match x {
                Some(v) => self.check_expr(v),
                None => Type::NoneType,
            },
            ExprKind::Spawn(x) => {
                let t = self.check_expr(x);
                assert(via1(t.view_ty()));
                Type::Any
            },
            ExprKind::ListComp(gs, el) => {
                self.enter_scope();
                let ghost s1 = *self;
                self.check_gens(gs);
                let ghost s2 = *self;
                let t = self.check_expr(el);
                let ghost s3 = *self;
                self.exit_scope();
                assert(via3(s1, s2, s3));
                Type::List(Box::new(t))
            },
            ExprKind::SetComp(gs, el) => {
                self.enter_scope();
                let ghost s1 = *self;
                self.check_gens(gs);
                let ghost s2 = *self;
                let t = self.check_expr(el);
                let ghost s3 = *self;
                self.exit_scope();
                assert(via3(s1, s2, s3));
                Type::SetOf(Box::new(t))
            },
            ExprKind::GeneratorExpr(gs, el) => {
                self.enter_scope();
                let ghost s1 = *self;
                self.check_gens(gs);
                let ghost s2 = *self;
                let t = self.check_expr(el);
                let ghost s3 = *self;
                self.exit_scope();
                assert(via3(s1, s2, s3));
                Type::Iterator(Box::new(t))
            },
            ExprKind::DictComp(gs, k, v) => {
                self.enter_scope();
                let ghost s1 = *self;
                self.check_gens(gs);
                let ghost s2 = *self;
                let kt = self.check_expr(k);
                let ghost s3 = *self;
                let vt = self.check_expr(v);
                let ghost s4 = *self;
                self.exit_scope();
                assert(via4(s1, s2, s3, s4));
                Type::Dict(Box::new(kt), Box::new(vt))
            },
        }
    }
}

} // verus!
