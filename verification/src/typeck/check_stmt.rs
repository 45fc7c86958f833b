//! Type checking statements and blocks.

use vstd::prelude::*;
use crate::typeck::ast::{Expr, ExprKind, Handler, MatchArm, Stmt, WithItem};
use crate::typeck::check_expr::{
    entered, expr_checked, expr_fresh, exited, via1, via2, via3, via4, via6, via8,
};
use crate::typeck::context::{define_in, plain_scope, ScopeModel, SymbolModel, TypeContext};
use crate::typeck::error::{Span, source_of};
use crate::typeck::patterns::pattern_binds;
use crate::typeck::statements::{aug_assigned, iterated, let_bound, name_assigned, returned, target_checked};
use crate::typeck::types::{Ty, Type};

verus! {

/// `new` is `old` with `name` bound in the innermost scope as a mutable variable of
/// type `ty`, defined at `span`.
pub open spec fn defined_let(old: TypeContext, new: TypeContext, name: Seq<char>, ty: Ty, span: Span) -> bool {
    &&& new.wf()
    &&& new.scope_stack() == define_in(old.scope_stack(), name, SymbolModel { name, ty, mutable: true, span })
    &&& new.same_but_scopes(&old)
}

/// Checking an optional expression, whatever its type.
pub open spec fn opt_expr_checked(old: TypeContext, new: TypeContext, o: Option<Expr>) -> bool {
    match o {
        Some(e) => exists|t: Ty| #![trigger via1(t)] via1(t) && expr_checked(old, new, e, t),
        None => new == old,
    }
}

/// The most fresh type variables checking an optional expression can take.
pub open spec fn opt_expr_fresh(o: Option<Expr>) -> nat {
    match o {
        Some(e) => expr_fresh(e),
        None => 0,
    }
}

/// The most fresh type variables checking an assignment target can take.
pub open spec fn target_fresh(e: Expr) -> nat
    decreases e,
{
    match e.kind {
        ExprKind::Ident(_) => 0,
        ExprKind::Tuple(es) => targets_fresh(es@),
        _ => expr_fresh(e),
    }
}

/// The most fresh type variables checking assignment targets can take.
pub open spec fn targets_fresh(es: Seq<Expr>) -> nat
    decreases es,
{
    if es.len() == 0 {
        0
    } else {
        targets_fresh(es.drop_last()) + target_fresh(es.last())
    }
}

/// Checking an assignment target: a name must be a defined, mutable binding (each
/// failure reported); a tuple's parts are targets in turn; anything else is
/// checked as an expression.
pub open spec fn target_assigned(old: TypeContext, new: TypeContext, e: Expr) -> bool
    decreases e,
{
    match e.kind {
        ExprKind::Ident(n) => target_checked(old, new, n@, e.span, true),
        ExprKind::Tuple(es) => targets_assigned(old, new, es@),
        _ => exists|t: Ty| #![trigger via1(t)] via1(t) && expr_checked(old, new, e, t),
    }
}

/// Checking assignment targets in order.
pub open spec fn targets_assigned(old: TypeContext, new: TypeContext, es: Seq<Expr>) -> bool
    decreases es,
{
    if es.len() == 0 {
        new == old
    } else {
        exists|mid: TypeContext| #![trigger via1(mid)]
            via1(mid) && targets_assigned(old, mid, es.drop_last()) && target_assigned(mid, new, es.last())
    }
}

/// The most fresh type variables checking a statement can take.
pub open spec fn stmt_fresh(s: Stmt) -> nat
    decreases s,
{
    match s {
        Stmt::Expr(e) => expr_fresh(e),
        Stmt::Let(l) => match l.value {
            Some(v) => expr_fresh(v),
            None => 1,
        },
        Stmt::Assign { target, value, .. } => expr_fresh(value) + match target.kind {
            ExprKind::Tuple(es) => targets_fresh(es@),
            _ => expr_fresh(target),
        },
        Stmt::AugAssign { target, value, .. } => expr_fresh(target) + expr_fresh(value),
        Stmt::Return { value, .. } => opt_expr_fresh(value),
        Stmt::If { condition, then_block, elifs, else_block } => expr_fresh(condition) + block_fresh(then_block@)
            + elifs_fresh(elifs@) + opt_block_fresh(else_block),
        Stmt::For { iter, body, else_block, .. } => expr_fresh(iter) + block_fresh(body@) + opt_block_fresh(
            else_block,
        ),
        Stmt::While { condition, body, else_block } => expr_fresh(condition) + block_fresh(body@)
            + opt_block_fresh(else_block),
        Stmt::Match { subject, arms } => expr_fresh(subject) + arms_fresh(arms@),
        Stmt::Try { body, handlers, else_block, finally_block } => block_fresh(body@) + handlers_fresh(handlers@)
            + opt_block_fresh(else_block) + opt_block_fresh(finally_block),
        Stmt::With { items, body } => items_fresh(items@) + block_fresh(body@),
        Stmt::Raise { exception, cause } => opt_expr_fresh(exception) + opt_expr_fresh(cause),
        Stmt::Assert { test, msg } => expr_fresh(test) + opt_expr_fresh(msg),
        Stmt::Async(ss) => block_fresh(ss@),
        _ => 0,
    }
}

/// The most fresh type variables checking a block can take.
pub open spec fn block_fresh(ss: Seq<Stmt>) -> nat
    decreases ss,
{
    if ss.len() == 0 {
        0
    } else {
        block_fresh(ss.drop_last()) + stmt_fresh(ss.last())
    }
}

/// The most fresh type variables checking an optional block can take.
pub open spec fn opt_block_fresh(b: Option<Vec<Stmt>>) -> nat
    decreases b,
{
    match b {
        Some(ss) => block_fresh(ss@),
        None => 0,
    }
}

/// The most fresh type variables checking `elif` branches can take.
pub open spec fn elifs_fresh(es: Seq<(Expr, Vec<Stmt>)>) -> nat
    decreases es,
{
    if es.len() == 0 {
        0
    } else {
        elifs_fresh(es.drop_last()) + expr_fresh(es.last().0) + block_fresh(es.last().1@)
    }
}

/// The most fresh type variables checking match arms can take.
pub open spec fn arms_fresh(arms: Seq<MatchArm>) -> nat
    decreases arms,
{
    if arms.len() == 0 {
        0
    } else {
        arms_fresh(arms.drop_last()) + opt_expr_fresh(arms.last().guard) + block_fresh(arms.last().body@)
    }
}

/// The most fresh type variables checking `except` handlers can take.
pub open spec fn handlers_fresh(hs: Seq<Handler>) -> nat
    decreases hs,
{
    if hs.len() == 0 {
        0
    } else {
        handlers_fresh(hs.drop_last()) + opt_expr_fresh(hs.last().ty) + block_fresh(hs.last().body@)
    }
}

/// The most fresh type variables checking `with` items can take.
pub open spec fn items_fresh(items: Seq<WithItem>) -> nat
    decreases items,
{
    if items.len() == 0 {
        0
    } else {
        items_fresh(items.drop_last()) + expr_fresh(items.last().context)
    }
}

/// Checking `s` from `old` leaves `new`.
///
/// An expression statement is checked for its effect; `let`, assignments,
/// augmented assignments and `return` check their expressions and then decide as
/// `let_bound`, `name_assigned`, `target_assigned`, `aug_assigned` and `returned`
/// say; `if`, `while` and `for` check their conditions or iterated value and their
/// blocks, each block in a scope of its own (a loop scope for loop bodies, where a
/// `for` binds its target to the element type); `match` checks the subject and then
/// each arm in a scope of its own, binding its pattern; `try` checks its blocks in
/// scopes of their own, binding each handler's name to its exception type; `with`
/// binds its aliases in the scope of its body; `raise` and `assert` check their
/// expressions; `break`, `continue` and `pass` change nothing.
pub open spec fn stmt_checked(old: TypeContext, new: TypeContext, s: Stmt) -> bool
    decreases s, 0int,
{
    match s {
        Stmt::Expr(e) => exists|t: Ty| #![trigger via1(t)] via1(t) && expr_checked(old, new, e, t),
        Stmt::Let(l) => exists|s1: TypeContext, ti: Ty|
            #![trigger via2(s1, ti)]
            {
                &&& via2(s1, ti)
                &&& match l.value {
                    Some(v) => expr_checked(old, s1, v, ti),
                    None => s1 == old,
                }
                &&& let_bound(
                    s1,
                    new,
                    if l.value is Some {
                        Some(ti)
                    } else {
                        None
                    },
                    l.ty,
                    l.pattern,
                    l.is_mutable && !l.is_const,
                    source_of(l.span),
                )
            },
        Stmt::Assign { target, value, span } => exists|s1: TypeContext, tv: Ty|
            #![trigger via2(s1, tv)]
            {
                &&& via2(s1, tv)
                &&& expr_checked(old, s1, value, tv)
                &&& match target.kind {
                    ExprKind::Ident(n) => name_assigned(s1, new, n@, target.span, tv, source_of(span)),
                    ExprKind::Tuple(es) => targets_assigned(s1, new, es@),
                    _ => exists|t: Ty| #![trigger via1(t)] via1(t) && expr_checked(s1, new, target, t),
                }
            },
        Stmt::AugAssign { target, op, value, span } => exists|s1: TypeContext, tt: Ty, s2: TypeContext, tv: Ty|
            #![trigger via4(s1, tt, s2, tv)]
            {
                &&& via4(s1, tt, s2, tv)
                &&& expr_checked(old, s1, target, tt)
                &&& expr_checked(s1, s2, value, tv)
                &&& aug_assigned(
                    s2,
                    new,
                    match target.kind {
                        ExprKind::Ident(n) => Some((n@, target.span)),
                        _ => None,
                    },
                    op,
                    tt,
                    tv,
                    source_of(span),
                )
            },
        Stmt::Return { value, span } => exists|s1: TypeContext, tv: Ty|
            #![trigger via2(s1, tv)]
            {
                &&& via2(s1, tv)
                &&& match value {
                    Some(v) => expr_checked(old, s1, v, tv),
                    None => s1 == old && tv == Ty::NoneType,
                }
                &&& returned(s1, new, tv, source_of(span))
            },
        Stmt::If { condition, then_block, elifs, else_block } => exists|s1: TypeContext, tc: Ty, s2: TypeContext|
            #![trigger via3(s1, tc, s2)]
            {
                &&& via3(s1, tc, s2)
                &&& expr_checked(old, s1, condition, tc)
                &&& scoped_block(s1, s2, then_block@, plain_scope(None, false, false))
                &&& exists|s3: TypeContext| #![trigger via1(s3)]
                    via1(s3) && elifs_checked(s2, s3, elifs@) && opt_scoped(s3, new, else_block)
            },
        Stmt::For { target, iter, body, else_block } => exists|s1: TypeContext, ti: Ty, s2: TypeContext, el: Ty, s3: TypeContext, s4: TypeContext, s5: TypeContext, s6: TypeContext|
            #![trigger via8(s1, ti, s2, el, s3, s4, s5, s6)]
            {
                &&& via8(s1, ti, s2, el, s3, s4, s5, s6)
                &&& expr_checked(old, s1, iter, ti)
                &&& iterated(s1, s2, ti, source_of(iter.span), el)
                &&& entered(s2, s3, plain_scope(None, true, false))
                &&& s4.bound_as(&s3, pattern_binds(target, el, true, false))
                &&& block_checked(s4, s5, body@)
                &&& exited(s5, s6)
                &&& opt_scoped(s6, new, else_block)
            },
        Stmt::While { condition, body, else_block } => exists|s1: TypeContext, tc: Ty, s2: TypeContext|
            #![trigger via3(s1, tc, s2)]
            {
                &&& via3(s1, tc, s2)
                &&& expr_checked(old, s1, condition, tc)
                &&& scoped_block(s1, s2, body@, plain_scope(None, true, false))
                &&& opt_scoped(s2, new, else_block)
            },
        Stmt::Match { subject, arms } => exists|s1: TypeContext, ts: Ty|
            #![trigger via2(s1, ts)]
            via2(s1, ts) && expr_checked(old, s1, subject, ts) && arms_checked(s1, new, arms@, ts),
        Stmt::Try { body, handlers, else_block, finally_block } => exists|s1: TypeContext, s2: TypeContext, s3: TypeContext|
            #![trigger via3(s1, s2, s3)]
            {
                &&& via3(s1, s2, s3)
                &&& scoped_block(old, s1, body@, plain_scope(None, false, false))
                &&& handlers_checked(s1, s2, handlers@)
                &&& opt_scoped(s2, s3, else_block)
                &&& opt_scoped(s3, new, finally_block)
            },
        Stmt::With { items, body } => exists|s1: TypeContext, s2: TypeContext, s3: TypeContext|
            #![trigger via3(s1, s2, s3)]
            {
                &&& via3(s1, s2, s3)
                &&& entered(old, s1, plain_scope(None, false, false))
                &&& items_checked(s1, s2, items@)
                &&& block_checked(s2, s3, body@)
                &&& exited(s3, new)
            },
        Stmt::Raise { exception, cause } => exists|s1: TypeContext| #![trigger via1(s1)]
            via1(s1) && opt_expr_checked(old, s1, exception) && opt_expr_checked(s1, new, cause),
        Stmt::Assert { test, msg } => exists|s1: TypeContext, t: Ty|
            #![trigger via2(s1, t)]
            via2(s1, t) && expr_checked(old, s1, test, t) && opt_expr_checked(s1, new, msg),
        Stmt::Break => new == old,
        Stmt::Continue => new == old,
        Stmt::Pass => new == old,
        Stmt::Async(ss) => scoped_block(old, new, ss@, plain_scope(None, false, false)),
    }
}

/// Checking the statements `ss` in order.
pub open spec fn block_checked(old: TypeContext, new: TypeContext, ss: Seq<Stmt>) -> bool
    decreases ss, 0int,
{
    if ss.len() == 0 {
        new == old
    } else {
        exists|mid: TypeContext| #![trigger via1(mid)]
            via1(mid) && block_checked(old, mid, ss.drop_last()) && stmt_checked(mid, new, ss.last())
    }
}

/// Checking a block in a scope `scope` of its own.
pub open spec fn scoped_block(old: TypeContext, new: TypeContext, ss: Seq<Stmt>, scope: ScopeModel) -> bool
    decreases ss, 1int,
{
    exists|s1: TypeContext, s2: TypeContext| #![trigger via2(s1, s2)]
        via2(s1, s2) && entered(old, s1, scope) && block_checked(s1, s2, ss) && exited(s2, new)
}

/// Checking an optional block in a plain scope of its own.
pub open spec fn opt_scoped(old: TypeContext, new: TypeContext, b: Option<Vec<Stmt>>) -> bool
    decreases b, 0int,
{
    match b {
        Some(ss) => scoped_block(old, new, ss@, plain_scope(None, false, false)),
        None => new == old,
    }
}

/// Checking `elif` branches in order: each condition, then its block in a plain
/// scope of its own.
pub open spec fn elifs_checked(old: TypeContext, new: TypeContext, es: Seq<(Expr, Vec<Stmt>)>) -> bool
    decreases es, 0int,
{
    if es.len() == 0 {
        new == old
    } else {
        exists|mid: TypeContext, s1: TypeContext, tc: Ty|
            #![trigger via3(mid, s1, tc)]
            {
                &&& via3(mid, s1, tc)
                &&& elifs_checked(old, mid, es.drop_last())
                &&& expr_checked(mid, s1, es.last().0, tc)
                &&& scoped_block(s1, new, es.last().1@, plain_scope(None, false, false))
            }
    }
}

/// Checking match arms in order against a subject of type `t`: each arm in a plain
/// scope of its own, binding its pattern (mutable, tuples only against tuples of
/// their length), then its guard and its body.
pub open spec fn arms_checked(old: TypeContext, new: TypeContext, arms: Seq<MatchArm>, t: Ty) -> bool
    decreases arms, 0int,
{
    if arms.len() == 0 {
        new == old
    } else {
        exists|mid: TypeContext, s1: TypeContext, s2: TypeContext, s3: TypeContext, s4: TypeContext|
            #![trigger via6(mid, s1, s2, s3, s4, t)]
            {
                &&& via6(mid, s1, s2, s3, s4, t)
                &&& arms_checked(old, mid, arms.drop_last(), t)
                &&& entered(mid, s1, plain_scope(None, false, false))
                &&& s2.bound_as(&s1, pattern_binds(arms.last().pattern, t, true, true))
                &&& opt_expr_checked(s2, s3, arms.last().guard)
                &&& block_checked(s3, s4, arms.last().body@)
                &&& exited(s4, new)
            }
    }
}

/// Checking `except` handlers in order, each in a plain scope of its own: the
/// exception type (when given) is checked and bound to the handler's name (when
/// given), then the handler's block.
pub open spec fn handlers_checked(old: TypeContext, new: TypeContext, hs: Seq<Handler>) -> bool
    decreases hs, 0int,
{
    if hs.len() == 0 {
        new == old
    } else {
        exists|mid: TypeContext, s1: TypeContext, s2: TypeContext, s3: TypeContext|
            #![trigger via4(mid, s1, s2, s3)]
            {
                &&& via4(mid, s1, s2, s3)
                &&& handlers_checked(old, mid, hs.drop_last())
                &&& entered(mid, s1, plain_scope(None, false, false))
                &&& handler_head(s1, s2, hs.last().ty, hs.last().name)
                &&& block_checked(s2, s3, hs.last().body@)
                &&& exited(s3, new)
            }
    }
}

/// A handler's head: the exception type checked and bound to the name.
pub open spec fn handler_head(old: TypeContext, new: TypeContext, ty: Option<Expr>, name: Option<(String, Span)>) -> bool {
    match ty {
        None => new == old,
        Some(x) => exists|s1: TypeContext, t: Ty|
            #![trigger via2(s1, t)]
            {
                &&& via2(s1, t)
                &&& expr_checked(old, s1, x, t)
                &&& match name {
                    Some((n, sp)) => defined_let(s1, new, n@, t, sp),
                    None => new == s1,
                }
            },
    }
}

/// Checking `with` items in order: each context, bound to its alias when it has one.
pub open spec fn items_checked(old: TypeContext, new: TypeContext, items: Seq<WithItem>) -> bool
    decreases items, 0int,
{
    if items.len() == 0 {
        new == old
    } else {
        exists|mid: TypeContext, s1: TypeContext, t: Ty|
            #![trigger via3(mid, s1, t)]
            {
                &&& via3(mid, s1, t)
                &&& items_checked(old, mid, items.drop_last())
                &&& expr_checked(mid, s1, items.last().context, t)
                &&& match items.last().alias {
                    Some((n, sp)) => defined_let(s1, new, n@, t, sp),
                    None => new == s1,
                }
            }
    }
}

/// A prefix of a block never takes more fresh variables than the whole.
pub(crate) proof fn lemma_block_fresh_prefix(ss: Seq<Stmt>, i: int)
    requires
        0 <= i <= ss.len(),
    ensures
        block_fresh(ss.take(i)) <= block_fresh(ss),
    decreases ss.len(),
{
    if i < ss.len() {
        lemma_block_fresh_prefix(ss.drop_last(), i);
        assert(ss.drop_last().take(i) =~= ss.take(i));
    } else {
        assert(ss.take(i) =~= ss);
    }
}

/// A prefix of `elif` branches never takes more fresh variables than all of them.
proof fn lemma_elifs_fresh_prefix(es: Seq<(Expr, Vec<Stmt>)>, i: int)
    requires
        0 <= i <= es.len(),
    ensures
        elifs_fresh(es.take(i)) <= elifs_fresh(es),
    decreases es.len(),
{
    if i < es.len() {
        lemma_elifs_fresh_prefix(es.drop_last(), i);
        assert(es.drop_last().take(i) =~= es.take(i));
    } else {
        assert(es.take(i) =~= es);
    }
}

/// A prefix of match arms never takes more fresh variables than all of them.
proof fn lemma_arms_fresh_prefix(arms: Seq<MatchArm>, i: int)
    requires
        0 <= i <= arms.len(),
    ensures
        arms_fresh(arms.take(i)) <= arms_fresh(arms),
    decreases arms.len(),
{
    if i < arms.len() {
        lemma_arms_fresh_prefix(arms.drop_last(), i);
        assert(arms.drop_last().take(i) =~= arms.take(i));
    } else {
        assert(arms.take(i) =~= arms);
    }
}

/// A prefix of handlers never takes more fresh variables than all of them.
proof fn lemma_handlers_fresh_prefix(hs: Seq<Handler>, i: int)
    requires
        0 <= i <= hs.len(),
    ensures
        handlers_fresh(hs.take(i)) <= handlers_fresh(hs),
    decreases hs.len(),
{
    if i < hs.len() {
        lemma_handlers_fresh_prefix(hs.drop_last(), i);
        assert(hs.drop_last().take(i) =~= hs.take(i));
    } else {
        assert(hs.take(i) =~= hs);
    }
}

/// A prefix of `with` items never takes more fresh variables than all of them.
proof fn lemma_items_fresh_prefix(items: Seq<WithItem>, i: int)
    requires
        0 <= i <= items.len(),
    ensures
        items_fresh(items.take(i)) <= items_fresh(items),
    decreases items.len(),
{
    if i < items.len() {
        lemma_items_fresh_prefix(items.drop_last(), i);
        assert(items.drop_last().take(i) =~= items.take(i));
    } else {
        assert(items.take(i) =~= items);
    }
}

/// A prefix of assignment targets never takes more fresh variables than all of them.
proof fn lemma_targets_fresh_prefix(es: Seq<Expr>, i: int)
    requires
        0 <= i <= es.len(),
    ensures
        targets_fresh(es.take(i)) <= targets_fresh(es),
    decreases es.len(),
{
    if i < es.len() {
        lemma_targets_fresh_prefix(es.drop_last(), i);
        assert(es.drop_last().take(i) =~= es.take(i));
    } else {
        assert(es.take(i) =~= es);
    }
}

impl TypeContext {
    /// Check an optional expression.
    fn check_opt_expr(&mut self, o: &Option<Expr>)
        requires
            old(self).wf(),
            old(self).next_var() + opt_expr_fresh(*o) <= u32::MAX,
        ensures
            final(self).advanced_within(old(self), opt_expr_fresh(*o)),
            opt_expr_checked(*old(self), *final(self), *o),
    {
        if let Some(e) = o {
            let t = self.check_expr(e);
            assert(via1(t.view_ty()));
        }
    }

    /// Check an assignment target.
    fn check_assign_target(&mut self, e: &Expr)
        requires
            old(self).wf(),
            old(self).next_var() + target_fresh(*e) <= u32::MAX,
        ensures
            final(self).advanced_within(old(self), target_fresh(*e)),
            target_assigned(*old(self), *final(self), *e),
        decreases *e,
    {
        match &e.kind {
            ExprKind::Ident(n) => {
                self.check_assign_target_name(n.as_str(), e.span);
            },
            ExprKind::Tuple(es) => {
                self.check_assign_targets(es);
            },
            _ => {
                let t = self.check_expr(e);
                assert(via1(t.view_ty()));
            },
        }
    }

    /// Check assignment targets in order.
    fn check_assign_targets(&mut self, es: &Vec<Expr>)
        requires
            old(self).wf(),
            old(self).next_var() + targets_fresh(es@) <= u32::MAX,
        ensures
            final(self).advanced_within(old(self), targets_fresh(es@)),
            targets_assigned(*old(self), *final(self), es@),
        decreases es@,
    {
        let ghost s0 = *self;
        assert(es@.take(0) =~= Seq::<Expr>::empty());
        let mut i: usize = 0;
        while i < es.len()
            invariant
                i <= es.len(),
                s0.wf(),
                s0.next_var() + targets_fresh(es@) <= u32::MAX,
                self.advanced_within(&s0, targets_fresh(es@.take(i as int))),
                targets_assigned(s0, *self, es@.take(i as int)),
            decreases es.len() - i,
        {
            proof {
                assert(es@.take(i + 1).drop_last() =~= es@.take(i as int));
                assert(es@.take(i + 1).last() == es@[i as int]);
                lemma_targets_fresh_prefix(es@, i + 1);
            }
            let ghost mid = *self;
            assert(decreases_to!(es@ => es@[i as int]));
            self.check_assign_target(&es[i]);
            assert(via1(mid));
            i += 1;
        }
        assert(es@.take(es.len() as int) =~= es@);
    }

    /// Check the items of a `with`, binding their aliases.
    fn check_with_items(&mut self, items: &Vec<WithItem>)
        requires
            old(self).wf(),
            old(self).next_var() + items_fresh(items@) <= u32::MAX,
        ensures
            final(self).advanced_within(old(self), items_fresh(items@)),
            items_checked(*old(self), *final(self), items@),
    {
        let ghost s0 = *self;
        assert(items@.take(0) =~= Seq::<WithItem>::empty());
        let mut i: usize = 0;
        while i < items.len()
            invariant
                i <= items.len(),
                s0.wf(),
                s0.next_var() + items_fresh(items@) <= u32::MAX,
                self.advanced_within(&s0, items_fresh(items@.take(i as int))),
                items_checked(s0, *self, items@.take(i as int)),
            decreases items.len() - i,
        {
            proof {
                assert(items@.take(i + 1).drop_last() =~= items@.take(i as int));
                assert(items@.take(i + 1).last() == items@[i as int]);
                lemma_items_fresh_prefix(items@, i + 1);
            }
            let item = &items[i];
            let ghost mid = *self;
            let t = self.check_expr(&item.context);
            let ghost s1 = *self;
            if let Some((n, sp)) = &item.alias {
                self.define_let(n.clone(), t.clone(), *sp);
            }
            assert(via3(mid, s1, t.view_ty()));
            i += 1;
        }
        assert(items@.take(items.len() as int) =~= items@);
    }
}

impl TypeContext {
    /// Check a block of statements in order, as `block_checked` says.
    pub fn check_block(&mut self, ss: &Vec<Stmt>)
        requires
            old(self).wf(),
            old(self).next_var() + block_fresh(ss@) <= u32::MAX,
        ensures
            final(self).advanced_within(old(self), block_fresh(ss@)),
            block_checked(*old(self), *final(self), ss@),
        decreases ss@, 0int,
    {
        let ghost s0 = *self;
        assert(ss@.take(0) =~= Seq::<Stmt>::empty());
        let mut i: usize = 0;
        while i < ss.len()
            invariant
                i <= ss.len(),
                s0.wf(),
                s0.next_var() + block_fresh(ss@) <= u32::MAX,
                self.advanced_within(&s0, block_fresh(ss@.take(i as int))),
                block_checked(s0, *self, ss@.take(i as int)),
            decreases ss.len() - i,
        {
            proof {
                assert(ss@.take(i + 1).drop_last() =~= ss@.take(i as int));
                assert(ss@.take(i + 1).last() == ss@[i as int]);
                lemma_block_fresh_prefix(ss@, i + 1);
            }
            let ghost mid = *self;
            assert(decreases_to!(ss@ => ss@[i as int]));
            self.check_stmt(&ss[i]);
            assert(via1(mid));
            i += 1;
        }
        assert(ss@.take(ss.len() as int) =~= ss@);
    }

    /// Check a block in a scope of its own (a loop scope when `is_loop`).
    fn check_scoped_block(&mut self, ss: &Vec<Stmt>, is_loop: bool)
        requires
            old(self).wf(),
            old(self).next_var() + block_fresh(ss@) <= u32::MAX,
        ensures
            final(self).advanced_within(old(self), block_fresh(ss@)),
            scoped_block(*old(self), *final(self), ss@, plain_scope(None, is_loop, false)),
        decreases ss@, 1int,
    {
        if is_loop {
            self.enter_loop_scope();
        } else {
            self.enter_scope();
        }
        let ghost s1 = *self;
        self.check_block(ss);
        let ghost s2 = *self;
        self.exit_scope();
        assert(via2(s1, s2));
    }

    /// Check an optional block in a plain scope of its own.
    fn check_opt_scoped(&mut self, b: &Option<Vec<Stmt>>)
        requires
            old(self).wf(),
            old(self).next_var() + opt_block_fresh(*b) <= u32::MAX,
        ensures
            final(self).advanced_within(old(self), opt_block_fresh(*b)),
            opt_scoped(*old(self), *final(self), *b),
        decreases *b, 0int,
    {
        if let Some(ss) = b {
            self.check_scoped_block(ss, false);
        }
    }

    /// Check `elif` branches in order.
    fn check_elifs(&mut self, es: &Vec<(Expr, Vec<Stmt>)>)
        requires
            old(self).wf(),
            old(self).next_var() + elifs_fresh(es@) <= u32::MAX,
        ensures
            final(self).advanced_within(old(self), elifs_fresh(es@)),
            elifs_checked(*old(self), *final(self), es@),
        decreases es@, 0int,
    {
        let ghost s0 = *self;
        assert(es@.take(0) =~= Seq::<(Expr, Vec<Stmt>)>::empty());
        let mut i: usize = 0;
        while i < es.len()
            invariant
                i <= es.len(),
                s0.wf(),
                s0.next_var() + elifs_fresh(es@) <= u32::MAX,
                self.advanced_within(&s0, elifs_fresh(es@.take(i as int))),
                elifs_checked(s0, *self, es@.take(i as int)),
            decreases es.len() - i,
        {
            proof {
                assert(es@.take(i + 1).drop_last() =~= es@.take(i as int));
                assert(es@.take(i + 1).last() == es@[i as int]);
                lemma_elifs_fresh_prefix(es@, i + 1);
            }
            let ghost mid = *self;
            assert(decreases_to!(es@ => es@[i as int]));
            let tc = self.check_expr(&es[i].0);
            let ghost s1 = *self;
            self.check_scoped_block(&es[i].1, false);
            assert(via3(mid, s1, tc.view_ty()));
            i += 1;
        }
        assert(es@.take(es.len() as int) =~= es@);
    }

    /// Check match arms in order against a subject of type `t`.
    fn check_arms(&mut self, arms: &Vec<MatchArm>, t: &Type)
        requires
            old(self).wf(),
            old(self).next_var() + arms_fresh(arms@) <= u32::MAX,
        ensures
            final(self).advanced_within(old(self), arms_fresh(arms@)),
            arms_checked(*old(self), *final(self), arms@, t.view_ty()),
        decreases arms@, 0int,
    {
        let ghost s0 = *self;
        assert(arms@.take(0) =~= Seq::<MatchArm>::empty());
        let mut i: usize = 0;
        while i < arms.len()
            invariant
                i <= arms.len(),
                s0.wf(),
                s0.next_var() + arms_fresh(arms@) <= u32::MAX,
                self.advanced_within(&s0, arms_fresh(arms@.take(i as int))),
                arms_checked(s0, *self, arms@.take(i as int), t.view_ty()),
            decreases arms.len() - i,
        {
            proof {
                assert(arms@.take(i + 1).drop_last() =~= arms@.take(i as int));
                assert(arms@.take(i + 1).last() == arms@[i as int]);
                lemma_arms_fresh_prefix(arms@, i + 1);
            }
            let arm = &arms[i];
            let ghost mid = *self;
            assert(decreases_to!(arms@ => arms@[i as int]));
            self.enter_scope();
            let ghost s1 = *self;
            self.check_pattern(&arm.pattern, t);
            let ghost s2 = *self;
            self.check_opt_expr(&arm.guard);
            let ghost s3 = *self;
            self.check_block(&arm.body);
            let ghost s4 = *self;
            self.exit_scope();
            assert(via6(mid, s1, s2, s3, s4, t.view_ty()));
            i += 1;
        }
        assert(arms@.take(arms.len() as int) =~= arms@);
    }

    /// Check `except` handlers in order.
    fn check_handlers(&mut self, hs: &Vec<Handler>)
        requires
            old(self).wf(),
            old(self).next_var() + handlers_fresh(hs@) <= u32::MAX,
        ensures
            final(self).advanced_within(old(self), handlers_fresh(hs@)),
            handlers_checked(*old(self), *final(self), hs@),
        decreases hs@, 0int,
    {
        let ghost s0 = *self;
        assert(hs@.take(0) =~= Seq::<Handler>::empty());
        let mut i: usize = 0;
        while i < hs.len()
            invariant
                i <= hs.len(),
                s0.wf(),
                s0.next_var() + handlers_fresh(hs@) <= u32::MAX,
                self.advanced_within(&s0, handlers_fresh(hs@.take(i as int))),
                handlers_checked(s0, *self, hs@.take(i as int)),
            decreases hs.len() - i,
        {
            proof {
                assert(hs@.take(i + 1).drop_last() =~= hs@.take(i as int));
                assert(hs@.take(i + 1).last() == hs@[i as int]);
                lemma_handlers_fresh_prefix(hs@, i + 1);
            }
            let h = &hs[i];
            let ghost mid = *self;
            assert(decreases_to!(hs@ => hs@[i as int]));
            self.enter_scope();
            let ghost s1 = *self;
            if let Some(x) = &h.ty {
                let t = self.check_expr(x);
                let ghost sx = *self;
                if let Some((n, sp)) = &h.name {
                    self.define_let(n.clone(), t.clone(), *sp);
                }
                assert(via2(sx, t.view_ty()));
            }
            let ghost s2 = *self;
            self.check_block(&h.body);
            let ghost s3 = *self;
            self.exit_scope();
            assert(via4(mid, s1, s2, s3));
            i += 1;
        }
        assert(hs@.take(hs.len() as int) =~= hs@);
    }

    /// Check a statement, as `stmt_checked` says. (Each fresh type variable it takes
    /// must fit in the `u32` counter.)
    #[verifier::rlimit(60)]
    pub fn check_stmt(&mut self, s: &Stmt)
        requires
            old(self).wf(),
            old(self).next_var() + stmt_fresh(*s) <= u32::MAX,
        ensures
            final(self).advanced_within(old(self), stmt_fresh(*s)),
            stmt_checked(*old(self), *final(self), *s),
        decreases *s, 0int,
    {
        match s {
            Stmt::Expr(e) => {
                let t = self.check_expr(e);
                assert(via1(t.view_ty()));
            },
            Stmt::Let(l) => {
                let init = match &l.value {
                    Some(v) => Some(self.check_expr(v)),
                    None => None,
                };
                let ghost s1 = *self;
                let ghost ti = match &init {
                    Some(t) => t.view_ty(),
                    None => Ty::Int,
                };
                let init_ref = match &init {
                    Some(t) => Some(t),
                    None => None,
                };
                let ann = match &l.ty {
                    Some(te) => Some(te),
                    None => None,
                };
                self.check_let_types(init_ref, ann, &l.pattern, l.is_mutable, l.is_const, l.span);
                assert(via2(s1, ti));
            },
            Stmt::Assign { target, value, span } => {
                let tv = self.check_expr(value);
                let ghost s1 = *self;
                match &target.kind {
                    ExprKind::Ident(n) => {
                        self.check_assign_name(n.as_str(), target.span, &tv, *span);
                    },
                    ExprKind::Tuple(es) => {
                        self.check_assign_targets(es);
                    },
                    _ => {
                        let t = self.check_expr(target);
                        assert(via1(t.view_ty()));
                    },
                }
                assert(via2(s1, tv.view_ty()));
            },
            Stmt::AugAssign { target, op, value, span } => {
                let tt = self.check_expr(target);
                let ghost s1 = *self;
                let tv = self.check_expr(value);
                let ghost s2 = *self;
                let name = match &target.kind {
                    ExprKind::Ident(n) => Some((n.as_str(), target.span)),
                    _ => None,
                };
                self.check_aug_assign_types(name, *op, &tt, &tv, *span);
                assert(via4(s1, tt.view_ty(), s2, tv.view_ty()));
            },
            Stmt::Return { value, span } => {
                let tv = match value {
                    Some(v) => self.check_expr(v),
                    None => Type::NoneType,
                };
                let ghost s1 = *self;
                self.check_return_type(Some(&tv), *span);
                assert(via2(s1, tv.view_ty()));
            },
            Stmt::If { condition, then_block, elifs, else_block } => {
                let tc = self.check_expr(condition);
                let ghost s1 = *self;
                self.check_scoped_block(then_block, false);
                let ghost s2 = *self;
                self.check_elifs(elifs);
                let ghost s3 = *self;
                self.check_opt_scoped(else_block);
                assert(via1(s3));
                assert(via3(s1, tc.view_ty(), s2));
            },
            Stmt::For { target, iter, body, else_block } => {
                let ti = self.check_expr(iter);
                let ghost s1 = *self;
                let el = self.check_iterable_type(&ti, iter.span);
                let ghost s2 = *self;
                self.enter_loop_scope();
                let ghost s3 = *self;
                self.bind_pattern(target, &el);
                let ghost s4 = *self;
                self.check_block(body);
                let ghost s5 = *self;
                self.exit_scope();
                let ghost s6 = *self;
                self.check_opt_scoped(else_block);
                assert(via8(s1, ti.view_ty(), s2, el.view_ty(), s3, s4, s5, s6));
            },
            Stmt::While { condition, body, else_block } => {
                let tc = self.check_expr(condition);
                let ghost s1 = *self;
                self.check_scoped_block(body, true);
                let ghost s2 = *self;
                self.check_opt_scoped(else_block);
                assert(via3(s1, tc.view_ty(), s2));
            },
            Stmt::Match { subject, arms } => {
                let ts = self.check_expr(subject);
                let ghost s1 = *self;
                self.check_arms(arms, &ts);
                assert(via2(s1, ts.view_ty()));
            },
            Stmt::Try { body, handlers, else_block, finally_block } => {
                self.check_scoped_block(body, false);
                let ghost s1 = *self;
                self.check_handlers(handlers);
                let ghost s2 = *self;
                self.check_opt_scoped(else_block);
                let ghost s3 = *self;
                self.check_opt_scoped(finally_block);
                assert(via3(s1, s2, s3));
            },
            Stmt::With { items, body } => {
                self.enter_scope();
                let ghost s1 = *self;
                self.check_with_items(items);
                let ghost s2 = *self;
                self.check_block(body);
                let ghost s3 = *self;
                self.exit_scope();
                assert(via3(s1, s2, s3));
            },
            Stmt::Raise { exception, cause } => {
                self.check_opt_expr(exception);
                let ghost s1 = *self;
                self.check_opt_expr(cause);
                assert(via1(s1));
            },
            Stmt::Assert { test, msg } => {
                let t = self.check_expr(test);
                let ghost s1 = *self;
                self.check_opt_expr(msg);
                assert(via2(s1, t.view_ty()));
            },
            Stmt::Break | Stmt::Continue | Stmt::Pass => {},
            Stmt::Async(ss) => {
                self.check_scoped_block(ss, false);
            },
        }
    }
}

} // verus!
