//! The typing decisions of statements, given the types of their expressions:
//! `let` bindings, what a `for` loop iterates, assignments to names, augmented
//! assignments and `return`.

use vstd::prelude::*;
use crate::typeck::annotations::{denoted, TypeExpr};
use crate::typeck::context::{lookup_in, return_type_in, TypeContext};
use crate::typeck::patterns::{pattern_binds, Pattern};
use crate::typeck::error::{SourceSpan, Span, TypeError, source_of, to_source_span};
use crate::typeck::operators::{op_checked, BinaryOp};
use crate::typeck::types::{clone_type, clone_types, display, lemma_views_of_index, Ty, Type};
use crate::typeck::unify::{outcome, unify_spec};
use crate::stdlib::text::owned;

verus! {

/// The element type iterating a value of type `t` gives, or `None` when it cannot
/// be iterated: lists, sets and iterators give their element, dicts their key type,
/// strings strings; a tuple gives its element when it has one and the union of its
/// elements when it has more; a loose type gives `Any` and an error stays an error.
pub open spec fn iteration_type(t: Ty) -> Option<Ty> {
    match t {
        Ty::List(e) => Some(*e),
        Ty::SetOf(e) => Some(*e),
        Ty::Iterator(e) => Some(*e),
        Ty::Dict(k, _) => Some(*k),
        Ty::Str => Some(Ty::Str),
        Ty::Tuple(es) => if es.len() == 0 {
            None
        } else if es.len() == 1 {
            Some(es[0])
        } else {
            Some(Ty::Union(es))
        },
        Ty::Any => Some(Ty::Any),
        Ty::Unknown => Some(Ty::Any),
        Ty::Error => Some(Ty::Error),
        _ => None,
    }
}

/// `new` is `old` with one more error.
pub open spec fn one_error_more(old: TypeContext, new: TypeContext) -> bool {
    &&& new.wf()
    &&& new.same_but_inference(&old)
    &&& new.subst() == old.subst()
    &&& new.error_list().len() == old.error_list().len() + 1
    &&& new.error_list().drop_last() == old.error_list()
}

/// `new` is `old` with one more error, reporting that `t` is not iterable.
pub open spec fn rejected_iteration(old: TypeContext, new: TypeContext, t: Ty, span: SourceSpan) -> bool {
    &&& one_error_more(old, new)
    &&& new.error_list().last() matches TypeError::NotIterable { ty, span: s }
    &&& ty@ == display(t)
    &&& s == span
}

/// `new` is `old` with one more error, reporting an assignment at `at` to the
/// immutable `name` defined at `def`.
pub open spec fn rejected_assignment(old: TypeContext, new: TypeContext, name: Seq<char>, def: Span, at: Span) -> bool {
    &&& one_error_more(old, new)
    &&& new.error_list().last() matches TypeError::ImmutableAssign { name: n, def_span, assign_span }
    &&& n@ == name
    &&& def_span == source_of(def)
    &&& assign_span == source_of(at)
}

/// `new` is `old` with one more error, reporting that `name` (at `at`) is undefined.
pub open spec fn rejected_undefined(old: TypeContext, new: TypeContext, name: Seq<char>, at: Span) -> bool {
    &&& one_error_more(old, new)
    &&& new.error_list().last() matches TypeError::UndefinedVariable { name: n, span, suggestion }
    &&& n@ == name
    &&& span == source_of(at)
    &&& suggestion is None
}

/// Assigning to `name` (at `at`) as the target of an assignment: an immutable
/// name is reported, an undefined one too when `report_undefined`.
pub open spec fn target_checked(old: TypeContext, new: TypeContext, name: Seq<char>, at: Span, report_undefined: bool) -> bool {
    match lookup_in(old.scope_stack(), name) {
        Some(sym) => if sym.mutable {
            new == old
        } else {
            rejected_assignment(old, new, name, sym.span, at)
        },
        None => if report_undefined {
            rejected_undefined(old, new, name, at)
        } else {
            new == old
        },
    }
}

/// An augmented assignment operator.
#[derive(Clone, Copy, Debug, PartialEq, Eq, Structural)]
pub enum AugOp {
    Add,
    Sub,
    Mul,
    Div,
    FloorDiv,
    Mod,
    Pow,
    BitAnd,
    BitOr,
    BitXor,
    Shl,
    Shr,
}

/// The operator whose check an augmented assignment runs: `+` for `+=`, `-` for
/// `-=` and `*=`, `/` for `/=`, `//` for `//=` and `%=`, `**` for `**=`, and `&` for
/// the bitwise ones.
pub open spec fn aug_binop(op: AugOp) -> BinaryOp {
    match op {
        AugOp::Add => BinaryOp::Add,
        AugOp::Sub | AugOp::Mul => BinaryOp::Sub,
        AugOp::Div => BinaryOp::Div,
        AugOp::FloorDiv | AugOp::Mod => BinaryOp::FloorDiv,
        AugOp::Pow => BinaryOp::Pow,
        _ => BinaryOp::BitAnd,
    }
}

/// Marks the intermediate results a statement goes through (it always holds).
pub open spec fn picked<A, B>(a: A, b: B) -> bool {
    true
}

/// Marks three intermediate results.
pub open spec fn picked3<A, B, C>(a: A, b: B, c: C) -> bool {
    true
}

/// The contract of finding what a `for` loop over a value of type `t` binds: the
/// element type, or an error and a report when `t` cannot be iterated.
pub open spec fn iterated(old: TypeContext, new: TypeContext, t: Ty, span: SourceSpan, r: Ty) -> bool {
    match iteration_type(t) {
        Some(e) => r == e && new == old,
        None => r == Ty::Error && rejected_iteration(old, new, t, span),
    }
}

/// The contract of assigning a value of type `value` to the name `name` (at
/// `at`) in an assignment at `span`.
pub open spec fn name_assigned(old: TypeContext, new: TypeContext, name: Seq<char>, at: Span, value: Ty, span: SourceSpan) -> bool {
    match lookup_in(old.scope_stack(), name) {
        Some(sym) => if sym.mutable {
            outcome(old, new, unify_spec(old.subst(), sym.ty, value), unify_spec(old.subst(), sym.ty, value).ty, span)
        } else {
            rejected_assignment(old, new, name, sym.span, at)
        },
        None => rejected_undefined(old, new, name, at),
    }
}

/// The contract of an augmented assignment of types `l op= r` at `span`, the
/// target being the name given (with its span) when it is a plain name.
pub open spec fn aug_assigned(
    old: TypeContext,
    new: TypeContext,
    target: Option<(Seq<char>, Span)>,
    op: AugOp,
    l: Ty,
    r: Ty,
    span: SourceSpan,
) -> bool {
    exists|mid: TypeContext, t: Ty|
        #![trigger picked(mid, t)]
        {
            &&& picked(mid, t)
            &&& match target {
                Some((n, at)) => target_checked(old, mid, n, at, false),
                None => mid == old,
            }
            &&& mid.wf()
            &&& op_checked(mid, new, aug_binop(op), l, r, span, t)
        }
}

/// The contract of returning a value of type `value` at `span`: inside a scope
/// that declares a return type, that type is unified with it.
pub open spec fn returned(old: TypeContext, new: TypeContext, value: Ty, span: SourceSpan) -> bool {
    match return_type_in(old.scope_stack()) {
        Some(expected) => outcome(old, new, unify_spec(old.subst(), expected, value), unify_spec(old.subst(), expected, value).ty, span),
        None => new == old,
    }
}

/// The contract of binding a `let` (at `span`) whose initializer has type `init`
/// (`None` without an initializer, which then takes a fresh type variable): the
/// pattern is bound with the given mutability to the type `let_typed` gives.
pub open spec fn let_bound(
    old: TypeContext,
    new: TypeContext,
    init: Option<Ty>,
    annotation: Option<TypeExpr>,
    pattern: Pattern,
    mutable: bool,
    span: SourceSpan,
) -> bool {
    exists|mid: TypeContext, s2: TypeContext, bound: Ty|
        #![trigger picked3(mid, s2, bound)]
        {
            &&& picked3(mid, s2, bound)
            &&& match init {
                Some(_) => mid == old,
                None => mid.counter_moved(&old, 1),
            }
            &&& s2.wf()
            &&& let_typed(
                mid,
                s2,
                match init {
                    Some(t) => t,
                    None => Ty::TypeVar(old.next_var()),
                },
                init is Some,
                annotation,
                span,
                bound,
            )
            &&& new.bound_as(&s2, pattern_binds(pattern, bound, mutable, false))
        }
}

impl TypeContext {
    /// The element type a `for` loop over a value of type `iter_ty` binds, reporting
    /// a type that cannot be iterated.
    pub fn check_iterable_type(&mut self, iter_ty: &Type, span: Span) -> (r: Type)
        requires
            old(self).wf(),
        ensures
            iterated(*old(self), *final(self), iter_ty.view_ty(), source_of(span), r.view_ty()),
    {
        match iter_ty {
            Type::List(e) | Type::SetOf(e) | Type::Iterator(e) => clone_type(e),
            Type::Dict(k, _) => clone_type(k),
            Type::Str => Type::Str,
            Type::Tuple(elems) => {
                proof {
                    lemma_views_of_index(elems@);
                }
                if elems.len() == 0 {
                    self.reject_iteration(iter_ty, span)
                } else if elems.len() == 1 {
                    clone_type(&elems[0])
                } else {
                    Type::Union(clone_types(elems))
                }
            },
            Type::Any | Type::Unknown => Type::Any,
            Type::Error => Type::Error,
            _ => self.reject_iteration(iter_ty, span),
        }
    }

    /// Report that `iter_ty` is not iterable.
    fn reject_iteration(&mut self, iter_ty: &Type, span: Span) -> (r: Type)
        requires
            old(self).wf(),
        ensures
            r.view_ty() == Ty::Error,
            rejected_iteration(*old(self), *final(self), iter_ty.view_ty(), source_of(span)),
    {
        let err = TypeError::not_iterable(&iter_ty.to_string(), span);
        self.error(err);
        assert(self.error_list().drop_last() =~= old(self).error_list());
        Type::Error
    }

    /// Check `name` (at `name_span`) as an assignment target: assigning to an
    /// immutable binding is reported, and so is an undefined name when
    /// `report_undefined`. Gives the target's type when it is a mutable binding.
    fn check_target_name(&mut self, name: &str, name_span: Span, report_undefined: bool) -> (r: Option<Type>)
        requires
            old(self).wf(),
        ensures
            target_checked(*old(self), *final(self), name@, name_span, report_undefined),
            match lookup_in(old(self).scope_stack(), name@) {
                Some(sym) => if sym.mutable {
                    r matches Some(t) && t.view_ty() == sym.ty
                } else {
                    r is None
                },
                None => r is None,
            },
    {
        let found = match self.lookup(name) {
            Some(sym) => Some((sym.mutable, sym.span, clone_type(&sym.ty))),
            None => None,
        };
        match found {
            Some((mutable, def, ty)) => {
                if mutable {
                    Some(ty)
                } else {
                    let err = TypeError::ImmutableAssign {
                        name: owned(name),
                        def_span: to_source_span(def),
                        assign_span: to_source_span(name_span),
                    };
                    self.error(err);
                    assert(self.error_list().drop_last() =~= old(self).error_list());
                    None
                }
            },
            None => {
                if report_undefined {
                    let err = TypeError::undefined_var(name, name_span);
                    self.error(err);
                    assert(self.error_list().drop_last() =~= old(self).error_list());
                }
                None
            },
        }
    }

    /// Check assigning a value of type `value_ty` to the name `name` (at
    /// `name_span`), in an assignment at `span`: an immutable binding or an
    /// undefined name is reported; a mutable binding's type is unified with the
    /// value's.
    pub fn check_assign_name(&mut self, name: &str, name_span: Span, value_ty: &Type, span: Span)
        requires
            old(self).wf(),
        ensures
            name_assigned(*old(self), *final(self), name@, name_span, value_ty.view_ty(), source_of(span)),
    {
        if let Some(sym_ty) = self.check_target_name(name, name_span, true) {
            self.unify(&sym_ty, value_ty, span);
        }
    }

    /// Check the name `name` (at `name_span`) as one target of a tuple assignment:
    /// an immutable binding or an undefined name is reported.
    pub fn check_assign_target_name(&mut self, name: &str, name_span: Span)
        requires
            old(self).wf(),
        ensures
            target_checked(*old(self), *final(self), name@, name_span, true),
    {
        self.check_target_name(name, name_span, true);
    }

    /// Check an augmented assignment `target op= value` at `span`, given the types
    /// of both sides and, when the target is a plain name, that name and its span:
    /// assigning to an immutable binding is reported, then the operator's check
    /// runs on the two types.
    pub fn check_aug_assign_types(
        &mut self,
        target_name: Option<(&str, Span)>,
        op: AugOp,
        target_ty: &Type,
        value_ty: &Type,
        span: Span,
    )
        requires
            old(self).wf(),
        ensures
            aug_assigned(
                *old(self),
                *final(self),
                match target_name {
                    Some((n, at)) => Some((n@, at)),
                    None => None,
                },
                op,
                target_ty.view_ty(),
                value_ty.view_ty(),
                source_of(span),
            ),
    {
        if let Some((n, at)) = target_name {
            self.check_target_name(n, at, false);
        }
        let ghost mid = *self;
        let r = match op {
            AugOp::Add => self.check_add(target_ty, value_ty, span),
            AugOp::Sub | AugOp::Mul => self.check_numeric_op(target_ty, value_ty, &BinaryOp::Sub, span),
            AugOp::Div => self.check_div(target_ty, value_ty, span),
            AugOp::FloorDiv | AugOp::Mod => self.check_int_op(target_ty, value_ty, &BinaryOp::FloorDiv, span),
            AugOp::Pow => self.check_pow(target_ty, value_ty, span),
            _ => self.check_bitwise_op(target_ty, value_ty, &BinaryOp::BitAnd, span),
        };
        assert(op_checked(
            mid,
            *self,
            aug_binop(op),
            target_ty.view_ty(),
            value_ty.view_ty(),
            source_of(span),
            r.view_ty(),
        ));
        assert(picked(mid, r.view_ty()));
    }

    /// Check a `return` at `span` whose value has type `value_ty` (`None` for a bare
    /// `return`, which returns `None`): inside a function with a declared return
    /// type, that type is unified with the returned one.
    pub fn check_return_type(&mut self, value_ty: Option<&Type>, span: Span)
        requires
            old(self).wf(),
        ensures
            returned(
                *old(self),
                *final(self),
                match value_ty {
                    Some(t) => t.view_ty(),
                    None => Ty::NoneType,
                },
                source_of(span),
            ),
    {
        let returned = match value_ty {
            Some(t) => clone_type(t),
            None => Type::NoneType,
        };
        let expected = match self.expected_return_type() {
            Some(t) => Some(clone_type(t)),
            None => None,
        };
        if let Some(e) = expected {
            self.unify(&e, &returned, span);
        }
    }
}

/// The type a `let` binds, from `mid` to `new`: with an annotation and an
/// initializer, the annotation's type unified with the initializer's (at `span`);
/// with an annotation alone, the annotation's type; otherwise the initializer's.
pub open spec fn let_typed(
    mid: TypeContext,
    new: TypeContext,
    init: Ty,
    has_init: bool,
    annotation: Option<TypeExpr>,
    span: SourceSpan,
    bound: Ty,
) -> bool {
    match annotation {
        Some(te) => {
            let declared = denoted(te, mid.struct_table().dom(), mid.class_table().dom(), mid.agent_table().dom());
            if has_init {
                outcome(mid, new, unify_spec(mid.subst(), declared, init), bound, span)
            } else {
                new == mid && bound == declared
            }
        },
        None => new == mid && bound == init,
    }
}

/// The type of a `let` initializer: its type, or the fresh type variable `next`
/// when there is none.
pub open spec fn initial_type(init: Option<&Type>, next: u32) -> Ty {
    match init {
        Some(t) => t.view_ty(),
        None => Ty::TypeVar(next),
    }
}

/// The annotation, by value.
pub open spec fn annotation_of(a: Option<&TypeExpr>) -> Option<TypeExpr> {
    match a {
        Some(te) => Some(*te),
        None => None,
    }
}

impl TypeContext {
    /// Check a `let` at `span`, given the initializer's type (`None` when there is no
    /// initializer: the binding then takes a fresh type variable), the optional type
    /// annotation, the pattern, and whether the binding is declared mutable and
    /// whether it is a constant. The pattern is bound (mutable when declared so and
    /// not a constant) to the type `let_typed` gives.
    pub fn check_let_types(
        &mut self,
        init_ty: Option<&Type>,
        annotation: Option<&TypeExpr>,
        pattern: &Pattern,
        is_mutable: bool,
        is_const: bool,
        span: Span,
    )
        requires
            old(self).wf(),
            init_ty is None ==> old(self).next_var() < u32::MAX,
        ensures
            let_bound(
                *old(self),
                *final(self),
                match init_ty {
                    Some(t) => Some(t.view_ty()),
                    None => None,
                },
                annotation_of(annotation),
                *pattern,
                is_mutable && !is_const,
                source_of(span),
            ),
    {
        let init = match init_ty {
            Some(t) => clone_type(t),
            None => self.fresh_type_var(),
        };
        let ghost mid = *self;
        let declared = match annotation {
            Some(te) => {
                let ty = self.resolve_type_expr(te);
                if init_ty.is_some() {
                    self.unify(&ty, &init, span)
                } else {
                    ty
                }
            },
            None => init,
        };
        let ghost s2 = *self;
        assert(let_typed(
            mid,
            s2,
            initial_type(init_ty, old(self).next_var()),
            init_ty is Some,
            annotation_of(annotation),
            source_of(span),
            declared.view_ty(),
        ));
        self.bind_let_pattern(pattern, &declared, is_mutable && !is_const);
        assert(picked3(mid, s2, declared.view_ty()));
    }
}

} // verus!
