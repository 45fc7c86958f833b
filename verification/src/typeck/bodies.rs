//! What checking an item does around its body: the scope a function, task or
//! event handler body is checked in, with its parameters bound; the names an
//! import brings in; and the type a constant is bound to.

use vstd::prelude::*;
use crate::stdlib::text::owned;
use crate::typeck::annotations::TypeExpr;
use crate::typeck::context::{define_in, plain_scope, SymbolModel, TypeContext};
use crate::typeck::declarations::{missing, missing_count, slot, slot_type, slot_types};
use crate::typeck::error::{Span, source_of};
use crate::typeck::patterns::define_all;
use crate::typeck::statements::{annotation_of, let_typed};
use crate::typeck::types::{clone_type, lemma_views_of_index, views_of, Ty, Type};
use crate::typeck::unify::lemma_views_of_push;

verus! {

/// A parameter: its name, the span of its name, and its annotation, if any.
pub struct Param {
    pub name: String,
    pub span: Span,
    pub ty: Option<TypeExpr>,
}

/// A name in an import, with its span.
pub struct ImportName {
    pub name: String,
    pub span: Span,
}

/// An import.
pub enum Import {
    /// `import a.b.c [as x]`: the parts of the path, and the alias.
    Module { path: Vec<ImportName>, alias: Option<ImportName> },
    /// `from p import n1 [as a1], ...`: each imported name with its alias.
    From { items: Vec<(ImportName, Option<ImportName>)> },
}

/// The name an import binds: the alias when there is one, else the name itself.
pub open spec fn bound_name(name: ImportName, alias: Option<ImportName>) -> ImportName {
    match alias {
        Some(a) => a,
        None => name,
    }
}

/// The symbols an import defines, in order, each an immutable `Any`: a module
/// import binds its alias or else the last part of its path; a `from` import binds
/// each item's alias or else its name.
pub open spec fn import_symbols(i: Import) -> Seq<SymbolModel> {
    match i {
        Import::Module { path, alias } => {
            let n = match alias {
                Some(a) => a,
                None => path@.last(),
            };
            seq![SymbolModel { name: n.name@, ty: Ty::Any, mutable: false, span: n.span }]
        },
        Import::From { items } => Seq::new(
            items@.len(),
            |k: int|
                {
                    let n = bound_name(items@[k].0, items@[k].1);
                    SymbolModel { name: n.name@, ty: Ty::Any, mutable: false, span: n.span }
                },
        ),
    }
}

/// The annotations of parameters, in order.
pub open spec fn param_annotations(ps: Seq<Param>) -> Seq<Option<TypeExpr>> {
    ps.map_values(|p: Param| p.ty)
}

/// The (mutable) symbols that bind parameters to their types, in order.
pub open spec fn param_symbols(ps: Seq<Param>, tys: Seq<Ty>) -> Seq<SymbolModel> {
    Seq::new(ps.len(), |i: int| SymbolModel { name: ps[i].name@, ty: tys[i], mutable: true, span: ps[i].span })
}

/// `new` is `old` after entering a lambda's scope and binding its parameters.
pub open spec fn lambda_entered(old: TypeContext, new: TypeContext, params: Seq<Param>) -> bool {
    &&& new.wf()
    &&& new.next_var() == old.next_var() + missing_count(param_annotations(params))
    &&& new.scope_stack() == define_all(
        old.scope_stack().push(plain_scope(None, false, false)),
        param_symbols(params, slot_types(param_annotations(params), old.next_var() as int, old.type_names())),
    )
    &&& new.subst() == old.subst()
    &&& new.struct_table() == old.struct_table()
    &&& new.class_table() == old.class_table()
    &&& new.agent_table() == old.agent_table()
    &&& new.tool_table() == old.tool_table()
    &&& new.error_list() == old.error_list()
}

/// `new` is `old` after entering the scope a function (or task) body is checked
/// in: the parameters' types and the result type are their annotations', missing
/// ones taking fresh type variables (the parameters first, in order, then the
/// result); the scope expects that result type and is asynchronous when the
/// function is; each parameter is bound there as a mutable variable.
pub open spec fn body_entered(
    old: TypeContext,
    new: TypeContext,
    params: Seq<Param>,
    return_type: Option<TypeExpr>,
    is_async: bool,
) -> bool {
    let anns = param_annotations(params);
    let next = old.next_var() as int;
    &&& new.wf()
    &&& new.next_var() == old.next_var() + missing_count(anns) + missing(return_type)
    &&& new.scope_stack() == define_all(
        old.scope_stack().push(
            plain_scope(Some(slot(return_type, next + missing_count(anns), old.type_names())), false, is_async),
        ),
        param_symbols(params, slot_types(anns, next, old.type_names())),
    )
    &&& new.subst() == old.subst()
    &&& new.struct_table() == old.struct_table()
    &&& new.class_table() == old.class_table()
    &&& new.agent_table() == old.agent_table()
    &&& new.tool_table() == old.tool_table()
    &&& new.error_list() == old.error_list()
}

/// `new` is `old` after entering the scope an event handler body is checked in: an
/// asynchronous scope expecting `None`, with the parameters bound as mutable
/// variables to their annotations' types, missing ones taking fresh type variables
/// in order.
pub open spec fn handler_entered(old: TypeContext, new: TypeContext, params: Seq<Param>) -> bool {
    let anns = param_annotations(params);
    &&& new.wf()
    &&& new.next_var() == old.next_var() + missing_count(anns)
    &&& new.scope_stack() == define_all(
        old.scope_stack().push(plain_scope(Some(Ty::NoneType), false, true)),
        param_symbols(params, slot_types(anns, old.next_var() as int, old.type_names())),
    )
    &&& new.subst() == old.subst()
    &&& new.struct_table() == old.struct_table()
    &&& new.class_table() == old.class_table()
    &&& new.agent_table() == old.agent_table()
    &&& new.tool_table() == old.tool_table()
    &&& new.error_list() == old.error_list()
}

/// The types of parameters, missing annotations taking fresh type variables.
pub(crate) fn param_types(ctx: &mut TypeContext, params: &Vec<Param>) -> (r: Vec<Type>)
    requires
        old(ctx).wf(),
        old(ctx).next_var() + missing_count(param_annotations(params@)) <= u32::MAX,
    ensures
        final(ctx).counter_moved(old(ctx), missing_count(param_annotations(params@))),
        views_of(r@) == slot_types(param_annotations(params@), old(ctx).next_var() as int, old(ctx).type_names()),
{
    let ghost c0 = *ctx;
    let ghost n0 = ctx.next_var() as int;
    let ghost names = ctx.type_names();
    let ghost anns = param_annotations(params@);
    let mut out: Vec<Type> = Vec::new();
    let mut i: usize = 0;
    while i < params.len()
        invariant
            i <= params.len(),
            c0.wf(),
            n0 == c0.next_var(),
            names == c0.type_names(),
            anns == param_annotations(params@),
            anns.len() == params.len(),
            n0 + missing_count(anns) <= u32::MAX,
            ctx.counter_moved(&c0, missing_count(anns.take(i as int))),
            views_of(out@) == slot_types(anns.take(i as int), n0, names),
        decreases params.len() - i,
    {
        proof {
            assert(anns.take(i + 1).drop_last() =~= anns.take(i as int));
            assert(anns[i as int] == params@[i as int].ty);
            lemma_missing_prefix_of(anns, i + 1);
        }
        let t = slot_type(ctx, &params[i].ty);
        proof {
            lemma_views_of_push(out@, t);
        }
        out.push(t);
        i += 1;
    }
    assert(anns.take(params.len() as int) =~= anns);
    out
}

/// A prefix never misses more annotations than the whole row.
proof fn lemma_missing_prefix_of(s: Seq<Option<TypeExpr>>, i: int)
    requires
        0 <= i <= s.len(),
    ensures
        missing_count(s.take(i)) <= missing_count(s),
    decreases s.len(),
{
    if i < s.len() {
        lemma_missing_prefix_of(s.drop_last(), i);
        assert(s.drop_last().take(i) =~= s.take(i));
    } else {
        assert(s.take(i) =~= s);
    }
}

impl TypeContext {
    /// Bind the parameters to `tys` in the innermost scope, in order.
    pub(crate) fn define_params(&mut self, params: &Vec<Param>, tys: Vec<Type>)
        requires
            old(self).wf(),
            tys.len() == params.len(),
        ensures
            final(self).bound_as(old(self), param_symbols(params@, views_of(tys@))),
    {
        let ghost s1 = *self;
        let ghost syms = param_symbols(params@, views_of(tys@));
        proof {
            lemma_views_of_index(tys@);
        }
        let mut i: usize = 0;
        assert(syms.take(0) =~= Seq::<SymbolModel>::empty());
        while i < params.len()
            invariant
                i <= params.len(),
                tys.len() == params.len(),
                s1.wf(),
                syms == param_symbols(params@, views_of(tys@)),
                views_of(tys@).len() == tys.len(),
                forall|k: int| 0 <= k < tys.len() ==> #[trigger] views_of(tys@)[k] == tys@[k].view_ty(),
                self.bound_as(&s1, syms.take(i as int)),
            decreases params.len() - i,
        {
            let p = &params[i];
            self.define_let(p.name.clone(), clone_type(&tys[i]), p.span);
            proof {
                assert(syms.take(i + 1).drop_last() =~= syms.take(i as int));
                assert(syms.take(i + 1).last() == syms[i as int]);
            }
            i += 1;
        }
        assert(syms.take(params.len() as int) =~= syms);
    }

    /// Enter a function scope returning `ret` and bind the parameters to `tys`.
    fn enter_with_params(&mut self, params: &Vec<Param>, tys: Vec<Type>, ret: Type, is_async: bool)
        requires
            old(self).wf(),
            tys.len() == params.len(),
        ensures
            final(self).wf(),
            final(self).scope_stack() == define_all(
                old(self).scope_stack().push(plain_scope(Some(ret.view_ty()), false, is_async)),
                param_symbols(params@, views_of(tys@)),
            ),
            final(self).same_but_scopes(old(self)),
    {
        self.enter_function_scope(ret, is_async);
        self.define_params(params, tys);
    }

    /// Enter a plain scope (a lambda's) and bind the parameters there as mutable
    /// variables to their annotations' types, missing ones taking fresh type
    /// variables in order; gives those types.
    pub(crate) fn enter_lambda_params(&mut self, params: &Vec<Param>) -> (r: Vec<Type>)
        requires
            old(self).wf(),
            old(self).next_var() + missing_count(param_annotations(params@)) <= u32::MAX,
        ensures
            lambda_entered(*old(self), *final(self), params@),
            views_of(r@) == slot_types(param_annotations(params@), old(self).next_var() as int, old(self).type_names()),
    {
        self.enter_scope();
        let tys = param_types(self, params);
        let copy = crate::typeck::types::clone_types(&tys);
        proof {
            lemma_views_of_index(tys@);
            crate::typeck::declarations::lemma_slot_types_len(param_annotations(params@), old(self).next_var() as int, old(self).type_names());
        }
        self.define_params(params, tys);
        copy
    }

    /// Enter the scope a function (or task) body is checked in: the parameters'
    /// types and the result type are their annotations', missing ones taking fresh
    /// type variables (the parameters first, in order, then the result); the scope
    /// expects that result type and is asynchronous when the function is; each
    /// parameter is bound there as a mutable variable. (Each fresh variable must fit
    /// in the `u32` counter; the increment panics otherwise.)
    pub fn enter_function_body(&mut self, params: &Vec<Param>, return_type: &Option<TypeExpr>, is_async: bool)
        requires
            old(self).wf(),
            old(self).next_var() + missing_count(param_annotations(params@)) + missing(*return_type) <= u32::MAX,
        ensures
            body_entered(*old(self), *final(self), params@, *return_type, is_async),
    {
        let tys = param_types(self, params);
        let ret = slot_type(self, return_type);
        proof {
            lemma_views_of_index(tys@);
            crate::typeck::declarations::lemma_slot_types_len(param_annotations(params@), old(self).next_var() as int, old(self).type_names());
        }
        self.enter_with_params(params, tys, ret, is_async);
    }

    /// Enter the scope an event handler body is checked in: an asynchronous scope
    /// expecting `None`, with the parameters bound as mutable variables to their
    /// annotations' types, missing ones taking fresh type variables in order.
    pub fn enter_handler_body(&mut self, params: &Vec<Param>)
        requires
            old(self).wf(),
            old(self).next_var() + missing_count(param_annotations(params@)) <= u32::MAX,
        ensures
            handler_entered(*old(self), *final(self), params@),
    {
        let tys = param_types(self, params);
        proof {
            lemma_views_of_index(tys@);
            crate::typeck::declarations::lemma_slot_types_len(param_annotations(params@), old(self).next_var() as int, old(self).type_names());
        }
        self.enter_with_params(params, tys, Type::NoneType, true);
    }

    /// Check a constant `name` (at `name_span`) whose value, at `value_span`, has
    /// type `value_ty`: with an annotation, the annotation's type is unified with
    /// the value's and the result is the constant's type; otherwise the value's
    /// type is. The constant is then defined, immutably.
    pub fn check_const_types(
        &mut self,
        name: &str,
        name_span: Span,
        annotation: Option<&TypeExpr>,
        value_ty: &Type,
        value_span: Span,
    )
        requires
            old(self).wf(),
        ensures
            exists|mid: TypeContext, t: Ty|
                {
                    &&& mid.wf()
                    &&& #[trigger] let_typed(
                        *old(self),
                        mid,
                        value_ty.view_ty(),
                        true,
                        annotation_of(annotation),
                        source_of(value_span),
                        t,
                    )
                    &&& final(self).wf()
                    &&& final(self).scope_stack() == define_in(
                        mid.scope_stack(),
                        name@,
                        SymbolModel { name: name@, ty: t, mutable: false, span: name_span },
                    )
                    &&& final(self).same_but_scopes(&mid)
                },
    {
        let const_ty = match annotation {
            Some(te) => {
                let declared = self.resolve_type_expr(te);
                self.unify(&declared, value_ty, value_span)
            },
            None => clone_type(value_ty),
        };
        let ghost mid = *self;
        assert(let_typed(
            *old(self),
            mid,
            value_ty.view_ty(),
            true,
            annotation_of(annotation),
            source_of(value_span),
            const_ty.view_ty(),
        ));
        self.define_const(owned(name), const_ty, name_span);
    }


    /// Define an imported name as an immutable `Any`.
    fn define_import(&mut self, n: &ImportName)
        requires
            old(self).wf(),
        ensures
            final(self).wf(),
            final(self).scope_stack() == define_in(
                old(self).scope_stack(),
                n.name@,
                SymbolModel { name: n.name@, ty: Ty::Any, mutable: false, span: n.span },
            ),
            final(self).same_but_scopes(old(self)),
    {
        self.define_const(n.name.clone(), Type::Any, n.span);
    }

    /// Check an import: the names it brings in are defined as immutable `Any`.
    /// (A module import without an alias binds the last part of its path, so it
    /// needs a path with at least one part.)
    pub fn check_import(&mut self, import: &Import)
        requires
            old(self).wf(),
            (import matches Import::Module { path, alias } ==> alias is Some || path.len() > 0),
        ensures
            final(self).wf(),
            final(self).scope_stack() == define_all(old(self).scope_stack(), import_symbols(*import)),
            final(self).same_but_scopes(old(self)),
    {
        match import {
            Import::Module { path, alias } => {
                match alias {
                    Some(a) => self.define_import(a),
                    None => self.define_import(&path[path.len() - 1]),
                }
                proof {
                    let syms = import_symbols(*import);
                    assert(syms.drop_last() =~= Seq::<SymbolModel>::empty());
                    assert(define_all(old(self).scope_stack(), Seq::<SymbolModel>::empty()) == old(self).scope_stack());
                }
            },
            Import::From { items } => {
                let ghost syms = import_symbols(*import);
                let ghost s0 = *self;
                let mut i: usize = 0;
                assert(syms.take(0) =~= Seq::<SymbolModel>::empty());
                while i < items.len()
                    invariant
                        i <= items.len(),
                        s0.wf(),
                        syms.len() == items.len(),
                        forall|k: int| 0 <= k < items.len() ==> #[trigger] syms[k] == ({
                            let n = bound_name(items@[k].0, items@[k].1);
                            SymbolModel { name: n.name@, ty: Ty::Any, mutable: false, span: n.span }
                        }),
                        self.wf(),
                        self.scope_stack() == define_all(s0.scope_stack(), syms.take(i as int)),
                        self.same_but_scopes(&s0),
                    decreases items.len() - i,
                {
                    let item = &items[i];
                    match &item.1 {
                        Some(a) => self.define_import(a),
                        None => self.define_import(&item.0),
                    }
                    proof {
                        assert(syms.take(i + 1).drop_last() =~= syms.take(i as int));
                        assert(syms.take(i + 1).last() == syms[i as int]);
                    }
                    i += 1;
                }
                assert(syms.take(items.len() as int) =~= syms);
            },
        }
    }

}

} // verus!
