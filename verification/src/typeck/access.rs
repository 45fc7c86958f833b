//! Typing of names, calls (`f(args)`), member access (`obj.member`) and
//! subscripts (`obj[index]`), given the types of their operands.

use vstd::prelude::*;
use crate::stdlib::text::same_text;
use crate::typeck::context::{lookup_in, TypeContext};
use crate::typeck::statements::rejected_undefined;
use crate::typeck::error::{SourceSpan, Span, TypeError, source_of};
use crate::typeck::operators::{dict_method_type, list_method_type, str_method_type};
use crate::typeck::types::{
    clone_type, clone_types, display, field_views, lemma_views_of_index, views_of, named_views, opt_ty, ClassModel, FieldInfo, FieldModel,
    StructModel, Ty, Type,
};
use crate::typeck::unify::{outcome, unify_spec};

verus! {

/// The type paired with the first entry named `m`, if any.
pub open spec fn first_named(s: Seq<(Seq<char>, Ty)>, m: Seq<char>) -> Option<Ty>
    decreases s.len(),
{
    if s.len() == 0 {
        None
    } else if s[0].0 == m {
        Some(s[0].1)
    } else {
        first_named(s.drop_first(), m)
    }
}

/// The type of the first field named `m`, if any.
pub open spec fn first_field(s: Seq<FieldModel>, m: Seq<char>) -> Option<Ty>
    decreases s.len(),
{
    if s.len() == 0 {
        None
    } else if s[0].name == m {
        Some(s[0].ty)
    } else {
        first_field(s.drop_first(), m)
    }
}

/// Member `m` of the class or struct named `n`: a method of the class, else a field
/// of the class, else a field of the struct of that name.
pub open spec fn nominal_member(
    classes: Map<Seq<char>, ClassModel>,
    structs: Map<Seq<char>, StructModel>,
    n: Seq<char>,
    m: Seq<char>,
) -> Option<Ty> {
    let from_class = if classes.contains_key(n) {
        match first_named(classes[n].methods, m) {
            Some(t) => Some(t),
            None => first_field(classes[n].fields, m),
        }
    } else {
        None
    };
    match from_class {
        Some(t) => Some(t),
        None => if structs.contains_key(n) {
            first_field(structs[n].fields, m)
        } else {
            None
        },
    }
}

/// The type of member `m` of a value of type `obj`, or `None` when it has no such
/// member: classes and structs by their registered methods and fields; agents by
/// their tasks, anything else on an agent being `Any`; the methods of lists, dicts
/// and strings; `Any` on a loose type; `Error` on an error.
pub open spec fn member_type(ctx: TypeContext, obj: Ty, m: Seq<char>) -> Option<Ty> {
    match obj {
        Ty::Class(n) => nominal_member(ctx.class_table(), ctx.struct_table(), n, m),
        Ty::Struct(n) => nominal_member(ctx.class_table(), ctx.struct_table(), n, m),
        Ty::Agent(n) => Some(
            if ctx.agent_table().contains_key(n) {
                match first_named(ctx.agent_table()[n].tasks, m) {
                    Some(t) => t,
                    None => Ty::Any,
                }
            } else {
                Ty::Any
            },
        ),
        Ty::List(_) => Some(list_method_type(m, obj)),
        Ty::Dict(_, _) => Some(dict_method_type(m, obj)),
        Ty::Str => Some(str_method_type(m)),
        Ty::Any => Some(Ty::Any),
        Ty::Unknown => Some(Ty::Any),
        Ty::Error => Some(Ty::Error),
        _ => None,
    }
}

/// `new` is `old` with one more error, reporting that `obj` has no member `m`.
pub open spec fn rejected_member(old: TypeContext, new: TypeContext, obj: Ty, m: Seq<char>, span: SourceSpan) -> bool {
    &&& new.wf()
    &&& new.same_but_inference(&old)
    &&& new.subst() == old.subst()
    &&& new.error_list().len() == old.error_list().len() + 1
    &&& new.error_list().drop_last() == old.error_list()
    &&& new.error_list().last() matches TypeError::NoMember { ty, member, span: s }
    &&& ty@ == display(obj)
    &&& member@ == m
    &&& s == span
}

/// The contract of typing member `m` of a value of type `obj`: the member's type,
/// or an error and a report when there is no such member.
pub open spec fn member_checked(old: TypeContext, new: TypeContext, obj: Ty, m: Seq<char>, span: SourceSpan, r: Ty) -> bool {
    match member_type(old, obj, m) {
        Some(t) => r == t && new == old,
        None => r == Ty::Error && rejected_member(old, new, obj, m, span),
    }
}

/// The contract of typing a use of the name `name` (at `span`): its binding's
/// type, or an error and a report when it is undefined.
pub open spec fn ident_checked(old: TypeContext, new: TypeContext, name: Seq<char>, span: Span, r: Ty) -> bool {
    match lookup_in(old.scope_stack(), name) {
        Some(sym) => r == sym.ty && new == old,
        None => r == Ty::Error && rejected_undefined(old, new, name, span),
    }
}

/// An index type that lists and strings accept: `Int`, `Any` or `Unknown`.
pub open spec fn int_like(t: Ty) -> bool {
    t is Int || t is Any || t is Unknown
}

/// `new` is `old` with one more error, reporting that `obj` cannot be indexed with `idx`.
pub open spec fn rejected_index(old: TypeContext, new: TypeContext, obj: Ty, idx: Ty, span: SourceSpan) -> bool {
    &&& new.wf()
    &&& new.same_but_inference(&old)
    &&& new.subst() == old.subst()
    &&& new.error_list().len() == old.error_list().len() + 1
    &&& new.error_list().drop_last() == old.error_list()
    &&& new.error_list().last() matches TypeError::NotIndexable { ty, index_ty, span: s }
    &&& ty@ == display(obj)
    &&& index_ty@ == display(idx)
    &&& s == span
}

/// What indexing a value of type `obj` with an index of type `idx` gives and does:
/// a list gives its element and a string a string, each checking the index is
/// integer-like; a dict gives its value type after unifying its key type with the
/// index; a tuple gives `Never` when empty, its element when it has one, `Any`
/// otherwise; a loose type gives `Any`; an error stays an error; anything else
/// cannot be indexed.
pub open spec fn subscript_checked(old: TypeContext, new: TypeContext, obj: Ty, idx: Ty, span: SourceSpan, r: Ty) -> bool {
    match obj {
        Ty::List(e) => r == *e && if int_like(idx) {
            new == old
        } else {
            rejected_index(old, new, obj, idx, span)
        },
        Ty::Str => r == Ty::Str && if int_like(idx) {
            new == old
        } else {
            rejected_index(old, new, obj, idx, span)
        },
        Ty::Dict(k, v) => r == *v && outcome(
            old,
            new,
            unify_spec(old.subst(), *k, idx),
            unify_spec(old.subst(), *k, idx).ty,
            span,
        ),
        Ty::Tuple(es) => new == old && r == if es.len() == 0 {
            Ty::Never
        } else if es.len() == 1 {
            es[0]
        } else {
            Ty::Any
        },
        Ty::Any => new == old && r == Ty::Any,
        Ty::Unknown => new == old && r == Ty::Any,
        Ty::Error => new == old && r == Ty::Error,
        _ => r == Ty::Error && rejected_index(old, new, obj, idx, span),
    }
}

/// The type paired with the first entry named `m`.
fn find_named(list: &Vec<(String, Type)>, m: &str) -> (r: Option<Type>)
    ensures
        opt_ty(r) == first_named(named_views(list@), m@),
{
    let ghost v = named_views(list@);
    let mut i: usize = 0;
    assert(v.skip(0) =~= v);
    while i < list.len()
        invariant
            i <= list.len(),
            v == named_views(list@),
            v.len() == list.len(),
            first_named(v.skip(i as int), m@) == first_named(v, m@),
        decreases list.len() - i,
    {
        assert(v.skip(i as int)[0] == v[i as int]);
        if same_text(list[i].0.as_str(), m) {
            return Some(clone_type(&list[i].1));
        }
        assert(v.skip(i as int).drop_first() =~= v.skip(i + 1));
        i += 1;
    }
    None
}

/// The type of the first field named `m`.
fn find_field(fields: &Vec<FieldInfo>, m: &str) -> (r: Option<Type>)
    ensures
        opt_ty(r) == first_field(field_views(fields@), m@),
{
    let ghost v = field_views(fields@);
    let mut i: usize = 0;
    assert(v.skip(0) =~= v);
    while i < fields.len()
        invariant
            i <= fields.len(),
            v == field_views(fields@),
            v.len() == fields.len(),
            first_field(v.skip(i as int), m@) == first_field(v, m@),
        decreases fields.len() - i,
    {
        assert(v.skip(i as int)[0] == v[i as int]);
        if same_text(fields[i].name.as_str(), m) {
            return Some(clone_type(&fields[i].ty));
        }
        assert(v.skip(i as int).drop_first() =~= v.skip(i + 1));
        i += 1;
    }
    None
}

impl TypeContext {
    /// Member `m` of the class or struct named `n`.
    fn nominal_member_type(&self, n: &str, m: &str) -> (r: Option<Type>)
        ensures
            opt_ty(r) == nominal_member(self.class_table(), self.struct_table(), n@, m@),
    {
        if let Some(class_info) = self.lookup_class(n) {
            if let Some(t) = find_named(&class_info.methods, m) {
                return Some(t);
            }
            if let Some(t) = find_field(&class_info.fields, m) {
                return Some(t);
            }
        }
        if let Some(struct_info) = self.lookup_struct(n) {
            return find_field(&struct_info.fields, m);
        }
        None
    }

    /// Check member access on a value of type `obj_ty`: the member's type, or an
    /// error recorded when the type has no such member.
    pub fn check_attribute_type(&mut self, obj_ty: &Type, member: &str, span: Span) -> (r: Type)
        requires
            old(self).wf(),
        ensures
            member_checked(*old(self), *final(self), obj_ty.view_ty(), member@, source_of(span), r.view_ty()),
    {
        match obj_ty {
            Type::Class(n) | Type::Struct(n) => {
                if let Some(t) = self.nominal_member_type(n.as_str(), member) {
                    return t;
                }
                self.reject_member(obj_ty, member, span)
            },
            Type::Agent(n) => {
                if let Some(agent_info) = self.lookup_agent(n.as_str()) {
                    if let Some(t) = find_named(&agent_info.tasks, member) {
                        return t;
                    }
                }
                Type::Any
            },
            Type::List(_) => self.check_list_method(member, obj_ty),
            Type::Dict(_, _) => self.check_dict_method(member, obj_ty),
            Type::Str => self.check_str_method(member),
            Type::Any | Type::Unknown => Type::Any,
            Type::Error => Type::Error,
            _ => self.reject_member(obj_ty, member, span),
        }
    }

    /// Report that `obj_ty` has no member `member`.
    fn reject_member(&mut self, obj_ty: &Type, member: &str, span: Span) -> (r: Type)
        requires
            old(self).wf(),
        ensures
            r.view_ty() == Ty::Error,
            rejected_member(*old(self), *final(self), obj_ty.view_ty(), member@, source_of(span)),
    {
        let err = TypeError::no_member(&obj_ty.to_string(), member, span);
        self.error(err);
        assert(self.error_list().drop_last() =~= old(self).error_list());
        Type::Error
    }

    /// Report that `obj_ty` cannot be indexed with `index_ty`.
    fn reject_index(&mut self, obj_ty: &Type, index_ty: &Type, span: Span) -> (r: Type)
        requires
            old(self).wf(),
        ensures
            r.view_ty() == Ty::Error,
            rejected_index(*old(self), *final(self), obj_ty.view_ty(), index_ty.view_ty(), source_of(span)),
    {
        let err = TypeError::not_indexable(&obj_ty.to_string(), &index_ty.to_string(), span);
        self.error(err);
        assert(self.error_list().drop_last() =~= old(self).error_list());
        Type::Error
    }

    /// Check that an index is integer-like, reporting it otherwise.
    fn check_int_index(&mut self, obj_ty: &Type, index_ty: &Type, span: Span)
        requires
            old(self).wf(),
        ensures
            if int_like(index_ty.view_ty()) {
                *final(self) == *old(self)
            } else {
                rejected_index(*old(self), *final(self), obj_ty.view_ty(), index_ty.view_ty(), source_of(span))
            },
    {
        match index_ty {
            Type::Int | Type::Any | Type::Unknown => {},
            _ => {
                self.reject_index(obj_ty, index_ty, span);
            },
        }
    }

    /// Check indexing a value of type `obj_ty` with an index of type `index_ty`.
    pub fn check_subscript_type(&mut self, obj_ty: &Type, index_ty: &Type, span: Span) -> (r: Type)
        requires
            old(self).wf(),
        ensures
            subscript_checked(*old(self), *final(self), obj_ty.view_ty(), index_ty.view_ty(), source_of(span), r.view_ty()),
    {
        match obj_ty {
            Type::List(elem) => {
                self.check_int_index(obj_ty, index_ty, span);
                clone_type(elem)
            },
            Type::Dict(key, val) => {
                self.unify(key, index_ty, span);
                clone_type(val)
            },
            Type::Tuple(elems) => {
                proof {
                    lemma_views_of_index(elems@);
                }
                if elems.len() == 0 {
                    Type::Never
                } else if elems.len() == 1 {
                    clone_type(&elems[0])
                } else {
                    Type::Any
                }
            },
            Type::Str => {
                self.check_int_index(obj_ty, index_ty, span);
                Type::Str
            },
            Type::Any | Type::Unknown => Type::Any,
            Type::Error => Type::Error,
            _ => self.reject_index(obj_ty, index_ty, span),
        }
    }
}

/// The type a call of a value of type `t` gives, or `None` when it cannot be
/// called: a function gives its result; a class or struct name constructs an
/// instance of the class; an agent name gives the agent; a loose type gives `Any`;
/// an error stays an error.
pub open spec fn call_result(t: Ty) -> Option<Ty> {
    match t {
        Ty::Function { ret, .. } => Some(*ret),
        Ty::AsyncFunction { ret, .. } => Some(*ret),
        Ty::Class(n) => Some(Ty::Class(n)),
        Ty::Struct(n) => Some(Ty::Class(n)),
        Ty::Agent(n) => Some(Ty::Agent(n)),
        Ty::Any => Some(Ty::Any),
        Ty::Unknown => Some(Ty::Any),
        Ty::Error => Some(Ty::Error),
        _ => None,
    }
}

/// The parameter types a call's arguments are unified against, in order: a
/// function's parameters, and none for anything else.
pub open spec fn call_params(t: Ty) -> Seq<Ty> {
    match t {
        Ty::Function { params, .. } => params,
        Ty::AsyncFunction { params, .. } => params,
        _ => Seq::empty(),
    }
}

/// A call of a value of type `t` with `n` arguments has the wrong number of them: a
/// function whose parameter count differs, unless one of its parameters is `Any`.
pub open spec fn wrong_arity(t: Ty, n: nat) -> bool {
    match t {
        Ty::Function { params, .. } => n != params.len() && !(exists|i: int| 0 <= i < params.len() && params[i] is Any),
        Ty::AsyncFunction { params, .. } => n != params.len() && !(exists|i: int| 0 <= i < params.len() && params[i] is Any),
        _ => false,
    }
}

/// `new` is `old` with one more error, reporting that `t` cannot be called.
pub open spec fn rejected_call(old: TypeContext, new: TypeContext, t: Ty, span: SourceSpan) -> bool {
    &&& new.wf()
    &&& new.same_but_inference(&old)
    &&& new.subst() == old.subst()
    &&& new.error_list().len() == old.error_list().len() + 1
    &&& new.error_list().drop_last() == old.error_list()
    &&& new.error_list().last() matches TypeError::NotCallable { ty, span: s }
    &&& ty@ == display(t)
    &&& s == span
}

/// `new` is `old` with one more error, reporting `found` arguments where `expected`
/// were wanted.
pub open spec fn rejected_arity(old: TypeContext, new: TypeContext, expected: nat, found: nat, span: SourceSpan) -> bool {
    &&& new.wf()
    &&& new.same_but_inference(&old)
    &&& new.subst() == old.subst()
    &&& new.error_list().len() == old.error_list().len() + 1
    &&& new.error_list().drop_last() == old.error_list()
    &&& new.error_list().last() matches TypeError::WrongArgs { expected: e, found: f, span: s }
    &&& e == expected
    &&& f == found
    &&& s == span
}

/// The contract of checking a call of a value of type `t` with `n` arguments: the
/// call's result, with a report of a wrong number of arguments; or an error and a
/// report when the value cannot be called.
pub open spec fn callee_checked(old: TypeContext, new: TypeContext, t: Ty, n: nat, span: SourceSpan, r: Ty) -> bool {
    match call_result(t) {
        Some(u) => r == u && if wrong_arity(t, n) {
            rejected_arity(old, new, call_params(t).len(), n, span)
        } else {
            new == old
        },
        None => r == Ty::Error && rejected_call(old, new, t, span),
    }
}

/// Whether one of the types is `Any`.
fn has_any(params: &Vec<Type>) -> (r: bool)
    ensures
        r == exists|i: int| 0 <= i < views_of(params@).len() && views_of(params@)[i] is Any,
{
    proof {
        lemma_views_of_index(params@);
    }
    let mut i: usize = 0;
    while i < params.len()
        invariant
            i <= params.len(),
            views_of(params@).len() == params.len(),
            forall|k: int| 0 <= k < params.len() ==> #[trigger] views_of(params@)[k] == params@[k].view_ty(),
            forall|k: int| 0 <= k < i ==> !(views_of(params@)[k] is Any),
        decreases params.len() - i,
    {
        if let Type::Any = &params[i] {
            assert(views_of(params@)[i as int] is Any);
            return true;
        }
        i += 1;
    }
    false
}

impl TypeContext {
    /// Check a call of a value of type `callee_ty` with `arg_count` arguments, at
    /// `span`: the call's result type, and the parameter types its arguments are
    /// then unified against, in order, as far as both go. A function called with
    /// the wrong number of arguments is reported (unless a parameter is `Any`), and
    /// so is a value that cannot be called.
    pub fn check_callee_type(&mut self, callee_ty: &Type, arg_count: usize, span: Span) -> (r: (Type, Vec<Type>))
        requires
            old(self).wf(),
        ensures
            views_of(r.1@) == call_params(callee_ty.view_ty()),
            callee_checked(*old(self), *final(self), callee_ty.view_ty(), arg_count as nat, source_of(span), r.0.view_ty()),
    {
        match callee_ty {
            Type::Function { params, ret } | Type::AsyncFunction { params, ret } => {
                proof {
                    lemma_views_of_index(params@);
                }
                if arg_count != params.len() && !has_any(params) {
                    let err = TypeError::wrong_args(params.len(), arg_count, span);
                    self.error(err);
                    assert(self.error_list().drop_last() =~= old(self).error_list());
                }
                (clone_type(ret), clone_types(params))
            },
            Type::Class(n) | Type::Struct(n) => (Type::Class(n.clone()), Vec::new()),
            Type::Agent(n) => (Type::Agent(n.clone()), Vec::new()),
            Type::Any | Type::Unknown => (Type::Any, Vec::new()),
            Type::Error => (Type::Error, Vec::new()),
            _ => {
                let err = TypeError::not_callable(&callee_ty.to_string(), span);
                self.error(err);
                assert(self.error_list().drop_last() =~= old(self).error_list());
                (Type::Error, Vec::new())
            },
        }
    }

    /// The type of the name `name` (at `span`) where it is used: its binding's type,
    /// or an error recorded when it is not defined.
    pub fn check_ident_type(&mut self, name: &str, span: Span) -> (r: Type)
        requires
            old(self).wf(),
        ensures
            ident_checked(*old(self), *final(self), name@, span, r.view_ty()),
    {
        let found = match self.lookup(name) {
            Some(sym) => Some(clone_type(&sym.ty)),
            None => None,
        };
        match found {
            Some(t) => t,
            None => {
                let err = TypeError::undefined_var(name, span);
                self.error(err);
                assert(self.error_list().drop_last() =~= old(self).error_list());
                Type::Error
            },
        }
    }

}

} // verus!
