//! Type unification for Hindley-Milner style inference: resolving type variables
//! through the substitutions, the occurs check, compatibility and subtyping.

use vstd::prelude::*;
use crate::typeck::context::TypeContext;
use crate::typeck::error::{SourceSpan, Span, TypeError, source_of, to_source_span};
use crate::typeck::types::{
    Ty, Type, clone_type, clone_types, display, lemma_views_of_index, types_equal, views_of,
};

verus! {

/// Whether type variable `id` occurs in `t`, looking inside the type
/// constructors through which substitutions reach.
pub open spec fn occurs_in(id: u32, t: Ty) -> bool
    decreases t,
{
    match t {
        Ty::TypeVar(j) => j == id,
        Ty::List(e) => occurs_in(id, *e),
        Ty::SetOf(e) => occurs_in(id, *e),
        Ty::Optional(e) => occurs_in(id, *e),
        Ty::Iterator(e) => occurs_in(id, *e),
        Ty::Schema(e) => occurs_in(id, *e),
        Ty::Dict(k, v) => occurs_in(id, *k) || occurs_in(id, *v),
        Ty::Result(k, v) => occurs_in(id, *k) || occurs_in(id, *v),
        Ty::Tuple(es) => occurs_in_list(id, es),
        Ty::Union(es) => occurs_in_list(id, es),
        Ty::Function { params, ret } => occurs_in_list(id, params) || occurs_in(id, *ret),
        Ty::AsyncFunction { params, ret } => occurs_in_list(id, params) || occurs_in(id, *ret),
        _ => false,
    }
}

/// Whether type variable `id` occurs in one of the types of `s`.
pub open spec fn occurs_in_list(id: u32, s: Seq<Ty>) -> bool
    decreases s,
{
    if s.len() == 0 {
        false
    } else {
        occurs_in(id, s[0]) || occurs_in_list(id, s.drop_first())
    }
}

/// No type variable bound by `sub` occurs in `t`: `t` is fully resolved.
pub open spec fn no_bound(sub: Map<u32, Ty>, t: Ty) -> bool {
    forall|j: u32| #[trigger] occurs_in(j, t) ==> !sub.contains_key(j)
}

/// `rank` strictly decreases from each bound variable to the bound variables of
/// the type it is bound to.
pub open spec fn ranked(sub: Map<u32, Ty>, rank: spec_fn(u32) -> nat) -> bool {
    forall|i: u32, j: u32|
        sub.contains_key(i) && sub.contains_key(j) && #[trigger] occurs_in(j, sub[i]) ==> rank(j)
            < rank(i)
}

/// The substitutions have no cycle: some ranking of the bound variables decreases
/// along every binding.
pub open spec fn acyclic(sub: Map<u32, Ty>) -> bool {
    exists|rank: spec_fn(u32) -> nat| ranked(sub, rank)
}

/// Binding a variable that does not occur in a resolved type (one in which no
/// bound variable remains) keeps the substitutions free of cycles.
pub proof fn lemma_bind_keeps_acyclic(sub: Map<u32, Ty>, id: u32, t: Ty)
    requires
        acyclic(sub),
        no_bound(sub, t),
        !occurs_in(id, t),
    ensures
        acyclic(sub.insert(id, t)),
{
    let new_sub = sub.insert(id, t);
    let r0 = choose|r: spec_fn(u32) -> nat| ranked(sub, r);
    let r1 = |x: u32| if x == id { 0nat } else { r0(x) + 1 };
    assert forall|i: u32, j: u32|
        new_sub.contains_key(i) && new_sub.contains_key(j) && #[trigger] occurs_in(j, new_sub[i])
        implies r1(j) < r1(i) by {
        if i == id {
            assert(new_sub[i] == t);
        } else {
            assert(new_sub[i] == sub[i]);
            if j != id {
                assert(sub.contains_key(j));
            }
        }
    }
    assert(ranked(new_sub, r1));
}

/// A ranking witnessing that `sub` has no cycle.
pub open spec fn the_rank(sub: Map<u32, Ty>) -> spec_fn(u32) -> nat {
    choose|rank: spec_fn(u32) -> nat| ranked(sub, rank)
}

/// The larger of two naturals.
pub open spec fn nat_max(a: nat, b: nat) -> nat {
    if a >= b {
        a
    } else {
        b
    }
}

/// One more than the highest rank of a bound variable occurring in `t` (0 if none).
pub open spec fn height(sub: Map<u32, Ty>, rank: spec_fn(u32) -> nat, t: Ty) -> nat
    decreases t,
{
    match t {
        Ty::TypeVar(j) => if sub.contains_key(j) {
            rank(j) + 1
        } else {
            0
        },
        Ty::List(e) => height(sub, rank, *e),
        Ty::SetOf(e) => height(sub, rank, *e),
        Ty::Optional(e) => height(sub, rank, *e),
        Ty::Iterator(e) => height(sub, rank, *e),
        Ty::Schema(e) => height(sub, rank, *e),
        Ty::Dict(k, v) => nat_max(height(sub, rank, *k), height(sub, rank, *v)),
        Ty::Result(k, v) => nat_max(height(sub, rank, *k), height(sub, rank, *v)),
        Ty::Tuple(es) => height_list(sub, rank, es),
        Ty::Union(es) => height_list(sub, rank, es),
        Ty::Function { params, ret } => nat_max(height_list(sub, rank, params), height(sub, rank, *ret)),
        Ty::AsyncFunction { params, ret } => nat_max(
            height_list(sub, rank, params),
            height(sub, rank, *ret),
        ),
        _ => 0,
    }
}

/// The highest height of the types of `s` (0 if empty).
pub open spec fn height_list(sub: Map<u32, Ty>, rank: spec_fn(u32) -> nat, s: Seq<Ty>) -> nat
    decreases s,
{
    if s.len() == 0 {
        0
    } else {
        nat_max(height(sub, rank, s[0]), height_list(sub, rank, s.drop_first()))
    }
}

/// A type whose bound variables all rank below `b` has height at most `b`.
pub proof fn lemma_height_bound(sub: Map<u32, Ty>, rank: spec_fn(u32) -> nat, t: Ty, b: nat)
    requires
        forall|j: u32| #[trigger] occurs_in(j, t) && sub.contains_key(j) ==> rank(j) < b,
    ensures
        height(sub, rank, t) <= b,
    decreases t,
{
    match t {
        Ty::TypeVar(j) => {
            assert(occurs_in(j, t));
        },
        Ty::List(e) | Ty::SetOf(e) | Ty::Optional(e) | Ty::Iterator(e) | Ty::Schema(e) => {
            assert forall|j: u32| #[trigger] occurs_in(j, *e) && sub.contains_key(j) implies rank(j)
                < b by {
                assert(occurs_in(j, t));
            }
            lemma_height_bound(sub, rank, *e, b);
        },
        Ty::Dict(k, v) | Ty::Result(k, v) => {
            assert forall|j: u32| #[trigger] occurs_in(j, *k) && sub.contains_key(j) implies rank(j)
                < b by {
                assert(occurs_in(j, t));
            }
            assert forall|j: u32| #[trigger] occurs_in(j, *v) && sub.contains_key(j) implies rank(j)
                < b by {
                assert(occurs_in(j, t));
            }
            lemma_height_bound(sub, rank, *k, b);
            lemma_height_bound(sub, rank, *v, b);
        },
        Ty::Tuple(es) | Ty::Union(es) => {
            assert forall|j: u32| #[trigger] occurs_in_list(j, es) && sub.contains_key(j) implies rank(
                j,
            ) < b by {
                assert(occurs_in(j, t));
            }
            lemma_height_list_bound(sub, rank, es, b);
        },
        Ty::Function { params, ret } | Ty::AsyncFunction { params, ret } => {
            assert forall|j: u32| #[trigger] occurs_in_list(j, params) && sub.contains_key(j) implies rank(
                j,
            ) < b by {
                assert(occurs_in(j, t));
            }
            assert forall|j: u32| #[trigger] occurs_in(j, *ret) && sub.contains_key(j) implies rank(j)
                < b by {
                assert(occurs_in(j, t));
            }
            lemma_height_list_bound(sub, rank, params, b);
            lemma_height_bound(sub, rank, *ret, b);
        },
        _ => {},
    }
}

/// The list form of `lemma_height_bound`.
pub proof fn lemma_height_list_bound(
    sub: Map<u32, Ty>,
    rank: spec_fn(u32) -> nat,
    s: Seq<Ty>,
    b: nat,
)
    requires
        forall|j: u32| #[trigger] occurs_in_list(j, s) && sub.contains_key(j) ==> rank(j) < b,
    ensures
        height_list(sub, rank, s) <= b,
    decreases s,
{
    if s.len() > 0 {
        assert forall|j: u32| #[trigger] occurs_in(j, s[0]) && sub.contains_key(j) implies rank(j)
            < b by {
            assert(occurs_in_list(j, s));
        }
        lemma_height_bound(sub, rank, s[0], b);
        assert forall|j: u32| #[trigger] occurs_in_list(j, s.drop_first()) && sub.contains_key(
            j,
        ) implies rank(j) < b by {
            assert(occurs_in_list(j, s));
        }
        lemma_height_list_bound(sub, rank, s.drop_first(), b);
    }
}

/// Each type of a list is no higher than the list.
pub proof fn lemma_height_list_elem(sub: Map<u32, Ty>, rank: spec_fn(u32) -> nat, s: Seq<Ty>, i: int)
    requires
        0 <= i < s.len(),
    ensures
        height(sub, rank, s[i]) <= height_list(sub, rank, s),
    decreases s.len(),
{
    if i > 0 {
        lemma_height_list_elem(sub, rank, s.drop_first(), i - 1);
        assert(s.drop_first()[i - 1] == s[i]);
    }
}

/// The variable a binding leads from ranks above every bound variable of its type.
pub proof fn lemma_binding_lower(sub: Map<u32, Ty>, id: u32)
    requires
        acyclic(sub),
        sub.contains_key(id),
    ensures
        height(sub, the_rank(sub), sub[id]) < height(sub, the_rank(sub), Ty::TypeVar(id)),
{
    let rank = the_rank(sub);
    assert(ranked(sub, rank));
    assert forall|j: u32| #[trigger] occurs_in(j, sub[id]) && sub.contains_key(j) implies rank(j)
        < rank(id) by {}
    lemma_height_bound(sub, rank, sub[id], rank(id));
}

/// A type with every bound type variable replaced, recursively, by what it is bound to.
pub open spec fn resolve_ty(sub: Map<u32, Ty>, t: Ty) -> Ty
    decreases height(sub, the_rank(sub), t), t,
    when acyclic(sub)
{
    match t {
        Ty::TypeVar(id) => if sub.contains_key(id) {
            proof {
                lemma_binding_lower(sub, id);
            }
            resolve_ty(sub, sub[id])
        } else {
            t
        },
        Ty::List(e) => Ty::List(Box::new(resolve_ty(sub, *e))),
        Ty::SetOf(e) => Ty::SetOf(Box::new(resolve_ty(sub, *e))),
        Ty::Dict(k, v) => Ty::Dict(Box::new(resolve_ty(sub, *k)), Box::new(resolve_ty(sub, *v))),
        Ty::Tuple(es) => Ty::Tuple(resolve_list(sub, es)),
        Ty::Optional(e) => Ty::Optional(Box::new(resolve_ty(sub, *e))),
        Ty::Union(es) => Ty::Union(resolve_list(sub, es)),
        Ty::Function { params, ret } => Ty::Function {
            params: resolve_list(sub, params),
            ret: Box::new(resolve_ty(sub, *ret)),
        },
        Ty::AsyncFunction { params, ret } => Ty::AsyncFunction {
            params: resolve_list(sub, params),
            ret: Box::new(resolve_ty(sub, *ret)),
        },
        Ty::Iterator(e) => Ty::Iterator(Box::new(resolve_ty(sub, *e))),
        Ty::Result(a, b) => Ty::Result(Box::new(resolve_ty(sub, *a)), Box::new(resolve_ty(sub, *b))),
        Ty::Schema(e) => Ty::Schema(Box::new(resolve_ty(sub, *e))),
        _ => t,
    }
}

/// Each type of a list, resolved.
pub open spec fn resolve_list(sub: Map<u32, Ty>, s: Seq<Ty>) -> Seq<Ty>
    decreases height_list(sub, the_rank(sub), s), s,
    when acyclic(sub)
{
    if s.len() == 0 {
        Seq::empty()
    } else {
        seq![resolve_ty(sub, s[0])] + resolve_list(sub, s.drop_first())
    }
}

/// Resolving a list resolves each of its types.
pub proof fn lemma_resolve_list_index(sub: Map<u32, Ty>, s: Seq<Ty>)
    requires
        acyclic(sub),
    ensures
        resolve_list(sub, s).len() == s.len(),
        forall|i: int| 0 <= i < s.len() ==> #[trigger] resolve_list(sub, s)[i] == resolve_ty(sub, s[i]),
    decreases s.len(),
{
    if s.len() > 0 {
        lemma_resolve_list_index(sub, s.drop_first());
        assert forall|i: int| 0 <= i < s.len() implies #[trigger] resolve_list(sub, s)[i] == resolve_ty(
            sub,
            s[i],
        ) by {
            if i > 0 {
                assert(s.drop_first()[i - 1] == s[i]);
            }
        }
    }
}

/// No bound variable is left in a resolved type.
pub proof fn lemma_resolve_no_bound(sub: Map<u32, Ty>, t: Ty)
    requires
        acyclic(sub),
    ensures
        no_bound(sub, resolve_ty(sub, t)),
    decreases height(sub, the_rank(sub), t), t,
{
    match t {
        Ty::TypeVar(id) => {
            if sub.contains_key(id) {
                lemma_binding_lower(sub, id);
                lemma_resolve_no_bound(sub, sub[id]);
                assert(resolve_ty(sub, t) == resolve_ty(sub, sub[id]));
                assert(no_bound(sub, resolve_ty(sub, t)));
            } else {
                assert(resolve_ty(sub, t) == t);
                assert forall|j: u32| #[trigger] occurs_in(j, t) implies !sub.contains_key(j) by {}
                assert(no_bound(sub, t));
            }
        },
        Ty::List(e) | Ty::SetOf(e) | Ty::Optional(e) | Ty::Iterator(e) | Ty::Schema(e) => {
            lemma_resolve_no_bound(sub, *e);
            assert forall|j: u32| #[trigger] occurs_in(j, resolve_ty(sub, t)) implies !sub.contains_key(
                j,
            ) by {
                assert(occurs_in(j, resolve_ty(sub, *e)));
            }
        },
        Ty::Dict(k, v) | Ty::Result(k, v) => {
            lemma_resolve_no_bound(sub, *k);
            lemma_resolve_no_bound(sub, *v);
            assert forall|j: u32| #[trigger] occurs_in(j, resolve_ty(sub, t)) implies !sub.contains_key(
                j,
            ) by {
                if occurs_in(j, resolve_ty(sub, *k)) {
                } else {
                    assert(occurs_in(j, resolve_ty(sub, *v)));
                }
            }
        },
        Ty::Tuple(es) | Ty::Union(es) => {
            lemma_resolve_list_no_bound(sub, es);
            assert forall|j: u32| #[trigger] occurs_in(j, resolve_ty(sub, t)) implies !sub.contains_key(
                j,
            ) by {
                assert(occurs_in_list(j, resolve_list(sub, es)));
            }
        },
        Ty::Function { params, ret } | Ty::AsyncFunction { params, ret } => {
            lemma_resolve_list_no_bound(sub, params);
            lemma_resolve_no_bound(sub, *ret);
            assert forall|j: u32| #[trigger] occurs_in(j, resolve_ty(sub, t)) implies !sub.contains_key(
                j,
            ) by {
                if occurs_in_list(j, resolve_list(sub, params)) {
                } else {
                    assert(occurs_in(j, resolve_ty(sub, *ret)));
                }
            }
        },
        _ => {
            assert(no_bound(sub, resolve_ty(sub, t)));
        },
    }
}

/// No bound variable is left in a resolved list.
pub proof fn lemma_resolve_list_no_bound(sub: Map<u32, Ty>, s: Seq<Ty>)
    requires
        acyclic(sub),
    ensures
        forall|j: u32| #[trigger] occurs_in_list(j, resolve_list(sub, s)) ==> !sub.contains_key(j),
    decreases height_list(sub, the_rank(sub), s), s,
{
    if s.len() > 0 {
        lemma_resolve_no_bound(sub, s[0]);
        lemma_resolve_list_no_bound(sub, s.drop_first());
        let r = resolve_list(sub, s);
        assert(r.drop_first() =~= resolve_list(sub, s.drop_first()));
        assert(r[0] == resolve_ty(sub, s[0]));
        assert forall|j: u32| #[trigger] occurs_in_list(j, r) implies !sub.contains_key(j) by {
            if occurs_in(j, r[0]) {
            } else {
                assert(occurs_in_list(j, r.drop_first()));
            }
        }
    }
}

/// Resolving a type with no bound variable leaves it as it is.
pub proof fn lemma_resolve_fixed(sub: Map<u32, Ty>, t: Ty)
    requires
        acyclic(sub),
        no_bound(sub, t),
    ensures
        resolve_ty(sub, t) == t,
    decreases t,
{
    match t {
        Ty::TypeVar(id) => {
            assert(occurs_in(id, t));
        },
        Ty::List(e) | Ty::SetOf(e) | Ty::Optional(e) | Ty::Iterator(e) | Ty::Schema(e) => {
            assert forall|j: u32| #[trigger] occurs_in(j, *e) implies !sub.contains_key(j) by {
                assert(occurs_in(j, t));
            }
            lemma_resolve_fixed(sub, *e);
        },
        Ty::Dict(k, v) | Ty::Result(k, v) => {
            assert forall|j: u32| #[trigger] occurs_in(j, *k) implies !sub.contains_key(j) by {
                assert(occurs_in(j, t));
            }
            assert forall|j: u32| #[trigger] occurs_in(j, *v) implies !sub.contains_key(j) by {
                assert(occurs_in(j, t));
            }
            lemma_resolve_fixed(sub, *k);
            lemma_resolve_fixed(sub, *v);
        },
        Ty::Tuple(es) | Ty::Union(es) => {
            assert forall|j: u32| #[trigger] occurs_in_list(j, es) implies !sub.contains_key(j) by {
                assert(occurs_in(j, t));
            }
            lemma_resolve_list_fixed(sub, es);
        },
        Ty::Function { params, ret } | Ty::AsyncFunction { params, ret } => {
            assert forall|j: u32| #[trigger] occurs_in_list(j, params) implies !sub.contains_key(j) by {
                assert(occurs_in(j, t));
            }
            assert forall|j: u32| #[trigger] occurs_in(j, *ret) implies !sub.contains_key(j) by {
                assert(occurs_in(j, t));
            }
            lemma_resolve_list_fixed(sub, params);
            lemma_resolve_fixed(sub, *ret);
        },
        _ => {},
    }
}

/// The list form of `lemma_resolve_fixed`.
pub proof fn lemma_resolve_list_fixed(sub: Map<u32, Ty>, s: Seq<Ty>)
    requires
        acyclic(sub),
        forall|j: u32| #[trigger] occurs_in_list(j, s) ==> !sub.contains_key(j),
    ensures
        resolve_list(sub, s) == s,
    decreases s,
{
    if s.len() > 0 {
        assert forall|j: u32| #[trigger] occurs_in(j, s[0]) implies !sub.contains_key(j) by {
            assert(occurs_in_list(j, s));
        }
        assert forall|j: u32| #[trigger] occurs_in_list(j, s.drop_first()) implies !sub.contains_key(
            j,
        ) by {
            assert(occurs_in_list(j, s));
        }
        lemma_resolve_fixed(sub, s[0]);
        lemma_resolve_list_fixed(sub, s.drop_first());
        assert(resolve_list(sub, s) =~= s);
    }
}

/// Resolving is idempotent: a resolved type resolves to itself.
pub proof fn lemma_resolve_idempotent(sub: Map<u32, Ty>, t: Ty)
    requires
        acyclic(sub),
    ensures
        resolve_ty(sub, resolve_ty(sub, t)) == resolve_ty(sub, t),
{
    lemma_resolve_no_bound(sub, t);
    lemma_resolve_fixed(sub, resolve_ty(sub, t));
}

impl TypeContext {
    /// Resolve a type by following type variable substitutions.
    pub fn resolve(&self, ty: &Type) -> (r: Type)
        requires
            self.wf(),
        ensures
            r.view_ty() == resolve_ty(self.subst(), ty.view_ty()),
        decreases height(self.subst(), the_rank(self.subst()), ty.view_ty()), ty,
    {
        let ghost sub = self.subst();
        match ty {
            Type::TypeVar(id) => {
                match self.get_substitution(*id) {
                    Some(subst) => {
                        proof {
                            lemma_binding_lower(sub, *id);
                        }
                        self.resolve(subst)
                    },
                    None => Type::TypeVar(*id),
                }
            },
            Type::List(elem) => Type::List(Box::new(self.resolve(elem))),
            Type::SetOf(elem) => Type::SetOf(Box::new(self.resolve(elem))),
            Type::Dict(k, v) => Type::Dict(Box::new(self.resolve(k)), Box::new(self.resolve(v))),
            Type::Tuple(elems) => Type::Tuple(self.resolve_types(elems)),
            Type::Optional(inner) => Type::Optional(Box::new(self.resolve(inner))),
            Type::Union(types) => Type::Union(self.resolve_types(types)),
            Type::Function { params, ret } => Type::Function {
                params: self.resolve_types(params),
                ret: Box::new(self.resolve(ret)),
            },
            Type::AsyncFunction { params, ret } => Type::AsyncFunction {
                params: self.resolve_types(params),
                ret: Box::new(self.resolve(ret)),
            },
            Type::Iterator(elem) => Type::Iterator(Box::new(self.resolve(elem))),
            Type::Result(ok, err) => Type::Result(
                Box::new(self.resolve(ok)),
                Box::new(self.resolve(err)),
            ),
            Type::Schema(inner) => Type::Schema(Box::new(self.resolve(inner))),
            _ => clone_type(ty),
        }
    }

    /// Resolve each type of a list.
    fn resolve_types(&self, v: &Vec<Type>) -> (r: Vec<Type>)
        requires
            self.wf(),
        ensures
            views_of(r@) == resolve_list(self.subst(), views_of(v@)),
        decreases height_list(self.subst(), the_rank(self.subst()), views_of(v@)), v@,
    {
        let ghost sub = self.subst();
        let ghost vs = views_of(v@);
        proof {
            lemma_views_of_index(v@);
            lemma_resolve_list_index(sub, vs);
        }
        let mut out: Vec<Type> = Vec::new();
        let mut i: usize = 0;
        while i < v.len()
            invariant
                self.wf(),
                sub == self.subst(),
                vs == views_of(v@),
                i <= v.len(),
                vs.len() == v.len(),
                resolve_list(sub, vs).len() == v.len(),
                forall|k: int| 0 <= k < v.len() ==> #[trigger] vs[k] == v@[k].view_ty(),
                forall|k: int| 0 <= k < v.len() ==> #[trigger] resolve_list(sub, vs)[k]
                    == resolve_ty(sub, vs[k]),
                out.len() == i,
                forall|k: int| 0 <= k < i ==> #[trigger] out@[k].view_ty() == resolve_list(sub, vs)[k],
            decreases v.len() - i,
        {
            proof {
                lemma_height_list_elem(sub, the_rank(sub), vs, i as int);
            }
            assert(decreases_to!(v@ => v@[i as int]));
            let t = self.resolve(&v[i]);
            out.push(t);
            i += 1;
        }
        proof {
            lemma_views_of_index(out@);
            assert(views_of(out@) =~= resolve_list(sub, vs));
        }
        out
    }
}

/// The number of type constructors in a type.
pub open spec fn ty_size(t: Ty) -> nat
    decreases t,
{
    match t {
        Ty::List(e) => 1 + ty_size(*e),
        Ty::SetOf(e) => 1 + ty_size(*e),
        Ty::Optional(e) => 1 + ty_size(*e),
        Ty::Iterator(e) => 1 + ty_size(*e),
        Ty::Schema(e) => 1 + ty_size(*e),
        Ty::Dict(k, v) => 1 + ty_size(*k) + ty_size(*v),
        Ty::Result(k, v) => 1 + ty_size(*k) + ty_size(*v),
        Ty::Tuple(es) => 1 + list_size(es),
        Ty::Union(es) => 1 + list_size(es),
        Ty::Function { params, ret } => 1 + list_size(params) + ty_size(*ret),
        Ty::AsyncFunction { params, ret } => 1 + list_size(params) + ty_size(*ret),
        _ => 1,
    }
}

/// The number of type constructors in a list of types, counting one for each entry.
pub open spec fn list_size(s: Seq<Ty>) -> nat
    decreases s,
{
    if s.len() == 0 {
        0
    } else {
        1 + ty_size(s[0]) + list_size(s.drop_first())
    }
}

/// Each type of a list is smaller than the list.
pub proof fn lemma_list_size_elem(s: Seq<Ty>, i: int)
    requires
        0 <= i < s.len(),
    ensures
        ty_size(s[i]) < list_size(s),
    decreases s.len(),
{
    if i > 0 {
        lemma_list_size_elem(s.drop_first(), i - 1);
        assert(s.drop_first()[i - 1] == s[i]);
    }
}

/// A variable occurring in a type of a list occurs in the list.
pub proof fn lemma_occurs_list_elem(id: u32, s: Seq<Ty>, i: int)
    requires
        0 <= i < s.len(),
        occurs_in(id, s[i]),
    ensures
        occurs_in_list(id, s),
    decreases s.len(),
{
    if i > 0 {
        assert(s.drop_first()[i - 1] == s[i]);
        lemma_occurs_list_elem(id, s.drop_first(), i - 1);
    }
}

/// The types of a resolved list are resolved.
pub proof fn lemma_no_bound_elem(sub: Map<u32, Ty>, s: Seq<Ty>, i: int)
    requires
        0 <= i < s.len(),
        forall|j: u32| #[trigger] occurs_in_list(j, s) ==> !sub.contains_key(j),
    ensures
        no_bound(sub, s[i]),
{
    assert forall|j: u32| #[trigger] occurs_in(j, s[i]) implies !sub.contains_key(j) by {
        lemma_occurs_list_elem(j, s, i);
    }
}

/// Whether two resolved types are compatible, without binding anything: equal types,
/// `Any`, `Unknown`, errors and type variables are compatible with everything; an
/// optional type with `None` and with whatever its inner type is compatible with;
/// `Int` with `Float`; lists, sets, dicts and same-length tuples component by
/// component; and a union with whatever one of its members is compatible with.
pub open spec fn compatible(a: Ty, b: Ty) -> bool
    decreases ty_size(a) + ty_size(b),
{
    if a == b {
        true
    } else if a is Any || b is Any || a is Unknown || b is Unknown || a is Error || b is Error
        || a is TypeVar || b is TypeVar {
        true
    } else if let Ty::Optional(inner) = a {
        b is NoneType || compatible(*inner, b)
    } else if let Ty::Optional(inner) = b {
        a is NoneType || compatible(*inner, a)
    } else {
        match (a, b) {
            (Ty::Int, Ty::Float) => true,
            (Ty::Float, Ty::Int) => true,
            (Ty::List(x), Ty::List(y)) => compatible(*x, *y),
            (Ty::SetOf(x), Ty::SetOf(y)) => compatible(*x, *y),
            (Ty::Dict(k1, v1), Ty::Dict(k2, v2)) => compatible(*k1, *k2) && compatible(*v1, *v2),
            (Ty::Tuple(x), Ty::Tuple(y)) if x.len() == y.len() => compatible_all(x, y),
            _ => if let Ty::Union(ts) = a {
                compatible_any(ts, b)
            } else if let Ty::Union(ts) = b {
                compatible_any(ts, a)
            } else {
                false
            },
        }
    }
}

/// Whether the types of two lists are compatible position by position.
pub open spec fn compatible_all(x: Seq<Ty>, y: Seq<Ty>) -> bool
    decreases list_size(x) + list_size(y),
{
    if x.len() == 0 || y.len() == 0 {
        true
    } else {
        compatible(x[0], y[0]) && compatible_all(x.drop_first(), y.drop_first())
    }
}

/// Whether some type of a list is compatible with `other`.
pub open spec fn compatible_any(ts: Seq<Ty>, other: Ty) -> bool
    decreases list_size(ts) + ty_size(other),
{
    if ts.len() == 0 {
        false
    } else {
        compatible(ts[0], other) || compatible_any(ts.drop_first(), other)
    }
}

/// Whether resolved type `a` may be used where `b` is expected: equal types; anything
/// as `Any` or `Unknown`; `Never` as anything; `None` as an optional type, and a type
/// as an optional type of a supertype; `Int` as `Float`; lists covariantly; a type as
/// a union one of whose members it may be used as; and a union whose members may all
/// be used as `b`.
pub open spec fn subtype(a: Ty, b: Ty) -> bool
    decreases ty_size(a) + ty_size(b),
{
    if a == b || b is Any || b is Unknown || a is Never {
        true
    } else if let Ty::Optional(inner) = b {
        a is NoneType || subtype(a, *inner)
    } else if a is Int && b is Float {
        true
    } else if a is List && b is List {
        match (a, b) {
            (Ty::List(x), Ty::List(y)) => subtype(*x, *y),
            _ => false,
        }
    } else if let Ty::Union(ts) = b {
        subtype_any(a, ts)
    } else if let Ty::Union(ts) = a {
        subtype_all(ts, b)
    } else {
        false
    }
}

/// Whether `a` may be used as some type of the list.
pub open spec fn subtype_any(a: Ty, ts: Seq<Ty>) -> bool
    decreases ty_size(a) + list_size(ts),
{
    if ts.len() == 0 {
        false
    } else {
        subtype(a, ts[0]) || subtype_any(a, ts.drop_first())
    }
}

/// Whether every type of the list may be used as `b`.
pub open spec fn subtype_all(ts: Seq<Ty>, b: Ty) -> bool
    decreases list_size(ts) + ty_size(b),
{
    if ts.len() == 0 {
        true
    } else {
        subtype(ts[0], b) && subtype_all(ts.drop_first(), b)
    }
}

/// `compatible_all` holds when the types are compatible at every position.
pub proof fn lemma_compatible_all(x: Seq<Ty>, y: Seq<Ty>)
    requires
        x.len() == y.len(),
    ensures
        compatible_all(x, y) == forall|i: int| 0 <= i < x.len() ==> #[trigger] compatible(x[i], y[i]),
    decreases x.len(),
{
    if x.len() > 0 {
        lemma_compatible_all(x.drop_first(), y.drop_first());
        if forall|i: int| 0 <= i < x.len() ==> #[trigger] compatible(x[i], y[i]) {
            assert forall|i: int| 0 <= i < x.len() - 1 implies #[trigger] compatible(
                x.drop_first()[i],
                y.drop_first()[i],
            ) by {
                assert(compatible(x[i + 1], y[i + 1]));
            }
            assert(compatible(x[0], y[0]));
        }
        if compatible_all(x, y) {
            assert forall|i: int| 0 <= i < x.len() implies #[trigger] compatible(x[i], y[i]) by {
                if i > 0 {
                    assert(compatible(x.drop_first()[i - 1], y.drop_first()[i - 1]));
                }
            }
        }
    }
}

/// `compatible_any` holds when some type of the list is compatible with `other`.
pub proof fn lemma_compatible_any(ts: Seq<Ty>, other: Ty)
    ensures
        compatible_any(ts, other) == exists|i: int| 0 <= i < ts.len() && #[trigger] compatible(ts[i], other),
    decreases ts.len(),
{
    if ts.len() > 0 {
        lemma_compatible_any(ts.drop_first(), other);
        if compatible(ts[0], other) {
            assert(0 <= 0 < ts.len() && compatible(ts[0], other));
        } else if compatible_any(ts.drop_first(), other) {
            let i = choose|i: int| 0 <= i < ts.len() - 1 && #[trigger] compatible(ts.drop_first()[i], other);
            assert(compatible(ts[i + 1], other));
        } else {
            assert forall|i: int| 0 <= i < ts.len() implies !#[trigger] compatible(ts[i], other) by {
                if i > 0 {
                    assert(!compatible(ts.drop_first()[i - 1], other));
                }
            }
        }
    }
}

/// `subtype_any` holds when `a` may be used as some type of the list.
pub proof fn lemma_subtype_any(a: Ty, ts: Seq<Ty>)
    ensures
        subtype_any(a, ts) == exists|i: int| 0 <= i < ts.len() && #[trigger] subtype(a, ts[i]),
    decreases ts.len(),
{
    if ts.len() > 0 {
        lemma_subtype_any(a, ts.drop_first());
        if subtype(a, ts[0]) {
            assert(0 <= 0 < ts.len() && subtype(a, ts[0]));
        } else if subtype_any(a, ts.drop_first()) {
            let i = choose|i: int| 0 <= i < ts.len() - 1 && #[trigger] subtype(a, ts.drop_first()[i]);
            assert(subtype(a, ts[i + 1]));
        } else {
            assert forall|i: int| 0 <= i < ts.len() implies !#[trigger] subtype(a, ts[i]) by {
                if i > 0 {
                    assert(!subtype(a, ts.drop_first()[i - 1]));
                }
            }
        }
    }
}

/// `subtype_all` holds when every type of the list may be used as `b`.
pub proof fn lemma_subtype_all(ts: Seq<Ty>, b: Ty)
    ensures
        subtype_all(ts, b) == forall|i: int| 0 <= i < ts.len() ==> #[trigger] subtype(ts[i], b),
    decreases ts.len(),
{
    if ts.len() > 0 {
        lemma_subtype_all(ts.drop_first(), b);
        if forall|i: int| 0 <= i < ts.len() ==> #[trigger] subtype(ts[i], b) {
            assert forall|i: int| 0 <= i < ts.len() - 1 implies #[trigger] subtype(ts.drop_first()[i], b) by {
                assert(subtype(ts[i + 1], b));
            }
            assert(subtype(ts[0], b));
        }
        if subtype_all(ts, b) {
            assert forall|i: int| 0 <= i < ts.len() implies #[trigger] subtype(ts[i], b) by {
                if i > 0 {
                    assert(subtype(ts.drop_first()[i - 1], b));
                }
            }
        }
    }
}

/// The parts of a resolved type are resolved.
pub proof fn lemma_no_bound_children(sub: Map<u32, Ty>, t: Ty)
    requires
        no_bound(sub, t),
    ensures
        match t {
            Ty::List(e) => no_bound(sub, *e),
            Ty::SetOf(e) => no_bound(sub, *e),
            Ty::Optional(e) => no_bound(sub, *e),
            Ty::Iterator(e) => no_bound(sub, *e),
            Ty::Schema(e) => no_bound(sub, *e),
            Ty::Dict(k, v) => no_bound(sub, *k) && no_bound(sub, *v),
            Ty::Result(k, v) => no_bound(sub, *k) && no_bound(sub, *v),
            Ty::Tuple(es) => forall|j: u32| #[trigger] occurs_in_list(j, es) ==> !sub.contains_key(j),
            Ty::Union(es) => forall|j: u32| #[trigger] occurs_in_list(j, es) ==> !sub.contains_key(j),
            Ty::Function { params, ret } => no_bound(sub, *ret) && forall|j: u32| #[trigger]
                occurs_in_list(j, params) ==> !sub.contains_key(j),
            Ty::AsyncFunction { params, ret } => no_bound(sub, *ret) && forall|j: u32| #[trigger]
                occurs_in_list(j, params) ==> !sub.contains_key(j),
            _ => true,
        },
{
    match t {
        Ty::List(e) | Ty::SetOf(e) | Ty::Optional(e) | Ty::Iterator(e) | Ty::Schema(e) => {
            assert forall|j: u32| #[trigger] occurs_in(j, *e) implies !sub.contains_key(j) by {
                assert(occurs_in(j, t));
            }
        },
        Ty::Dict(k, v) | Ty::Result(k, v) => {
            assert forall|j: u32| #[trigger] occurs_in(j, *k) implies !sub.contains_key(j) by {
                assert(occurs_in(j, t));
            }
            assert forall|j: u32| #[trigger] occurs_in(j, *v) implies !sub.contains_key(j) by {
                assert(occurs_in(j, t));
            }
        },
        Ty::Tuple(es) | Ty::Union(es) => {
            assert forall|j: u32| #[trigger] occurs_in_list(j, es) implies !sub.contains_key(j) by {
                assert(occurs_in(j, t));
            }
        },
        Ty::Function { params, ret } | Ty::AsyncFunction { params, ret } => {
            assert forall|j: u32| #[trigger] occurs_in(j, *ret) implies !sub.contains_key(j) by {
                assert(occurs_in(j, t));
            }
            assert forall|j: u32| #[trigger] occurs_in_list(j, params) implies !sub.contains_key(j) by {
                assert(occurs_in(j, t));
            }
        },
        _ => {},
    }
}

impl TypeContext {
    /// Check if two types are compatible (without unification).
    pub fn types_compatible(&self, t1: &Type, t2: &Type) -> (r: bool)
        requires
            self.wf(),
        ensures
            r == compatible(
                resolve_ty(self.subst(), t1.view_ty()),
                resolve_ty(self.subst(), t2.view_ty()),
            ),
        decreases ty_size(resolve_ty(self.subst(), t1.view_ty())) + ty_size(
            resolve_ty(self.subst(), t2.view_ty()),
        ),
    {
        let ghost sub = self.subst();
        let ghost v1 = t1.view_ty();
        let ghost v2 = t2.view_ty();
        let t1 = self.resolve(t1);
        let t2 = self.resolve(t2);
        let ghost a = t1.view_ty();
        let ghost b = t2.view_ty();
        proof {
            lemma_resolve_no_bound(sub, v1);
            lemma_resolve_no_bound(sub, v2);
            lemma_no_bound_children(sub, a);
            lemma_no_bound_children(sub, b);
        }
        if types_equal(&t1, &t2) {
            return true;
        }
        match (&t1, &t2) {
            (Type::Any, _) | (_, Type::Any) => true,
            (Type::Unknown, _) | (_, Type::Unknown) => true,
            (Type::Error, _) | (_, Type::Error) => true,
            (Type::TypeVar(_), _) | (_, Type::TypeVar(_)) => true,
            (Type::Optional(inner), other) => {
                if let Type::NoneType = other {
                    true
                } else {
                    proof {
                        lemma_resolve_fixed(sub, inner.view_ty());
                        lemma_resolve_fixed(sub, other.view_ty());
                    }
                    self.types_compatible(inner, other)
                }
            },
            (other, Type::Optional(inner)) => {
                if let Type::NoneType = other {
                    true
                } else {
                    proof {
                        lemma_resolve_fixed(sub, inner.view_ty());
                        lemma_resolve_fixed(sub, other.view_ty());
                    }
                    self.types_compatible(inner, other)
                }
            },
            (Type::Int, Type::Float) | (Type::Float, Type::Int) => true,
            (Type::List(e1), Type::List(e2)) | (Type::SetOf(e1), Type::SetOf(e2)) => {
                proof {
                    lemma_resolve_fixed(sub, e1.view_ty());
                    lemma_resolve_fixed(sub, e2.view_ty());
                }
                self.types_compatible(e1, e2)
            },
            (Type::Dict(k1, v1), Type::Dict(k2, v2)) => {
                proof {
                    lemma_resolve_fixed(sub, k1.view_ty());
                    lemma_resolve_fixed(sub, k2.view_ty());
                    lemma_resolve_fixed(sub, v1.view_ty());
                    lemma_resolve_fixed(sub, v2.view_ty());
                }
                self.types_compatible(k1, k2) && self.types_compatible(v1, v2)
            },
            (Type::Tuple(e1), Type::Tuple(e2)) if e1.len() == e2.len() => {
                proof {
                    lemma_views_of_index(e1@);
                    lemma_views_of_index(e2@);
                }
                self.compatible_pairs(e1, e2)
            },
            (Type::Union(types), other) => {
                proof {
                    lemma_resolve_fixed(sub, other.view_ty());
                }
                self.compatible_with_some(types, other)
            },
            (other, Type::Union(types)) => {
                proof {
                    lemma_resolve_fixed(sub, other.view_ty());
                }
                self.compatible_with_some(types, other)
            },
            _ => {
                proof {
                    if let (Type::Tuple(e1), Type::Tuple(e2)) = (&t1, &t2) {
                        lemma_views_of_index(e1@);
                        lemma_views_of_index(e2@);
                    }
                }
                false
            },
        }
    }

    /// Whether resolved lists of equal length are compatible position by position.
    fn compatible_pairs(&self, x: &Vec<Type>, y: &Vec<Type>) -> (r: bool)
        requires
            self.wf(),
            x.len() == y.len(),
            forall|j: u32| #[trigger] occurs_in_list(j, views_of(x@)) ==> !self.subst().contains_key(j),
            forall|j: u32| #[trigger] occurs_in_list(j, views_of(y@)) ==> !self.subst().contains_key(j),
        ensures
            r == compatible_all(views_of(x@), views_of(y@)),
        decreases list_size(views_of(x@)) + list_size(views_of(y@)),
    {
        let ghost sub = self.subst();
        let ghost vx = views_of(x@);
        let ghost vy = views_of(y@);
        proof {
            lemma_views_of_index(x@);
            lemma_views_of_index(y@);
            lemma_compatible_all(vx, vy);
        }
        let mut i: usize = 0;
        while i < x.len()
            invariant
                self.wf(),
                sub == self.subst(),
                vx == views_of(x@),
                vy == views_of(y@),
                i <= x.len(),
                x.len() == y.len(),
                vx.len() == x.len(),
                vy.len() == y.len(),
                forall|k: int| 0 <= k < x.len() ==> #[trigger] vx[k] == x@[k].view_ty(),
                forall|k: int| 0 <= k < y.len() ==> #[trigger] vy[k] == y@[k].view_ty(),
                forall|j: u32| #[trigger] occurs_in_list(j, vx) ==> !sub.contains_key(j),
                forall|j: u32| #[trigger] occurs_in_list(j, vy) ==> !sub.contains_key(j),
                compatible_all(vx, vy) == forall|k: int| 0 <= k < vx.len() ==> #[trigger] compatible(
                    vx[k],
                    vy[k],
                ),
                forall|k: int| 0 <= k < i ==> #[trigger] compatible(vx[k], vy[k]),
            decreases x.len() - i,
        {
            proof {
                lemma_no_bound_elem(sub, vx, i as int);
                lemma_no_bound_elem(sub, vy, i as int);
                lemma_resolve_fixed(sub, vx[i as int]);
                lemma_resolve_fixed(sub, vy[i as int]);
                lemma_list_size_elem(vx, i as int);
                lemma_list_size_elem(vy, i as int);
            }
            if !self.types_compatible(&x[i], &y[i]) {
                return false;
            }
            i += 1;
        }
        true
    }

    /// Whether some type of a resolved list is compatible with the resolved `other`.
    fn compatible_with_some(&self, ts: &Vec<Type>, other: &Type) -> (r: bool)
        requires
            self.wf(),
            forall|j: u32| #[trigger] occurs_in_list(j, views_of(ts@)) ==> !self.subst().contains_key(j),
            no_bound(self.subst(), other.view_ty()),
        ensures
            r == compatible_any(views_of(ts@), other.view_ty()),
        decreases list_size(views_of(ts@)) + ty_size(other.view_ty()),
    {
        let ghost sub = self.subst();
        let ghost vs = views_of(ts@);
        proof {
            lemma_views_of_index(ts@);
            lemma_compatible_any(vs, other.view_ty());
            lemma_resolve_fixed(sub, other.view_ty());
        }
        let mut i: usize = 0;
        while i < ts.len()
            invariant
                self.wf(),
                sub == self.subst(),
                vs == views_of(ts@),
                i <= ts.len(),
                vs.len() == ts.len(),
                forall|k: int| 0 <= k < ts.len() ==> #[trigger] vs[k] == ts@[k].view_ty(),
                forall|j: u32| #[trigger] occurs_in_list(j, vs) ==> !sub.contains_key(j),
                resolve_ty(sub, other.view_ty()) == other.view_ty(),
                compatible_any(vs, other.view_ty()) == exists|k: int| 0 <= k < vs.len() && #[trigger] compatible(
                    vs[k],
                    other.view_ty(),
                ),
                forall|k: int| 0 <= k < i ==> !#[trigger] compatible(vs[k], other.view_ty()),
            decreases ts.len() - i,
        {
            proof {
                lemma_no_bound_elem(sub, vs, i as int);
                lemma_resolve_fixed(sub, vs[i as int]);
                lemma_list_size_elem(vs, i as int);
            }
            if self.types_compatible(&ts[i], other) {
                assert(compatible(vs[i as int], other.view_ty()));
                return true;
            }
            i += 1;
        }
        false
    }

    /// Check if a type is a subtype of another (for assignment/passing).
    pub fn is_subtype(&self, sub: &Type, sup: &Type) -> (r: bool)
        requires
            self.wf(),
        ensures
            r == subtype(resolve_ty(self.subst(), sub.view_ty()), resolve_ty(self.subst(), sup.view_ty())),
        decreases ty_size(resolve_ty(self.subst(), sub.view_ty())) + ty_size(
            resolve_ty(self.subst(), sup.view_ty()),
        ),
    {
        let ghost s = self.subst();
        let ghost v1 = sub.view_ty();
        let ghost v2 = sup.view_ty();
        let sub = self.resolve(sub);
        let sup = self.resolve(sup);
        let ghost a = sub.view_ty();
        let ghost b = sup.view_ty();
        proof {
            lemma_resolve_no_bound(s, v1);
            lemma_resolve_no_bound(s, v2);
            lemma_no_bound_children(s, a);
            lemma_no_bound_children(s, b);
            lemma_resolve_fixed(s, a);
            lemma_resolve_fixed(s, b);
        }
        if types_equal(&sub, &sup) {
            return true;
        }
        match (&sub, &sup) {
            (_, Type::Any) => true,
            (_, Type::Unknown) => true,
            (Type::Never, _) => true,
            (Type::NoneType, Type::Optional(_)) => true,
            (_, Type::Optional(opt_inner)) => {
                proof {
                    lemma_resolve_fixed(s, opt_inner.view_ty());
                }
                self.is_subtype(&sub, opt_inner)
            },
            (Type::Int, Type::Float) => true,
            (Type::List(e1), Type::List(e2)) => {
                proof {
                    lemma_resolve_fixed(s, e1.view_ty());
                    lemma_resolve_fixed(s, e2.view_ty());
                }
                self.is_subtype(e1, e2)
            },
            (_, Type::Union(types)) => self.subtype_of_some(&sub, types),
            (Type::Union(types), _) => self.all_subtypes_of(types, &sup),
            _ => false,
        }
    }

    /// Whether the resolved `sub` may be used as some type of a resolved list.
    fn subtype_of_some(&self, sub: &Type, ts: &Vec<Type>) -> (r: bool)
        requires
            self.wf(),
            no_bound(self.subst(), sub.view_ty()),
            forall|j: u32| #[trigger] occurs_in_list(j, views_of(ts@)) ==> !self.subst().contains_key(j),
        ensures
            r == subtype_any(sub.view_ty(), views_of(ts@)),
        decreases ty_size(sub.view_ty()) + list_size(views_of(ts@)),
    {
        let ghost s = self.subst();
        let ghost vs = views_of(ts@);
        proof {
            lemma_views_of_index(ts@);
            lemma_subtype_any(sub.view_ty(), vs);
            lemma_resolve_fixed(s, sub.view_ty());
        }
        let mut i: usize = 0;
        while i < ts.len()
            invariant
                self.wf(),
                s == self.subst(),
                vs == views_of(ts@),
                i <= ts.len(),
                vs.len() == ts.len(),
                forall|k: int| 0 <= k < ts.len() ==> #[trigger] vs[k] == ts@[k].view_ty(),
                forall|j: u32| #[trigger] occurs_in_list(j, vs) ==> !s.contains_key(j),
                resolve_ty(s, sub.view_ty()) == sub.view_ty(),
                subtype_any(sub.view_ty(), vs) == exists|k: int| 0 <= k < vs.len() && #[trigger] subtype(
                    sub.view_ty(),
                    vs[k],
                ),
                forall|k: int| 0 <= k < i ==> !#[trigger] subtype(sub.view_ty(), vs[k]),
            decreases ts.len() - i,
        {
            proof {
                lemma_no_bound_elem(s, vs, i as int);
                lemma_resolve_fixed(s, vs[i as int]);
                lemma_list_size_elem(vs, i as int);
            }
            if self.is_subtype(sub, &ts[i]) {
                assert(subtype(sub.view_ty(), vs[i as int]));
                return true;
            }
            i += 1;
        }
        false
    }

    /// Whether every type of a resolved list may be used as the resolved `sup`.
    fn all_subtypes_of(&self, ts: &Vec<Type>, sup: &Type) -> (r: bool)
        requires
            self.wf(),
            no_bound(self.subst(), sup.view_ty()),
            forall|j: u32| #[trigger] occurs_in_list(j, views_of(ts@)) ==> !self.subst().contains_key(j),
        ensures
            r == subtype_all(views_of(ts@), sup.view_ty()),
        decreases list_size(views_of(ts@)) + ty_size(sup.view_ty()),
    {
        let ghost s = self.subst();
        let ghost vs = views_of(ts@);
        proof {
            lemma_views_of_index(ts@);
            lemma_subtype_all(vs, sup.view_ty());
            lemma_resolve_fixed(s, sup.view_ty());
        }
        let mut i: usize = 0;
        while i < ts.len()
            invariant
                self.wf(),
                s == self.subst(),
                vs == views_of(ts@),
                i <= ts.len(),
                vs.len() == ts.len(),
                forall|k: int| 0 <= k < ts.len() ==> #[trigger] vs[k] == ts@[k].view_ty(),
                forall|j: u32| #[trigger] occurs_in_list(j, vs) ==> !s.contains_key(j),
                resolve_ty(s, sup.view_ty()) == sup.view_ty(),
                subtype_all(vs, sup.view_ty()) == forall|k: int| 0 <= k < vs.len() ==> #[trigger] subtype(
                    vs[k],
                    sup.view_ty(),
                ),
                forall|k: int| 0 <= k < i ==> #[trigger] subtype(vs[k], sup.view_ty()),
            decreases ts.len() - i,
        {
            proof {
                lemma_no_bound_elem(s, vs, i as int);
                lemma_resolve_fixed(s, vs[i as int]);
                lemma_list_size_elem(vs, i as int);
            }
            if !self.is_subtype(&ts[i], sup) {
                return false;
            }
            i += 1;
        }
        true
    }
}

/// A problem that unification reports.
pub enum UnifyIssue {
    /// A type variable would have to contain itself.
    Recursive,
    /// Two resolved types cannot be made one.
    Mismatch(Ty, Ty),
}

/// What unifying two types gives: the unified type, the substitutions after it,
/// and the problems it reported, in order.
pub struct Unified {
    pub ty: Ty,
    pub sub: Map<u32, Ty>,
    pub issues: Seq<UnifyIssue>,
}

/// What unifying two lists of types position by position gives.
pub struct UnifiedList {
    pub tys: Seq<Ty>,
    pub sub: Map<u32, Ty>,
    pub issues: Seq<UnifyIssue>,
}

/// Substitutions that resolving and unifying can work with: free of cycles and
/// finite (so over at most 2^32 variables).
pub open spec fn sound_sub(sub: Map<u32, Ty>) -> bool {
    &&& acyclic(sub)
    &&& sub.dom().finite()
    &&& sub.dom().len() <= 0x1_0000_0000
}

/// `new` extends `old` with zero or more bindings of unbound variables, and stays sound.
pub open spec fn grows(old: Map<u32, Ty>, new: Map<u32, Ty>) -> bool {
    &&& sound_sub(new)
    &&& old.submap_of(new)
    &&& (new.dom().len() == old.dom().len() ==> new == old)
}

/// A result that leaves the substitutions alone and reports nothing.
pub open spec fn settled(sub: Map<u32, Ty>, ty: Ty) -> Unified {
    Unified { ty, sub, issues: Seq::empty() }
}

/// Binding unbound variable `id` to the resolved `other`: refused, with a
/// recursive-type problem, when `id` occurs in `other`.
pub open spec fn bind_var(sub: Map<u32, Ty>, id: u32, other: Ty) -> Unified {
    if occurs_in(id, other) {
        Unified { ty: Ty::Error, sub, issues: seq![UnifyIssue::Recursive] }
    } else {
        Unified { ty: other, sub: sub.insert(id, other), issues: Seq::empty() }
    }
}

/// The same result with its type wrapped by `f`.
pub open spec fn rewrap(r: Unified, ty: Ty) -> Unified {
    Unified { ty, ..r }
}

/// The members of `acc` followed by those of `ts` it does not hold yet, in order.
pub open spec fn merge_into(acc: Seq<Ty>, ts: Seq<Ty>) -> Seq<Ty>
    decreases ts.len(),
{
    if ts.len() == 0 {
        acc
    } else {
        merge_into(
            if acc.contains(ts[0]) {
                acc
            } else {
                acc.push(ts[0])
            },
            ts.drop_first(),
        )
    }
}

/// The union of two unions: their members without repeats, collapsed to the one
/// member when there is only one.
pub open spec fn union_of(x: Seq<Ty>, y: Seq<Ty>) -> Ty {
    let m = merge_into(x, y);
    if m.len() == 1 {
        m[0]
    } else {
        Ty::Union(m)
    }
}

/// A union met with another type: that type when some member is compatible with
/// it, else the union with the type added.
pub open spec fn union_with(ts: Seq<Ty>, other: Ty) -> Ty {
    if compatible_any(ts, other) {
        other
    } else {
        Ty::Union(ts.push(other))
    }
}

/// Unification of `t1` and `t2` under `sub`. Both are resolved first. Equal types
/// unify to themselves; errors to an error; `Any` and `Unknown` give way to the
/// other type; an unbound variable is bound to the other type (unless it occurs
/// in it); optional types unify their inner types, and `None` fits an optional
/// type; lists, sets, dicts, iterators, schemas, results and same-length tuples
/// and functions unify component by component, left to right, each under the
/// substitutions the previous one left; unions merge; `Int` and `Float` widen to
/// `Float`; anything else is a mismatch.
pub open spec fn unify_spec(sub: Map<u32, Ty>, t1: Ty, t2: Ty) -> Unified
    decreases 0x1_0000_0000 - sub.dom().len(), ty_size(resolve_ty(sub, t1)) + ty_size(
        resolve_ty(sub, t2),
    ),
    when sound_sub(sub)
{
    let a = resolve_ty(sub, t1);
    let b = resolve_ty(sub, t2);
    proof {
        lemma_resolve_no_bound(sub, t1);
        lemma_resolve_no_bound(sub, t2);
        lemma_no_bound_children(sub, a);
        lemma_no_bound_children(sub, b);
        lemma_resolve_children_fixed(sub, a);
        lemma_resolve_children_fixed(sub, b);
    }
    if a == b {
        settled(sub, a)
    } else {
        match (a, b) {
            (Ty::Error, _) => settled(sub, Ty::Error),
            (_, Ty::Error) => settled(sub, Ty::Error),
            (Ty::Any, _) => settled(sub, b),
            (_, Ty::Any) => settled(sub, a),
            (Ty::Unknown, _) => settled(sub, b),
            (_, Ty::Unknown) => settled(sub, a),
            (Ty::TypeVar(id), _) => bind_var(sub, id, b),
            (_, Ty::TypeVar(id)) => bind_var(sub, id, a),
            (Ty::Optional(x), Ty::Optional(y)) => {
                let r = unify_spec(sub, *x, *y);
                rewrap(r, Ty::Optional(Box::new(r.ty)))
            },
            (Ty::Optional(inner), _) => if b is NoneType {
                settled(sub, a)
            } else {
                let r = unify_spec(sub, *inner, b);
                rewrap(r, Ty::Optional(Box::new(r.ty)))
            },
            (_, Ty::Optional(inner)) => if a is NoneType {
                settled(sub, a)
            } else {
                let r = unify_spec(sub, *inner, a);
                rewrap(r, Ty::Optional(Box::new(r.ty)))
            },
            (Ty::List(x), Ty::List(y)) => {
                let r = unify_spec(sub, *x, *y);
                rewrap(r, Ty::List(Box::new(r.ty)))
            },
            (Ty::SetOf(x), Ty::SetOf(y)) => {
                let r = unify_spec(sub, *x, *y);
                rewrap(r, Ty::SetOf(Box::new(r.ty)))
            },
            (Ty::Dict(k1, v1), Ty::Dict(k2, v2)) => {
                let rk = unify_spec(sub, *k1, *k2);
                if grows(sub, rk.sub) {
                    proof {
                        lemma_grows_len(sub, rk.sub);
                    }
                    let rv = unify_spec(rk.sub, *v1, *v2);
                    Unified {
                        ty: Ty::Dict(Box::new(rk.ty), Box::new(rv.ty)),
                        sub: rv.sub,
                        issues: rk.issues + rv.issues,
                    }
                } else {
                    rk
                }
            },
            (Ty::Tuple(x), Ty::Tuple(y)) if x.len() == y.len() => {
                let r = unify_lists(sub, x, y);
                Unified { ty: Ty::Tuple(r.tys), sub: r.sub, issues: r.issues }
            },
            (Ty::Function { params: p1, ret: r1 }, Ty::Function { params: p2, ret: r2 }) if p1.len()
                == p2.len() => {
                let rp = unify_lists(sub, p1, p2);
                if grows(sub, rp.sub) {
                    proof {
                        lemma_grows_len(sub, rp.sub);
                    }
                    let rr = unify_spec(rp.sub, *r1, *r2);
                    Unified {
                        ty: Ty::Function { params: rp.tys, ret: Box::new(rr.ty) },
                        sub: rr.sub,
                        issues: rp.issues + rr.issues,
                    }
                } else {
                    Unified { ty: Ty::Error, sub: rp.sub, issues: rp.issues }
                }
            },
            (
                Ty::AsyncFunction { params: p1, ret: r1 },
                Ty::AsyncFunction { params: p2, ret: r2 },
            ) if p1.len() == p2.len() => {
                let rp = unify_lists(sub, p1, p2);
                if grows(sub, rp.sub) {
                    proof {
                        lemma_grows_len(sub, rp.sub);
                    }
                    let rr = unify_spec(rp.sub, *r1, *r2);
                    Unified {
                        ty: Ty::AsyncFunction { params: rp.tys, ret: Box::new(rr.ty) },
                        sub: rr.sub,
                        issues: rp.issues + rr.issues,
                    }
                } else {
                    Unified { ty: Ty::Error, sub: rp.sub, issues: rp.issues }
                }
            },
            (Ty::Union(x), Ty::Union(y)) => settled(sub, union_of(x, y)),
            (Ty::Union(ts), _) => settled(sub, union_with(ts, b)),
            (_, Ty::Union(ts)) => settled(sub, union_with(ts, a)),
            (Ty::Result(o1, e1), Ty::Result(o2, e2)) => {
                let ro = unify_spec(sub, *o1, *o2);
                if grows(sub, ro.sub) {
                    proof {
                        lemma_grows_len(sub, ro.sub);
                    }
                    let re = unify_spec(ro.sub, *e1, *e2);
                    Unified {
                        ty: Ty::Result(Box::new(ro.ty), Box::new(re.ty)),
                        sub: re.sub,
                        issues: ro.issues + re.issues,
                    }
                } else {
                    ro
                }
            },
            (Ty::Iterator(x), Ty::Iterator(y)) => {
                let r = unify_spec(sub, *x, *y);
                rewrap(r, Ty::Iterator(Box::new(r.ty)))
            },
            (Ty::Schema(x), Ty::Schema(y)) => {
                let r = unify_spec(sub, *x, *y);
                rewrap(r, Ty::Schema(Box::new(r.ty)))
            },
            (Ty::Int, Ty::Float) => settled(sub, Ty::Float),
            (Ty::Float, Ty::Int) => settled(sub, Ty::Float),
            _ => Unified { ty: Ty::Error, sub, issues: seq![UnifyIssue::Mismatch(a, b)] },
        }
    }
}

/// Unification of two lists position by position, left to right, each position
/// under the substitutions the previous one left.
pub open spec fn unify_lists(sub: Map<u32, Ty>, xs: Seq<Ty>, ys: Seq<Ty>) -> UnifiedList
    decreases 0x1_0000_0000 - sub.dom().len(), list_size(resolve_list(sub, xs)) + list_size(
        resolve_list(sub, ys),
    ),
    when sound_sub(sub)
{
    if xs.len() == 0 || ys.len() == 0 {
        UnifiedList { tys: Seq::empty(), sub, issues: Seq::empty() }
    } else {
        proof {
            lemma_resolve_list_split(sub, xs);
            lemma_resolve_list_split(sub, ys);
        }
        let r0 = unify_spec(sub, xs[0], ys[0]);
        if grows(sub, r0.sub) {
            proof {
                lemma_grows_len(sub, r0.sub);
            }
            let rest = unify_lists(r0.sub, xs.drop_first(), ys.drop_first());
            UnifiedList {
                tys: seq![r0.ty] + rest.tys,
                sub: rest.sub,
                issues: r0.issues + rest.issues,
            }
        } else {
            UnifiedList { tys: seq![r0.ty], sub: r0.sub, issues: r0.issues }
        }
    }
}

/// The sizes of a resolved list split into its first type and the rest.
pub proof fn lemma_resolve_list_split(sub: Map<u32, Ty>, s: Seq<Ty>)
    requires
        acyclic(sub),
        s.len() > 0,
    ensures
        list_size(resolve_list(sub, s)) == 1 + ty_size(resolve_ty(sub, s[0])) + list_size(
            resolve_list(sub, s.drop_first()),
        ),
{
    let r = resolve_list(sub, s);
    assert(r.drop_first() =~= resolve_list(sub, s.drop_first()));
}

/// The parts of a resolved type resolve to themselves.
pub proof fn lemma_resolve_children_fixed(sub: Map<u32, Ty>, t: Ty)
    requires
        acyclic(sub),
        no_bound(sub, t),
    ensures
        match t {
            Ty::List(e) => resolve_ty(sub, *e) == *e,
            Ty::SetOf(e) => resolve_ty(sub, *e) == *e,
            Ty::Optional(e) => resolve_ty(sub, *e) == *e,
            Ty::Iterator(e) => resolve_ty(sub, *e) == *e,
            Ty::Schema(e) => resolve_ty(sub, *e) == *e,
            Ty::Dict(k, v) => resolve_ty(sub, *k) == *k && resolve_ty(sub, *v) == *v,
            Ty::Result(k, v) => resolve_ty(sub, *k) == *k && resolve_ty(sub, *v) == *v,
            Ty::Tuple(es) => resolve_list(sub, es) == es,
            Ty::Union(es) => resolve_list(sub, es) == es,
            Ty::Function { params, ret } => resolve_list(sub, params) == params && resolve_ty(sub, *ret)
                == *ret,
            Ty::AsyncFunction { params, ret } => resolve_list(sub, params) == params && resolve_ty(
                sub,
                *ret,
            ) == *ret,
            _ => true,
        },
{
    lemma_no_bound_children(sub, t);
    match t {
        Ty::List(e) | Ty::SetOf(e) | Ty::Optional(e) | Ty::Iterator(e) | Ty::Schema(e) => {
            lemma_resolve_fixed(sub, *e);
        },
        Ty::Dict(k, v) | Ty::Result(k, v) => {
            lemma_resolve_fixed(sub, *k);
            lemma_resolve_fixed(sub, *v);
        },
        Ty::Tuple(es) | Ty::Union(es) => {
            lemma_resolve_list_fixed(sub, es);
        },
        Ty::Function { params, ret } | Ty::AsyncFunction { params, ret } => {
            lemma_resolve_list_fixed(sub, params);
            lemma_resolve_fixed(sub, *ret);
        },
        _ => {},
    }
}

/// Growing the substitutions never shrinks their domain.
pub proof fn lemma_grows_len(old: Map<u32, Ty>, new: Map<u32, Ty>)
    requires
        sound_sub(old),
        grows(old, new),
    ensures
        new.dom().len() >= old.dom().len(),
{
    assert(old.dom().subset_of(new.dom()));
    vstd::set_lib::lemma_len_subset(old.dom(), new.dom());
}

/// A finite set of 32-bit numbers has at most 2^32 members.
pub proof fn lemma_u32_set_len(s: Set<u32>)
    requires
        s.finite(),
    ensures
        s.len() <= 0x1_0000_0000,
{
    let f = |x: u32| x as int;
    let y = s.map(f);
    assert(vstd::relations::injective_on(f, s));
    vstd::set_lib::lemma_map_size(s, y, f);
    vstd::set_lib::lemma_int_range(0, 0x1_0000_0000);
    assert(y.subset_of(vstd::set_lib::set_int_range(0, 0x1_0000_0000)));
    vstd::set_lib::lemma_len_subset(y, vstd::set_lib::set_int_range(0, 0x1_0000_0000));
}

/// Growing the substitutions twice is growing them once.
pub proof fn lemma_grows_trans(s0: Map<u32, Ty>, s1: Map<u32, Ty>, s2: Map<u32, Ty>)
    requires
        sound_sub(s0),
        grows(s0, s1),
        grows(s1, s2),
    ensures
        grows(s0, s2),
{
    lemma_grows_len(s0, s1);
    lemma_grows_len(s1, s2);
    assert forall|k: u32| #[trigger] s0.dom().contains(k) implies s2.dom().contains(k) && s2[k] == s0[k] by {
        assert(s1.dom().contains(k));
        assert(s0[k] == s1[k]);
        assert(s2.dom().contains(k));
        assert(s1[k] == s2[k]);
    }
    assert(s0.submap_of(s2));
}

/// A variable that occurs in no type of a list does not occur in the list.
pub proof fn lemma_occurs_list_none(id: u32, s: Seq<Ty>)
    requires
        forall|i: int| 0 <= i < s.len() ==> !#[trigger] occurs_in(id, s[i]),
    ensures
        !occurs_in_list(id, s),
    decreases s.len(),
{
    if s.len() > 0 {
        assert forall|i: int| 0 <= i < s.len() - 1 implies !#[trigger] occurs_in(id, s.drop_first()[i]) by {
            assert(s.drop_first()[i] == s[i + 1]);
        }
        lemma_occurs_list_none(id, s.drop_first());
        assert(!occurs_in(id, s[0]));
    }
}

/// The error that reports `issue` at `span`.
pub open spec fn reports_one(e: TypeError, issue: UnifyIssue, span: SourceSpan) -> bool {
    match issue {
        UnifyIssue::Recursive => e matches TypeError::RecursiveType { span: s } && s == span,
        UnifyIssue::Mismatch(x, y) => e matches TypeError::UnificationFailed { t1, t2, span: s }
            && t1@ == display(x) && t2@ == display(y) && s == span,
    }
}

/// `es` are the errors that report `issues` at `span`, one for one and in order.
pub open spec fn reports(es: Seq<TypeError>, issues: Seq<UnifyIssue>, span: SourceSpan) -> bool {
    &&& es.len() == issues.len()
    &&& forall|i: int| 0 <= i < es.len() ==> #[trigger] reports_one(es[i], issues[i], span)
}

/// `new` is `old` followed by the errors that report `issues` at `span`.
pub open spec fn appended(
    old: Seq<TypeError>,
    new: Seq<TypeError>,
    issues: Seq<UnifyIssue>,
    span: SourceSpan,
) -> bool {
    &&& new.len() >= old.len()
    &&& new.take(old.len() as int) == old
    &&& reports(new.skip(old.len() as int), issues, span)
}

/// Appending nothing.
pub proof fn lemma_appended_none(es: Seq<TypeError>, span: SourceSpan)
    ensures
        appended(es, es, Seq::empty(), span),
{
    assert(es.take(es.len() as int) =~= es);
    assert(es.skip(es.len() as int) =~= Seq::<TypeError>::empty());
}

/// Appending one error.
pub proof fn lemma_appended_one(es: Seq<TypeError>, e: TypeError, issue: UnifyIssue, span: SourceSpan)
    requires
        reports_one(e, issue, span),
    ensures
        appended(es, es.push(e), seq![issue], span),
{
    assert(es.push(e).take(es.len() as int) =~= es);
    assert(es.push(e).skip(es.len() as int) =~= seq![e]);
    assert(reports_one(seq![e][0], seq![issue][0], span));
}

/// Appending twice is appending the two lots one after the other.
pub proof fn lemma_appended_trans(
    e0: Seq<TypeError>,
    e1: Seq<TypeError>,
    e2: Seq<TypeError>,
    i1: Seq<UnifyIssue>,
    i2: Seq<UnifyIssue>,
    span: SourceSpan,
)
    requires
        appended(e0, e1, i1, span),
        appended(e1, e2, i2, span),
    ensures
        appended(e0, e2, i1 + i2, span),
{
    let n0 = e0.len() as int;
    let n1 = e1.len() as int;
    assert(e2.take(n1).take(n0) =~= e2.take(n0));
    let d = e2.skip(n0);
    assert(d =~= e1.skip(n0) + e2.skip(n1)) by {
        assert(e2 =~= e2.take(n1) + e2.skip(n1));
    }
    assert forall|i: int| 0 <= i < d.len() implies #[trigger] reports_one(d[i], (i1 + i2)[i], span) by {
        if i < i1.len() {
            assert(d[i] == e1.skip(n0)[i]);
        } else {
            assert(d[i] == e2.skip(n1)[i - i1.len()]);
        }
    }
}

/// The state after a unification step from `old` to `new` that gave `r`, as `u` says.
pub open spec fn outcome(old: TypeContext, new: TypeContext, u: Unified, r: Ty, span: SourceSpan) -> bool {
    &&& new.wf()
    &&& new.same_but_inference(&old)
    &&& grows(old.subst(), new.subst())
    &&& r == u.ty
    &&& new.subst() == u.sub
    &&& appended(old.error_list(), new.error_list(), u.issues, span)
}

/// Two steps in a row, with their results combined into `ty`.
pub proof fn lemma_outcome_chain(
    s0: TypeContext,
    s1: TypeContext,
    s2: TypeContext,
    u1: Unified,
    u2: Unified,
    r1: Ty,
    r2: Ty,
    ty: Ty,
    span: SourceSpan,
)
    requires
        sound_sub(s0.subst()),
        outcome(s0, s1, u1, r1, span),
        outcome(s1, s2, u2, r2, span),
    ensures
        outcome(s0, s2, Unified { ty, sub: u2.sub, issues: u1.issues + u2.issues }, ty, span),
{
    lemma_grows_trans(s0.subst(), s1.subst(), s2.subst());
    lemma_appended_trans(s0.error_list(), s1.error_list(), s2.error_list(), u1.issues, u2.issues, span);
}

/// Whether a list of types holds a type equal to `t`.
fn contains_type(v: &Vec<Type>, t: &Type) -> (r: bool)
    ensures
        r == views_of(v@).contains(t.view_ty()),
{
    proof {
        lemma_views_of_index(v@);
    }
    let mut i: usize = 0;
    while i < v.len()
        invariant
            i <= v.len(),
            views_of(v@).len() == v.len(),
            forall|k: int| 0 <= k < v.len() ==> #[trigger] views_of(v@)[k] == v@[k].view_ty(),
            forall|k: int| 0 <= k < i ==> views_of(v@)[k] != t.view_ty(),
        decreases v.len() - i,
    {
        if types_equal(&v[i], t) {
            assert(views_of(v@)[i as int] == t.view_ty());
            return true;
        }
        i += 1;
    }
    false
}

/// The members of `x` followed by those of `y` not held yet.
fn merge_types(x: &Vec<Type>, y: &Vec<Type>) -> (r: Vec<Type>)
    ensures
        views_of(r@) == merge_into(views_of(x@), views_of(y@)),
{
    let ghost vy = views_of(y@);
    proof {
        lemma_views_of_index(y@);
    }
    let mut all = clone_types(x);
    let mut i: usize = 0;
    assert(vy.skip(0) =~= vy);
    while i < y.len()
        invariant
            i <= y.len(),
            vy == views_of(y@),
            vy.len() == y.len(),
            forall|k: int| 0 <= k < y.len() ==> #[trigger] vy[k] == y@[k].view_ty(),
            merge_into(views_of(x@), vy) == merge_into(views_of(all@), vy.skip(i as int)),
        decreases y.len() - i,
    {
        let ghost before = views_of(all@);
        let ghost prev = all@;
        let ghost rest = vy.skip(i as int);
        assert(rest[0] == vy[i as int]);
        assert(rest.drop_first() =~= vy.skip(i + 1));
        if !contains_type(&all, &y[i]) {
            let t = clone_type(&y[i]);
            all.push(t);
            proof {
                lemma_views_of_index(all@);
                lemma_views_of_index(prev);
                assert(views_of(all@) =~= before.push(vy[i as int]));
            }
        }
        i += 1;
    }
    assert(vy.skip(y.len() as int) =~= Seq::<Ty>::empty());
    all
}

impl TypeContext {
    /// Check if a type variable occurs in a resolved type (occurs check for
    /// infinite type prevention).
    fn occurs_check(&self, var: u32, ty: &Type) -> (r: bool)
        requires
            self.wf(),
            no_bound(self.subst(), ty.view_ty()),
        ensures
            r == occurs_in(var, ty.view_ty()),
        decreases ty,
    {
        proof {
            lemma_no_bound_children(self.subst(), ty.view_ty());
        }
        match ty {
            Type::TypeVar(id) => {
                if *id == var {
                    true
                } else {
                    match self.get_substitution(*id) {
                        Some(subst) => {
                            assert(occurs_in(*id, ty.view_ty()));
                            self.occurs_check(var, subst)
                        },
                        None => false,
                    }
                }
            },
            Type::List(elem) | Type::SetOf(elem) | Type::Optional(elem) | Type::Iterator(elem)
            | Type::Schema(elem) => self.occurs_check(var, elem),
            Type::Dict(k, v) | Type::Result(k, v) => self.occurs_check(var, k) || self.occurs_check(
                var,
                v,
            ),
            Type::Tuple(elems) => {
                assert forall|j: u32| #[trigger] occurs_in_list(j, views_of(elems@)) implies !self.subst().contains_key(j) by {
                    assert(occurs_in(j, ty.view_ty()));
                }
                self.occurs_check_types(var, elems)
            },
            Type::Union(elems) => {
                assert forall|j: u32| #[trigger] occurs_in_list(j, views_of(elems@)) implies !self.subst().contains_key(j) by {
                    assert(occurs_in(j, ty.view_ty()));
                }
                self.occurs_check_types(var, elems)
            },
            Type::Function { params, ret } => {
                assert forall|j: u32| #[trigger] occurs_in_list(j, views_of(params@)) implies !self.subst().contains_key(j) by {
                    assert(occurs_in(j, ty.view_ty()));
                }
                self.occurs_check_types(var, params) || self.occurs_check(var, ret)
            },
            Type::AsyncFunction { params, ret } => {
                assert forall|j: u32| #[trigger] occurs_in_list(j, views_of(params@)) implies !self.subst().contains_key(j) by {
                    assert(occurs_in(j, ty.view_ty()));
                }
                self.occurs_check_types(var, params) || self.occurs_check(var, ret)
            },
            _ => false,
        }
    }

    /// The occurs check over a resolved list of types.
    fn occurs_check_types(&self, var: u32, v: &Vec<Type>) -> (r: bool)
        requires
            self.wf(),
            forall|j: u32| #[trigger] occurs_in_list(j, views_of(v@)) ==> !self.subst().contains_key(j),
        ensures
            r == occurs_in_list(var, views_of(v@)),
        decreases v@,
    {
        let ghost vs = views_of(v@);
        proof {
            lemma_views_of_index(v@);
        }
        let mut i: usize = 0;
        while i < v.len()
            invariant
                self.wf(),
                i <= v.len(),
                vs == views_of(v@),
                vs.len() == v.len(),
                forall|k: int| 0 <= k < v.len() ==> #[trigger] vs[k] == v@[k].view_ty(),
                forall|j: u32| #[trigger] occurs_in_list(j, vs) ==> !self.subst().contains_key(j),
                forall|k: int| 0 <= k < i ==> !#[trigger] occurs_in(var, vs[k]),
            decreases v.len() - i,
        {
            proof {
                lemma_no_bound_elem(self.subst(), vs, i as int);
            }
            assert(decreases_to!(v@ => v@[i as int]));
            if self.occurs_check(var, &v[i]) {
                proof {
                    lemma_occurs_list_elem(var, vs, i as int);
                }
                return true;
            }
            i += 1;
        }
        proof {
            lemma_occurs_list_none(var, vs);
        }
        false
    }

    /// Bind the unbound variable `id` to the resolved `other`, or report a
    /// recursive type when `id` occurs in it.
    fn bind(&mut self, id: u32, other: &Type, span: Span) -> (r: Type)
        requires
            old(self).wf(),
            !old(self).subst().contains_key(id),
            no_bound(old(self).subst(), other.view_ty()),
        ensures
            outcome(
                *old(self),
                *final(self),
                bind_var(old(self).subst(), id, other.view_ty()),
                r.view_ty(),
                source_of(span),
            ),
    {
        let ghost s0 = *self;
        proof {
            lemma_u32_set_len(self.subst().dom());
        }
        if self.occurs_check(id, other) {
            let err = TypeError::RecursiveType { span: to_source_span(span) };
            self.error(err);
            proof {
                lemma_appended_one(s0.error_list(), err, UnifyIssue::Recursive, source_of(span));
            }
            Type::Error
        } else {
            proof {
                lemma_bind_keeps_acyclic(self.subst(), id, other.view_ty());
            }
            self.set_substitution(id, clone_type(other));
            proof {
                lemma_u32_set_len(self.subst().dom());
                lemma_appended_none(s0.error_list(), source_of(span));
                assert(self.subst().dom() =~= s0.subst().dom().insert(id));
            }
            clone_type(other)
        }
    }
}

/// The state after unifying two lists from `old` to `new`, as `u` says.
pub open spec fn outcome_list(
    old: TypeContext,
    new: TypeContext,
    u: UnifiedList,
    tys: Seq<Ty>,
    span: SourceSpan,
) -> bool {
    &&& new.wf()
    &&& new.same_but_inference(&old)
    &&& grows(old.subst(), new.subst())
    &&& tys == u.tys
    &&& new.subst() == u.sub
    &&& appended(old.error_list(), new.error_list(), u.issues, span)
}

/// Leaving the state as it is, with the result `ty`.
pub proof fn lemma_settled(s: TypeContext, ty: Ty, span: SourceSpan)
    requires
        s.wf(),
    ensures
        outcome(s, s, settled(s.subst(), ty), ty, span),
{
    lemma_u32_set_len(s.subst().dom());
    lemma_appended_none(s.error_list(), span);
}

/// The models of a list with one more type.
pub proof fn lemma_views_of_push(v: Seq<Type>, t: Type)
    ensures
        views_of(v.push(t)) == views_of(v).push(t.view_ty()),
{
    lemma_views_of_index(v);
    lemma_views_of_index(v.push(t));
    assert(views_of(v.push(t)) =~= views_of(v).push(t.view_ty()));
}

impl TypeContext {
    /// Unify two types, recording substitutions for type variables.
    /// Returns the unified type on success, or records an error and returns Error type.
    pub fn unify(&mut self, t1: &Type, t2: &Type, span: Span) -> (r: Type)
        requires
            old(self).wf(),
        ensures
            outcome(
                *old(self),
                *final(self),
                unify_spec(old(self).subst(), t1.view_ty(), t2.view_ty()),
                r.view_ty(),
                source_of(span),
            ),
        decreases 0x1_0000_0000 - old(self).subst().dom().len(), ty_size(
            resolve_ty(old(self).subst(), t1.view_ty()),
        ) + ty_size(resolve_ty(old(self).subst(), t2.view_ty())), 1nat,
    {
        let ghost sub = self.subst();
        let ghost v1 = t1.view_ty();
        let ghost v2 = t2.view_ty();
        proof {
            lemma_u32_set_len(sub.dom());
            lemma_resolve_no_bound(sub, v1);
            lemma_resolve_no_bound(sub, v2);
        }
        let t1 = self.resolve(t1);
        let t2 = self.resolve(t2);
        proof {
            lemma_resolve_fixed(sub, t1.view_ty());
            lemma_resolve_fixed(sub, t2.view_ty());
            assert(unify_spec(sub, v1, v2) == unify_spec(sub, t1.view_ty(), t2.view_ty()));
        }
        if types_equal(&t1, &t2) {
            proof {
                lemma_settled(*self, t1.view_ty(), source_of(span));
            }
            return t1;
        }
        self.unify_resolved(&t1, &t2, span)
    }

    /// Unify two different resolved types.
    #[verifier::rlimit(80)]
    #[verifier::spinoff_prover]
    fn unify_resolved(&mut self, a: &Type, b: &Type, span: Span) -> (r: Type)
        requires
            old(self).wf(),
            no_bound(old(self).subst(), a.view_ty()),
            no_bound(old(self).subst(), b.view_ty()),
            a.view_ty() != b.view_ty(),
        ensures
            outcome(
                *old(self),
                *final(self),
                unify_spec(old(self).subst(), a.view_ty(), b.view_ty()),
                r.view_ty(),
                source_of(span),
            ),
        decreases 0x1_0000_0000 - old(self).subst().dom().len(), ty_size(a.view_ty()) + ty_size(
            b.view_ty(),
        ), 0nat,
    {
        let ghost s0 = *self;
        let ghost sub = self.subst();
        let ghost av = a.view_ty();
        let ghost bv = b.view_ty();
        let ghost sp = source_of(span);
        proof {
            lemma_u32_set_len(sub.dom());
            lemma_resolve_fixed(sub, av);
            lemma_resolve_fixed(sub, bv);
            lemma_no_bound_children(sub, av);
            lemma_no_bound_children(sub, bv);
            lemma_resolve_children_fixed(sub, av);
            lemma_resolve_children_fixed(sub, bv);
            lemma_appended_none(s0.error_list(), sp);
        }
        match (a, b) {
            (Type::Error, _) | (_, Type::Error) => {
                proof {
                    lemma_settled(s0, Ty::Error, sp);
                }
                Type::Error
            },
            (Type::Any, _) => {
                proof {
                    lemma_settled(s0, bv, sp);
                }
                clone_type(b)
            },
            (_, Type::Any) => {
                proof {
                    lemma_settled(s0, av, sp);
                }
                clone_type(a)
            },
            (Type::Unknown, _) => {
                proof {
                    lemma_settled(s0, bv, sp);
                }
                clone_type(b)
            },
            (_, Type::Unknown) => {
                proof {
                    lemma_settled(s0, av, sp);
                }
                clone_type(a)
            },
            (Type::TypeVar(id), _) => {
                assert(occurs_in(*id, av));
                self.bind(*id, b, span)
            },
            (_, Type::TypeVar(id)) => {
                assert(occurs_in(*id, bv));
                self.bind(*id, a, span)
            },
            (Type::Optional(x), Type::Optional(y)) => {
                let inner = self.unify(x, y, span);
                Type::Optional(Box::new(inner))
            },
            (Type::Optional(inner), _) => {
                if let Type::NoneType = b {
                    proof {
                        lemma_settled(s0, av, sp);
                    }
                    clone_type(a)
                } else {
                    let u = self.unify(inner, b, span);
                    Type::Optional(Box::new(u))
                }
            },
            (_, Type::Optional(inner)) => {
                if let Type::NoneType = a {
                    proof {
                        lemma_settled(s0, av, sp);
                    }
                    clone_type(a)
                } else {
                    let u = self.unify(inner, a, span);
                    Type::Optional(Box::new(u))
                }
            },
            (Type::List(x), Type::List(y)) => {
                let elem = self.unify(x, y, span);
                Type::List(Box::new(elem))
            },
            (Type::SetOf(x), Type::SetOf(y)) => {
                let elem = self.unify(x, y, span);
                Type::SetOf(Box::new(elem))
            },
            (Type::Dict(k1, v1), Type::Dict(k2, v2)) => {
                let key = self.unify(k1, k2, span);
                let ghost s1 = *self;
                proof {
                    lemma_grows_len(sub, s1.subst());
                }
                let val = self.unify(v1, v2, span);
                proof {
                    lemma_outcome_chain(
                        s0,
                        s1,
                        *self,
                        unify_spec(sub, k1.view_ty(), k2.view_ty()),
                        unify_spec(s1.subst(), v1.view_ty(), v2.view_ty()),
                        key.view_ty(),
                        val.view_ty(),
                        Ty::Dict(Box::new(key.view_ty()), Box::new(val.view_ty())),
                        sp,
                    );
                }
                Type::Dict(Box::new(key), Box::new(val))
            },
            (Type::Tuple(x), Type::Tuple(y)) if x.len() == y.len() => {
                proof {
                    lemma_views_of_index(x@);
                    lemma_views_of_index(y@);
                }
                let elems = self.unify_types(x, y, span);
                Type::Tuple(elems)
            },
            (
                Type::Function { params: p1, ret: r1 },
                Type::Function { params: p2, ret: r2 },
            ) if p1.len() == p2.len() => {
                proof {
                    lemma_views_of_index(p1@);
                    lemma_views_of_index(p2@);
                }
                let params = self.unify_types(p1, p2, span);
                let ghost s1 = *self;
                proof {
                    lemma_grows_len(sub, s1.subst());
                }
                let ret = self.unify(r1, r2, span);
                proof {
                    lemma_grows_trans(sub, s1.subst(), self.subst());
                    lemma_appended_trans(
                        s0.error_list(),
                        s1.error_list(),
                        self.error_list(),
                        unify_lists(sub, views_of(p1@), views_of(p2@)).issues,
                        unify_spec(s1.subst(), r1.view_ty(), r2.view_ty()).issues,
                        sp,
                    );
                }
                Type::Function { params, ret: Box::new(ret) }
            },
            (
                Type::AsyncFunction { params: p1, ret: r1 },
                Type::AsyncFunction { params: p2, ret: r2 },
            ) if p1.len() == p2.len() => {
                proof {
                    lemma_views_of_index(p1@);
                    lemma_views_of_index(p2@);
                }
                let params = self.unify_types(p1, p2, span);
                let ghost s1 = *self;
                proof {
                    lemma_grows_len(sub, s1.subst());
                }
                let ret = self.unify(r1, r2, span);
                proof {
                    lemma_grows_trans(sub, s1.subst(), self.subst());
                    lemma_appended_trans(
                        s0.error_list(),
                        s1.error_list(),
                        self.error_list(),
                        unify_lists(sub, views_of(p1@), views_of(p2@)).issues,
                        unify_spec(s1.subst(), r1.view_ty(), r2.view_ty()).issues,
                        sp,
                    );
                }
                Type::AsyncFunction { params, ret: Box::new(ret) }
            },
            (Type::Union(x), Type::Union(y)) => {
                let mut all = merge_types(x, y);
                proof {
                    lemma_views_of_index(all@);
                }
                if all.len() == 1 {
                    let t = all.pop().unwrap();
                    proof {
                        lemma_settled(s0, t.view_ty(), sp);
                    }
                    t
                } else {
                    proof {
                        lemma_settled(s0, Ty::Union(views_of(all@)), sp);
                    }
                    Type::Union(all)
                }
            },
            (Type::Union(types), _) => {
                if self.compatible_with_some(types, b) {
                    proof {
                        lemma_settled(s0, bv, sp);
                    }
                    clone_type(b)
                } else {
                    let mut new_types = clone_types(types);
                    let other = clone_type(b);
                    proof {
                        lemma_views_of_push(new_types@, other);
                    }
                    new_types.push(other);
                    proof {
                        lemma_settled(s0, Ty::Union(views_of(new_types@)), sp);
                    }
                    Type::Union(new_types)
                }
            },
            (_, Type::Union(types)) => {
                if self.compatible_with_some(types, a) {
                    proof {
                        lemma_settled(s0, av, sp);
                    }
                    clone_type(a)
                } else {
                    let mut new_types = clone_types(types);
                    let other = clone_type(a);
                    proof {
                        lemma_views_of_push(new_types@, other);
                    }
                    new_types.push(other);
                    proof {
                        lemma_settled(s0, Ty::Union(views_of(new_types@)), sp);
                    }
                    Type::Union(new_types)
                }
            },
            (Type::Result(o1, e1), Type::Result(o2, e2)) => {
                let ok = self.unify(o1, o2, span);
                let ghost s1 = *self;
                proof {
                    lemma_grows_len(sub, s1.subst());
                }
                let err = self.unify(e1, e2, span);
                proof {
                    lemma_outcome_chain(
                        s0,
                        s1,
                        *self,
                        unify_spec(sub, o1.view_ty(), o2.view_ty()),
                        unify_spec(s1.subst(), e1.view_ty(), e2.view_ty()),
                        ok.view_ty(),
                        err.view_ty(),
                        Ty::Result(Box::new(ok.view_ty()), Box::new(err.view_ty())),
                        sp,
                    );
                }
                Type::Result(Box::new(ok), Box::new(err))
            },
            (Type::Iterator(x), Type::Iterator(y)) => {
                let elem = self.unify(x, y, span);
                Type::Iterator(Box::new(elem))
            },
            (Type::Schema(x), Type::Schema(y)) => {
                let inner = self.unify(x, y, span);
                Type::Schema(Box::new(inner))
            },
            (Type::Int, Type::Float) | (Type::Float, Type::Int) => {
                proof {
                    lemma_settled(s0, Ty::Float, sp);
                }
                Type::Float
            },
            _ => {
                proof {
                    if let (Type::Tuple(x), Type::Tuple(y)) = (a, b) {
                        lemma_views_of_index(x@);
                        lemma_views_of_index(y@);
                    }
                    if let (
                        Type::Function { params: p1, .. },
                        Type::Function { params: p2, .. },
                    ) = (a, b) {
                        lemma_views_of_index(p1@);
                        lemma_views_of_index(p2@);
                    }
                    if let (
                        Type::AsyncFunction { params: p1, .. },
                        Type::AsyncFunction { params: p2, .. },
                    ) = (a, b) {
                        lemma_views_of_index(p1@);
                        lemma_views_of_index(p2@);
                    }
                }
                let err = TypeError::unification_failed(&a.to_string(), &b.to_string(), span);
                self.error(err);
                proof {
                    lemma_u32_set_len(sub.dom());
                    lemma_appended_one(s0.error_list(), err, UnifyIssue::Mismatch(av, bv), sp);
                }
                Type::Error
            },
        }
    }

    /// Unify two lists of types position by position, left to right.
    fn unify_types(&mut self, xs: &Vec<Type>, ys: &Vec<Type>, span: Span) -> (r: Vec<Type>)
        requires
            old(self).wf(),
        ensures
            outcome_list(
                *old(self),
                *final(self),
                unify_lists(old(self).subst(), views_of(xs@), views_of(ys@)),
                views_of(r@),
                source_of(span),
            ),
        decreases 0x1_0000_0000 - old(self).subst().dom().len(), list_size(
            resolve_list(old(self).subst(), views_of(xs@)),
        ) + list_size(resolve_list(old(self).subst(), views_of(ys@))), 0nat,
    {
        let ghost s0 = *self;
        let ghost sub0 = self.subst();
        let ghost vx = views_of(xs@);
        let ghost vy = views_of(ys@);
        let ghost sp = source_of(span);
        let ghost total = unify_lists(sub0, vx, vy);
        let ghost mut done: Seq<UnifyIssue> = Seq::empty();
        proof {
            lemma_u32_set_len(sub0.dom());
            lemma_views_of_index(xs@);
            lemma_views_of_index(ys@);
            lemma_resolve_list_index(sub0, vx);
            lemma_resolve_list_index(sub0, vy);
            lemma_settled(s0, Ty::Error, sp);
            assert(vx.skip(0) =~= vx);
            assert(vy.skip(0) =~= vy);
            assert(views_of(Seq::<Type>::empty()) =~= Seq::<Ty>::empty());
        }
        let mut out: Vec<Type> = Vec::new();
        let mut i: usize = 0;
        let n = if xs.len() < ys.len() {
            xs.len()
        } else {
            ys.len()
        };
        while i < n
            invariant
                self.wf(),
                self.same_but_inference(&s0),
                s0 == *old(self),
                sub0 == s0.subst(),
                sp == source_of(span),
                sound_sub(sub0),
                grows(sub0, self.subst()),
                n <= xs.len(),
                n <= ys.len(),
                n == xs.len() || n == ys.len(),
                i <= n,
                vx == views_of(xs@),
                vy == views_of(ys@),
                vx.len() == xs.len(),
                vy.len() == ys.len(),
                forall|k: int| 0 <= k < xs.len() ==> #[trigger] vx[k] == xs@[k].view_ty(),
                forall|k: int| 0 <= k < ys.len() ==> #[trigger] vy[k] == ys@[k].view_ty(),
                resolve_list(sub0, vx).len() == vx.len(),
                resolve_list(sub0, vy).len() == vy.len(),
                forall|k: int| 0 <= k < vx.len() ==> #[trigger] resolve_list(sub0, vx)[k]
                    == resolve_ty(sub0, vx[k]),
                forall|k: int| 0 <= k < vy.len() ==> #[trigger] resolve_list(sub0, vy)[k]
                    == resolve_ty(sub0, vy[k]),
                total == unify_lists(sub0, vx, vy),
                appended(s0.error_list(), self.error_list(), done, sp),
                total.tys == views_of(out@) + unify_lists(
                    self.subst(),
                    vx.skip(i as int),
                    vy.skip(i as int),
                ).tys,
                total.sub == unify_lists(self.subst(), vx.skip(i as int), vy.skip(i as int)).sub,
                total.issues == done + unify_lists(
                    self.subst(),
                    vx.skip(i as int),
                    vy.skip(i as int),
                ).issues,
            decreases n - i,
        {
            let ghost cur = *self;
            let ghost csub = self.subst();
            proof {
                lemma_u32_set_len(csub.dom());
                lemma_grows_len(sub0, csub);
                lemma_list_size_elem(resolve_list(sub0, vx), i as int);
                lemma_list_size_elem(resolve_list(sub0, vy), i as int);
                assert(xs@[i as int].view_ty() == vx[i as int]);
                assert(ys@[i as int].view_ty() == vy[i as int]);
                assert(ty_size(resolve_ty(sub0, vx[i as int])) < list_size(resolve_list(sub0, vx)));
                assert(ty_size(resolve_ty(sub0, vy[i as int])) < list_size(resolve_list(sub0, vy)));
                if csub.dom().len() == sub0.dom().len() {
                    assert(csub == sub0);
                }
            }
            let t = self.unify(&xs[i], &ys[i], span);
            proof {
                let u0 = unify_spec(csub, vx[i as int], vy[i as int]);
                assert(outcome(cur, *self, u0, t.view_ty(), sp));
                let rx = vx.skip(i as int);
                let ry = vy.skip(i as int);
                assert(rx[0] == vx[i as int]);
                assert(ry[0] == vy[i as int]);
                assert(rx.drop_first() =~= vx.skip(i + 1));
                assert(ry.drop_first() =~= vy.skip(i + 1));
                let rest = unify_lists(u0.sub, vx.skip(i + 1), vy.skip(i + 1));
                assert(unify_lists(csub, rx, ry).tys == seq![u0.ty] + rest.tys);
                lemma_grows_trans(sub0, csub, self.subst());
                lemma_appended_trans(s0.error_list(), cur.error_list(), self.error_list(), done, u0.issues, sp);
                assert(done + u0.issues + rest.issues =~= done + (u0.issues + rest.issues));
                done = done + u0.issues;
                lemma_views_of_push(out@, t);
                assert(views_of(out@).push(t.view_ty()) + rest.tys =~= views_of(out@) + (seq![u0.ty] + rest.tys));
            }
            out.push(t);
            i += 1;
        }
        proof {
            assert(vx.skip(i as int).len() == 0 || vy.skip(i as int).len() == 0);
            assert(unify_lists(self.subst(), vx.skip(i as int), vy.skip(i as int)).tys =~= Seq::<Ty>::empty());
            assert(views_of(out@) + Seq::<Ty>::empty() =~= views_of(out@));
            assert(done + Seq::<UnifyIssue>::empty() =~= done);
        }
        out
    }
}

/// Unifying a type with itself changes nothing and gives the type resolved.
pub proof fn lemma_unify_reflexive(sub: Map<u32, Ty>, t: Ty)
    requires
        sound_sub(sub),
    ensures
        unify_spec(sub, t, t) == settled(sub, resolve_ty(sub, t)),
{
}

/// When unification binds an unbound variable to the other side, resolving the
/// variable afterwards gives that side, resolved.
pub proof fn lemma_unify_binds(sub: Map<u32, Ty>, v: u32, t: Ty)
    requires
        sound_sub(sub),
        !sub.contains_key(v),
        !occurs_in(v, resolve_ty(sub, t)),
        !(resolve_ty(sub, t) is Error),
        !(resolve_ty(sub, t) is Any),
        !(resolve_ty(sub, t) is Unknown),
        resolve_ty(sub, t) != Ty::TypeVar(v),
    ensures
        unify_spec(sub, Ty::TypeVar(v), t).sub == sub.insert(v, resolve_ty(sub, t)),
        unify_spec(sub, Ty::TypeVar(v), t).issues.len() == 0,
        acyclic(unify_spec(sub, Ty::TypeVar(v), t).sub),
        resolve_ty(unify_spec(sub, Ty::TypeVar(v), t).sub, Ty::TypeVar(v)) == resolve_ty(sub, t),
{
    let b = resolve_ty(sub, t);
    let a = Ty::TypeVar(v);
    assert(resolve_ty(sub, a) == a);
    lemma_resolve_no_bound(sub, t);
    let new = sub.insert(v, b);
    assert(unify_spec(sub, a, t) == bind_var(sub, v, b));
    let r0 = the_rank(sub);
    let r1 = |x: u32| if x == v { 0nat } else { r0(x) + 1 };
    assert forall|i: u32, j: u32|
        new.contains_key(i) && new.contains_key(j) && #[trigger] occurs_in(j, new[i]) implies r1(j)
        < r1(i) by {
        if i == v {
            assert(new[i] == b);
        } else {
            assert(new[i] == sub[i]);
            if j != v {
                assert(sub.contains_key(j));
            }
        }
    }
    assert(ranked(new, r1));
    assert(no_bound(new, b));
    lemma_resolve_fixed(new, b);
}

/// `is_subtype` holds between a type and itself.
pub proof fn lemma_subtype_reflexive(t: Ty)
    ensures
        subtype(t, t),
{
}

/// `types_compatible` holds between a type and itself.
pub proof fn lemma_compatible_reflexive(t: Ty)
    ensures
        compatible(t, t),
{
}


/// Unifying with an optional type, in either order, gives an optional type, unless
/// the other side is `None`, an error or a type variable; and when the other side is
/// no optional type and no `Any` or `Unknown`, the result is `Optional[U]` with `U`
/// what the inner type unifies with that side to.
pub proof fn lemma_unify_with_optional(sub: Map<u32, Ty>, x: Ty, t: Ty)
    requires
        sound_sub(sub),
        !(resolve_ty(sub, x) is NoneType),
        !(resolve_ty(sub, x) is Error),
        !(resolve_ty(sub, x) is TypeVar),
    ensures
        unify_spec(sub, x, Ty::Optional(Box::new(t))).ty is Optional,
        unify_spec(sub, Ty::Optional(Box::new(t)), x).ty is Optional,
        !(resolve_ty(sub, x) is Optional) && !(resolve_ty(sub, x) is Any) && !(resolve_ty(
            sub,
            x,
        ) is Unknown) ==> {
            &&& unify_spec(sub, x, Ty::Optional(Box::new(t))).ty == Ty::Optional(
                Box::new(unify_spec(sub, t, x).ty),
            )
            &&& unify_spec(sub, Ty::Optional(Box::new(t)), x).ty == Ty::Optional(
                Box::new(unify_spec(sub, t, x).ty),
            )
        },
{
    let o = Ty::Optional(Box::new(t));
    let a = resolve_ty(sub, x);
    let b = resolve_ty(sub, o);
    assert(b == Ty::Optional(Box::new(resolve_ty(sub, t))));
    lemma_resolve_idempotent(sub, t);
    lemma_resolve_idempotent(sub, x);
    assert(unify_spec(sub, resolve_ty(sub, t), a) == unify_spec(sub, t, x));
}

/// Two dict types are compatible exactly when their key types are compatible and
/// their value types are compatible.
pub proof fn lemma_compatible_dict(k1: Ty, v1: Ty, k2: Ty, v2: Ty)
    ensures
        compatible(Ty::Dict(Box::new(k1), Box::new(v1)), Ty::Dict(Box::new(k2), Box::new(v2)))
            <==> compatible(k1, k2) && compatible(v1, v2),
{
    lemma_compatible_reflexive(k1);
    lemma_compatible_reflexive(v1);
}


/// `Int` and `Float` unify, in either order, to `Float`, binding nothing and
/// reporting nothing.
pub proof fn lemma_unify_widens(sub: Map<u32, Ty>, x: Ty, y: Ty)
    requires
        sound_sub(sub),
        resolve_ty(sub, x) is Int,
        resolve_ty(sub, y) is Float,
    ensures
        unify_spec(sub, x, y) == settled(sub, Ty::Float),
        unify_spec(sub, y, x) == settled(sub, Ty::Float),
{
}

/// Two list types, and two set types, are compatible exactly when their element
/// types are.
pub proof fn lemma_compatible_elements(x: Ty, y: Ty)
    ensures
        compatible(Ty::List(Box::new(x)), Ty::List(Box::new(y))) <==> compatible(x, y),
        compatible(Ty::SetOf(Box::new(x)), Ty::SetOf(Box::new(y))) <==> compatible(x, y),
{
    lemma_compatible_reflexive(x);
}

} // verus!
