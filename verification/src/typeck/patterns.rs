//! Binding the variables of patterns: in `let` statements, `for` targets and
//! match arms.

use vstd::prelude::*;
use crate::typeck::context::{define_in, ScopeModel, SymbolModel, TypeContext};
use crate::typeck::error::Span;
use crate::typeck::types::{clone_type, element_ty, lemma_views_of_index, views_of, Ty, Type};

verus! {

/// A pattern: the parts of it that binding reads.
pub enum Pattern {
    /// `_`
    Wildcard,
    /// A variable, with the span of its name.
    Ident(String, Span),
    /// A literal value; checking one has no effect on the context.
    Literal,
    /// `(p1, p2, ...)`
    Tuple(Vec<Pattern>),
    /// `[p1, p2, ...]`
    List(Vec<Pattern>),
    /// `*rest`, with the span of its name.
    Rest(String, Span),
    /// `Name(p1, p2, ...)`: the argument patterns of a class pattern.
    Class(Vec<Pattern>),
    /// `p1 | p2 | ...`
    Or(Vec<Pattern>),
}

/// The element type a list pattern binds its parts to: the container's element,
/// or `Any`.
pub open spec fn element_or_any(t: Ty) -> Ty {
    match element_ty(t) {
        Some(e) => e,
        None => Ty::Any,
    }
}

/// The symbols binding `p` against type `t` defines, in order. A variable binds to
/// `t` and a rest pattern to a list of `t`; a list pattern binds its parts to the
/// element type; a class pattern binds its arguments to `Any`; an or-pattern binds
/// every alternative to `t`. A tuple pattern against a tuple type binds its parts
/// to the element types pairwise, as far as both go; against another type it binds
/// them to `Any`. When `strict` (match arms), a tuple pattern binds only against a
/// tuple type of its own length.
pub open spec fn pattern_binds(p: Pattern, t: Ty, mutable: bool, strict: bool) -> Seq<SymbolModel>
    decreases p,
{
    match p {
        Pattern::Wildcard => Seq::empty(),
        Pattern::Literal => Seq::empty(),
        Pattern::Ident(n, span) => seq![SymbolModel { name: n@, ty: t, mutable, span }],
        Pattern::Rest(n, span) => seq![SymbolModel { name: n@, ty: Ty::List(Box::new(t)), mutable, span }],
        Pattern::Tuple(ps) => match t {
            Ty::Tuple(ts) => if strict && ps@.len() != ts.len() {
                Seq::empty()
            } else {
                zip_binds(ps@, ts, mutable, strict)
            },
            _ => if strict {
                Seq::empty()
            } else {
                all_binds(ps@, Ty::Any, mutable, strict)
            },
        },
        Pattern::List(ps) => all_binds(ps@, element_or_any(t), mutable, strict),
        Pattern::Class(ps) => all_binds(ps@, Ty::Any, mutable, strict),
        Pattern::Or(ps) => all_binds(ps@, t, mutable, strict),
    }
}

/// The symbols binding each of `ps`, in order, against the same type defines.
pub open spec fn all_binds(ps: Seq<Pattern>, t: Ty, mutable: bool, strict: bool) -> Seq<SymbolModel>
    decreases ps,
{
    if ps.len() == 0 {
        Seq::empty()
    } else {
        all_binds(ps.drop_last(), t, mutable, strict) + pattern_binds(ps.last(), t, mutable, strict)
    }
}

/// The symbols binding `ps` pairwise against `ts`, as far as both go, defines.
pub open spec fn zip_binds(ps: Seq<Pattern>, ts: Seq<Ty>, mutable: bool, strict: bool) -> Seq<SymbolModel>
    decreases ps,
{
    if ps.len() == 0 {
        Seq::empty()
    } else if ps.len() > ts.len() {
        zip_binds(ps.drop_last(), ts, mutable, strict)
    } else {
        zip_binds(ps.drop_last(), ts, mutable, strict) + pattern_binds(
            ps.last(),
            ts[ps.len() - 1],
            mutable,
            strict,
        )
    }
}

/// The scopes after defining `syms` one after another in the innermost scope.
pub open spec fn define_all(scopes: Seq<ScopeModel>, syms: Seq<SymbolModel>) -> Seq<ScopeModel>
    decreases syms.len(),
{
    if syms.len() == 0 {
        scopes
    } else {
        let s = syms.last();
        define_in(define_all(scopes, syms.drop_last()), s.name, s)
    }
}

/// Defining two runs of symbols is defining their concatenation.
proof fn lemma_define_all_append(scopes: Seq<ScopeModel>, a: Seq<SymbolModel>, b: Seq<SymbolModel>)
    ensures
        define_all(define_all(scopes, a), b) == define_all(scopes, a + b),
    decreases b.len(),
{
    if b.len() == 0 {
        assert(a + b =~= a);
    } else {
        lemma_define_all_append(scopes, a, b.drop_last());
        assert((a + b).drop_last() =~= a + b.drop_last());
        assert((a + b).last() == b.last());
    }
}

/// Defining one symbol.
proof fn lemma_define_all_one(scopes: Seq<ScopeModel>, s: SymbolModel)
    ensures
        define_all(scopes, seq![s]) == define_in(scopes, s.name, s),
{
    assert(seq![s].drop_last() =~= Seq::<SymbolModel>::empty());
    assert(define_all(scopes, Seq::<SymbolModel>::empty()) == scopes);
    assert(seq![s].last() == s);
}

/// Pairing stops where the types run out.
proof fn lemma_zip_binds_prefix(ps: Seq<Pattern>, ts: Seq<Ty>, mutable: bool, strict: bool, k: int)
    requires
        ts.len() <= k <= ps.len(),
    ensures
        zip_binds(ps.take(k), ts, mutable, strict) == zip_binds(ps.take(ts.len() as int), ts, mutable, strict),
    decreases k,
{
    if k > ts.len() {
        assert(ps.take(k).drop_last() =~= ps.take(k - 1));
        lemma_zip_binds_prefix(ps, ts, mutable, strict, k - 1);
    }
}

impl TypeContext {
    /// The scopes are as `define_all` gives them from `old`, and nothing else changed.
    pub open spec fn bound_as(&self, old: &Self, syms: Seq<SymbolModel>) -> bool {
        &&& self.wf()
        &&& self.scope_stack() == define_all(old.scope_stack(), syms)
        &&& self.same_but_scopes(old)
    }

    /// Bind the variables of `pattern` against `ty`, as `pattern_binds` says.
    fn bind_pattern_as(&mut self, pattern: &Pattern, ty: &Type, mutable: bool, strict: bool)
        requires
            old(self).wf(),
        ensures
            final(self).bound_as(old(self), pattern_binds(*pattern, ty.view_ty(), mutable, strict)),
        decreases pattern,
    {
        match pattern {
            Pattern::Wildcard | Pattern::Literal => {},
            Pattern::Ident(n, span) => {
                self.define(n.clone(), clone_type(ty), mutable, *span);
                proof {
                    lemma_define_all_one(
                        old(self).scope_stack(),
                        SymbolModel { name: n@, ty: ty.view_ty(), mutable, span: *span },
                    );
                }
            },
            Pattern::Rest(n, span) => {
                self.define(n.clone(), Type::List(Box::new(clone_type(ty))), mutable, *span);
                proof {
                    lemma_define_all_one(
                        old(self).scope_stack(),
                        SymbolModel { name: n@, ty: Ty::List(Box::new(ty.view_ty())), mutable, span: *span },
                    );
                }
            },
            Pattern::Tuple(ps) => {
                if let Type::Tuple(elems) = ty {
                    proof {
                        lemma_views_of_index(elems@);
                    }
                    if strict && ps.len() != elems.len() {
                    } else {
                        self.bind_zip(ps, elems, mutable, strict);
                    }
                } else if strict {
                } else {
                    self.bind_each(ps, &Type::Any, mutable, strict);
                }
            },
            Pattern::List(ps) => {
                let elem = match ty.element_type() {
                    Some(e) => e,
                    None => Type::Any,
                };
                self.bind_each(ps, &elem, mutable, strict);
            },
            Pattern::Class(ps) => {
                self.bind_each(ps, &Type::Any, mutable, strict);
            },
            Pattern::Or(ps) => {
                self.bind_each(ps, ty, mutable, strict);
            },
        }
    }

    /// Bind each of `ps` against the same type, in order.
    fn bind_each(&mut self, ps: &Vec<Pattern>, ty: &Type, mutable: bool, strict: bool)
        requires
            old(self).wf(),
        ensures
            final(self).bound_as(old(self), all_binds(ps@, ty.view_ty(), mutable, strict)),
        decreases ps@,
    {
        let ghost s0 = *self;
        let ghost t = ty.view_ty();
        let mut i: usize = 0;
        assert(ps@.take(0) =~= Seq::<Pattern>::empty());
        while i < ps.len()
            invariant
                i <= ps.len(),
                s0.wf(),
                t == ty.view_ty(),
                self.bound_as(&s0, all_binds(ps@.take(i as int), t, mutable, strict)),
            decreases ps.len() - i,
        {
            let ghost before = *self;
            assert(decreases_to!(ps@ => ps@[i as int]));
            self.bind_pattern_as(&ps[i], ty, mutable, strict);
            proof {
                assert(ps@.take(i + 1).drop_last() =~= ps@.take(i as int));
                assert(ps@.take(i + 1).last() == ps@[i as int]);
                lemma_define_all_append(
                    s0.scope_stack(),
                    all_binds(ps@.take(i as int), t, mutable, strict),
                    pattern_binds(ps@[i as int], t, mutable, strict),
                );
            }
            i += 1;
        }
        assert(ps@.take(ps.len() as int) =~= ps@);
    }

    /// Bind `ps` pairwise against `tys`, as far as both go.
    fn bind_zip(&mut self, ps: &Vec<Pattern>, tys: &Vec<Type>, mutable: bool, strict: bool)
        requires
            old(self).wf(),
        ensures
            final(self).bound_as(old(self), zip_binds(ps@, views_of(tys@), mutable, strict)),
        decreases ps@,
    {
        let ghost s0 = *self;
        let ghost ts = views_of(tys@);
        proof {
            lemma_views_of_index(tys@);
        }
        let n = if ps.len() <= tys.len() {
            ps.len()
        } else {
            tys.len()
        };
        let mut i: usize = 0;
        assert(ps@.take(0) =~= Seq::<Pattern>::empty());
        while i < n
            invariant
                i <= n,
                n <= ps.len(),
                n <= tys.len(),
                n == ps.len() || n == tys.len(),
                s0.wf(),
                ts == views_of(tys@),
                ts.len() == tys.len(),
                forall|k: int| 0 <= k < tys.len() ==> #[trigger] ts[k] == tys@[k].view_ty(),
                self.bound_as(&s0, zip_binds(ps@.take(i as int), ts, mutable, strict)),
            decreases n - i,
        {
            assert(decreases_to!(ps@ => ps@[i as int]));
            self.bind_pattern_as(&ps[i], &tys[i], mutable, strict);
            proof {
                assert(ps@.take(i + 1).drop_last() =~= ps@.take(i as int));
                assert(ps@.take(i + 1).last() == ps@[i as int]);
                assert(ts[i as int] == tys@[i as int].view_ty());
                lemma_define_all_append(
                    s0.scope_stack(),
                    zip_binds(ps@.take(i as int), ts, mutable, strict),
                    pattern_binds(ps@[i as int], ts[i as int], mutable, strict),
                );
            }
            i += 1;
        }
        proof {
            if n == ps.len() {
                assert(ps@.take(n as int) =~= ps@);
            } else {
                assert(ps@.take(ps.len() as int) =~= ps@);
                lemma_zip_binds_prefix(ps@, ts, mutable, strict, ps.len() as int);
            }
        }
    }

    /// Bind the variables of a `let` pattern against `ty`, each with the given
    /// mutability.
    pub fn bind_let_pattern(&mut self, pattern: &Pattern, ty: &Type, mutable: bool)
        requires
            old(self).wf(),
        ensures
            final(self).bound_as(old(self), pattern_binds(*pattern, ty.view_ty(), mutable, false)),
    {
        self.bind_pattern_as(pattern, ty, mutable, false);
    }

    /// Bind the variables of a pattern (a `for` target) against `ty`, as mutable
    /// bindings.
    pub fn bind_pattern(&mut self, pattern: &Pattern, ty: &Type)
        requires
            old(self).wf(),
        ensures
            final(self).bound_as(old(self), pattern_binds(*pattern, ty.view_ty(), true, false)),
    {
        self.bind_pattern_as(pattern, ty, true, false);
    }

    /// Check a match arm's pattern against the subject's type and bind its
    /// variables, as mutable bindings; a tuple pattern binds only against a tuple
    /// type of its own length.
    pub fn check_pattern(&mut self, pattern: &Pattern, expected_ty: &Type)
        requires
            old(self).wf(),
        ensures
            final(self).bound_as(old(self), pattern_binds(*pattern, expected_ty.view_ty(), true, true)),
    {
        self.bind_pattern_as(pattern, expected_ty, true, true);
    }
}

} // verus!
