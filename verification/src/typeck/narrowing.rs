//! Type narrowing for conditional checks such as `x is not None`.

use vstd::prelude::*;
use crate::stdlib::string::{before_first, before_first_seq, contains, trim, trim_seq};
use crate::stdlib::text::{matches_at, same_text};
use crate::typeck::types::{clone_type, views_of, lemma_views_of_index, opt_ty, Ty, Type};

verus! {

broadcast use vstd::string::group_string_axioms;

/// The variable and polarity a textual condition tests against `None`: `x is not None`
/// gives `(x, true)`, `x is None` gives `(x, false)`, anything else nothing. The
/// variable is the trimmed text before " is not None" (or " is None").
pub open spec fn none_check_of(desc: Seq<char>) -> Option<(Seq<char>, bool)> {
    if exists|i: int| matches_at(desc, "is not None"@, i) {
        Some((trim_seq(before_first_seq(desc, " is not None"@)), true))
    } else if exists|i: int| matches_at(desc, "is None"@, i) {
        Some((trim_seq(before_first_seq(desc, " is None"@)), false))
    } else {
        None
    }
}

/// Check if a condition's text is a `x is not None` or `x is None` pattern; returns
/// the variable name and whether the check is negated.
pub fn detect_none_check(condition_desc: &str) -> (r: Option<(String, bool)>)
    ensures
        match (r, none_check_of(condition_desc@)) {
            (Some((v, b)), Some((w, c))) => v@ == w && b == c,
            (None, None) => true,
            _ => false,
        },
{
    if contains(condition_desc, "is not None") {
        let var = before_first(condition_desc, " is not None");
        Some((trim(var.as_str()), true))
    } else if contains(condition_desc, "is None") {
        let var = before_first(condition_desc, " is None");
        Some((trim(var.as_str()), false))
    } else {
        None
    }
}


/// The model of one narrowing scope: variable names with their narrowed types.
pub open spec fn scope_view(sc: Seq<(String, Type)>) -> Seq<(Seq<char>, Ty)> {
    sc.map_values(|e: (String, Type)| (e.0@, e.1.view_ty()))
}

/// The type most recently recorded for `name` among the entries `flat`.
pub open spec fn latest(flat: Seq<(Seq<char>, Ty)>, name: Seq<char>) -> Option<Ty>
    decreases flat.len(),
{
    if flat.len() == 0 {
        None
    } else if flat.last().0 == name {
        Some(flat.last().1)
    } else {
        latest(flat.drop_last(), name)
    }
}

/// All entries of a stack of scopes, outermost first.
pub open spec fn flatten_scopes(scopes: Seq<Seq<(Seq<char>, Ty)>>) -> Seq<(Seq<char>, Ty)>
    decreases scopes.len(),
{
    if scopes.len() == 0 {
        Seq::empty()
    } else {
        flatten_scopes(scopes.drop_last()) + scopes.last()
    }
}

/// A narrowing context that tracks narrowed types within nested scopes.
#[derive(Debug)]
pub struct NarrowingContext {
    /// Stack of narrowing scopes: variable name -> narrowed type
    scopes: Vec<Vec<(String, Type)>>,
}

/// The model of a scope, entry by entry.
proof fn lemma_scope_view_index(sc: Seq<(String, Type)>)
    ensures
        scope_view(sc).len() == sc.len(),
        forall|k: int| 0 <= k < sc.len() ==> #[trigger] scope_view(sc)[k] == (sc[k].0@, sc[k].1.view_ty()),
{
}

/// Entries without the name do not change the latest entry for it.
proof fn lemma_latest_skip(a: Seq<(Seq<char>, Ty)>, b: Seq<(Seq<char>, Ty)>, name: Seq<char>)
    requires
        forall|k: int| 0 <= k < b.len() ==> (#[trigger] b[k]).0 != name,
    ensures
        latest(a + b, name) == latest(a, name),
    decreases b.len(),
{
    if b.len() > 0 {
        assert((a + b).drop_last() =~= a + b.drop_last());
        assert((a + b).last() == b.last());
        assert(b.last() == b[b.len() - 1]);
        lemma_latest_skip(a, b.drop_last(), name);
    } else {
        assert(a + b =~= a);
    }
}

impl NarrowingContext {
    /// The model: the stack of scopes, outermost first.
    pub closed spec fn view_scopes(&self) -> Seq<Seq<(Seq<char>, Ty)>> {
        self.scopes@.map_values(|sc: Vec<(String, Type)>| scope_view(sc@))
    }

    /// A context with one empty scope.
    pub fn new() -> (r: Self)
        ensures
            r.view_scopes() == seq![Seq::<(Seq<char>, Ty)>::empty()],
    {
        let mut scopes: Vec<Vec<(String, Type)>> = Vec::new();
        scopes.push(Vec::new());
        let r = NarrowingContext { scopes };
        assert(r.view_scopes() =~= seq![Seq::<(Seq<char>, Ty)>::empty()]) by {
            assert(scope_view(Seq::<(String, Type)>::empty()) =~= Seq::<(Seq<char>, Ty)>::empty());
        }
        r
    }

    /// Enter a new narrowing scope (e.g., inside an if-block).
    pub fn enter_scope(&mut self)
        ensures
            final(self).view_scopes() == old(self).view_scopes().push(Seq::empty()),
    {
        self.scopes.push(Vec::new());
        assert(self.view_scopes() =~= old(self).view_scopes().push(Seq::empty())) by {
            assert(scope_view(Seq::<(String, Type)>::empty()) =~= Seq::<(Seq<char>, Ty)>::empty());
        }
    }

    /// Exit the current narrowing scope (nothing happens when there is none).
    pub fn exit_scope(&mut self)
        ensures
            final(self).view_scopes() == if old(self).view_scopes().len() == 0 {
                old(self).view_scopes()
            } else {
                old(self).view_scopes().drop_last()
            },
    {
        let _ = self.scopes.pop();
        assert(self.view_scopes() =~= if old(self).view_scopes().len() == 0 {
            old(self).view_scopes()
        } else {
            old(self).view_scopes().drop_last()
        });
    }

    /// Add a narrowing for a variable in the current scope (ignored when there is no
    /// scope).
    pub fn narrow(&mut self, name: String, ty: Type)
        ensures
            final(self).view_scopes() == if old(self).view_scopes().len() == 0 {
                old(self).view_scopes()
            } else {
                old(self).view_scopes().drop_last().push(
                    old(self).view_scopes().last().push((name@, ty.view_ty())),
                )
            },
    {
        let n = self.scopes.len();
        if n > 0 {
            let ghost before = self.scopes@;
            let mut last = self.scopes.pop().unwrap();
            let ghost last_before = last@;
            last.push((name, ty));
            self.scopes.push(last);
            proof {
                assert(scope_view(last@) =~= scope_view(last_before).push((name@, ty.view_ty())));
                assert(self.scopes@ =~= before.drop_last().push(last));
                assert(before.last()@ == last_before);
                assert(self.view_scopes() =~= old(self).view_scopes().drop_last().push(
                    old(self).view_scopes().last().push((name@, ty.view_ty())),
                ));
            }
        }
    }
}


impl NarrowingContext {
    /// Look up the narrowed type for a variable: the most recent narrowing in the
    /// innermost scope that has one.
    pub fn get_narrowed(&self, name: &str) -> (r: Option<&Type>)
        ensures
            match r {
                Some(t) => latest(flatten_scopes(self.view_scopes()), name@) == Some(t.view_ty()),
                None => latest(flatten_scopes(self.view_scopes()), name@) is None,
            },
    {
        let ghost vs = self.view_scopes();
        let mut i: usize = self.scopes.len();
        assert(vs.take(i as int) =~= vs);
        while i > 0
            invariant
                i <= self.scopes.len(),
                vs == self.view_scopes(),
                latest(flatten_scopes(vs.take(i as int)), name@) == latest(flatten_scopes(vs), name@),
            decreases i,
        {
            let scope = &self.scopes[i - 1];
            let ghost sv = scope_view(scope@);
            assert(vs[i - 1] == sv);
            assert(vs.take(i as int).drop_last() =~= vs.take(i - 1));
            assert(vs.take(i as int).last() == sv);
            let ghost pre = flatten_scopes(vs.take(i - 1));
            let mut j: usize = scope.len();
            assert(sv.take(j as int) =~= sv);
            assert(flatten_scopes(vs.take(i as int)) == pre + sv);
            proof {
                lemma_scope_view_index(scope@);
            }
            while j > 0
                invariant
                    j <= scope.len(),
                    vs == self.view_scopes(),
                    sv == scope_view(scope@),
                    latest(pre + sv.take(j as int), name@) == latest(flatten_scopes(vs), name@),
                decreases j,
            {
                let entry = &scope[j - 1];
                assert(sv[j - 1] == (entry.0@, entry.1.view_ty()));
                let key = entry.0.as_str();
                assert(key@ == entry.0@);
                assert((pre + sv.take(j as int)).drop_last() =~= pre + sv.take(j - 1));
                assert((pre + sv.take(j as int)).last() == sv[j - 1]);
                if same_text(key, name) {
                    assert(latest(pre + sv.take(j as int), name@) == Some(entry.1.view_ty()));
                    return Some(&entry.1);
                }
                j -= 1;
            }
            assert(pre + sv.take(0) =~= pre);
            i -= 1;
        }
        assert(vs.take(0) =~= Seq::<Seq<(Seq<char>, Ty)>>::empty());
        None
    }
}

/// The type of a variable after a check against `None`: an optional narrows to its
/// inner type when the check is negated (`x is not None`) and to `None` otherwise; a
/// union loses its `None` members when negated (a single survivor stands alone, none
/// left gives `None`) and becomes `None` otherwise; other types do not narrow.
pub open spec fn narrowed(t: Ty, is_negated: bool) -> Option<Ty> {
    match t {
        Ty::Optional(inner) => if is_negated {
            Some(*inner)
        } else {
            Some(Ty::NoneType)
        },
        Ty::Union(variants) => if is_negated {
            let kept = variants.filter(|v: Ty| !(v is NoneType));
            if kept.len() == 0 {
                Some(Ty::NoneType)
            } else if kept.len() == 1 {
                Some(kept[0])
            } else {
                Some(Ty::Union(kept))
            }
        } else {
            Some(Ty::NoneType)
        },
        _ => None,
    }
}

/// Attempt to narrow a type based on a `None` check.
pub fn narrow_type_from_condition(original_ty: &Type, is_negated: bool) -> (r: Option<Type>)
    ensures
        opt_ty(r) == narrowed(original_ty.view_ty(), is_negated),
{
    match original_ty {
        Type::Optional(inner) => {
            if is_negated {
                Some(clone_type(inner))
            } else {
                Some(Type::NoneType)
            }
        },
        Type::Union(variants) => {
            if is_negated {
                let ghost pred = |v: Ty| !(v is NoneType);
                let ghost vs = views_of(variants@);
                let mut kept: Vec<Type> = Vec::new();
                let mut i: usize = 0;
                proof {
                    lemma_views_of_index(variants@);
                    assert(vs.take(0) =~= Seq::<Ty>::empty());
                    assert(views_of(kept@) =~= Seq::<Ty>::empty());
                }
                while i < variants.len()
                    invariant
                        i <= variants.len(),
                        vs == views_of(variants@),
                        pred == (|v: Ty| !(v is NoneType)),
                        vs.len() == variants.len(),
                        forall|k: int| 0 <= k < variants.len() ==> #[trigger] vs[k] == variants@[k].view_ty(),
                        views_of(kept@) == vs.take(i as int).filter(pred),
                    decreases variants.len() - i,
                {
                    proof {
                        assert(vs.take(i + 1) =~= vs.take(i as int).push(vs[i as int]));
                        vs.take(i as int).lemma_filter_push(vs[i as int], pred);
                    }
                    match &variants[i] {
                        Type::NoneType => {
                            assert(!pred(vs[i as int]));
                        },
                        v => {
                            assert(vs[i as int] == v.view_ty());
                            assert(!(v.view_ty() is NoneType));
                            assert(pred(vs[i as int]));
                            let c = clone_type(v);
                            let ghost before = kept@;
                            kept.push(c);
                            proof {
                                lemma_views_of_index(before);
                                lemma_views_of_index(kept@);
                                assert(views_of(kept@) =~= views_of(before).push(c.view_ty()));
                            }
                        },
                    }
                    i += 1;
                }
                assert(vs.take(variants.len() as int) =~= vs);
                proof {
                    lemma_views_of_index(kept@);
                }
                if kept.len() == 0 {
                    Some(Type::NoneType)
                } else if kept.len() == 1 {
                    Some(kept.pop().unwrap())
                } else {
                    Some(Type::Union(kept))
                }
            } else {
                Some(Type::NoneType)
            }
        },
        _ => None,
    }
}

} // verus!
