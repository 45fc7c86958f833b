//! Type annotations as written in source, and what they denote.

use vstd::prelude::*;
use crate::stdlib::text::{owned, same_text};
use crate::typeck::context::TypeContext;
use crate::typeck::operators::simple_type;
use crate::typeck::types::{Ty, Type, clone_type, lemma_views_of_index, views_of};
use crate::typeck::unify::{lemma_occurs_list_elem, occurs_in, occurs_in_list};

verus! {

/// A type annotation: the parts of it that resolving reads.
#[derive(Debug)]
pub enum TypeExpr {
    /// A plain name: `Int`, `Point`.
    Name(String),
    /// A name with type arguments: `List[Int]`, `Dict[Str, Int]`.
    Generic(String, Vec<TypeExpr>),
    /// Alternatives: `Int | Str`.
    Union(Vec<TypeExpr>),
    /// `T?`.
    Optional(Box<TypeExpr>),
    /// A callable: `(P1, P2) -> R`.
    Callable(Vec<TypeExpr>, Box<TypeExpr>),
    /// `(T1, T2)`.
    Tuple(Vec<TypeExpr>),
}

/// The type named `name` applied to `args`: the built-in containers when the
/// number of arguments fits, any other name a class.
pub open spec fn generic_type(name: Seq<char>, args: Seq<Ty>) -> Ty {
    if name == "List"@ && args.len() == 1 {
        Ty::List(Box::new(args[0]))
    } else if name == "Dict"@ && args.len() == 2 {
        Ty::Dict(Box::new(args[0]), Box::new(args[1]))
    } else if name == "Set"@ && args.len() == 1 {
        Ty::SetOf(Box::new(args[0]))
    } else if name == "Tuple"@ {
        Ty::Tuple(args)
    } else if name == "Optional"@ && args.len() == 1 {
        Ty::Optional(Box::new(args[0]))
    } else if name == "Result"@ && args.len() == 2 {
        Ty::Result(Box::new(args[0]), Box::new(args[1]))
    } else if name == "Schema"@ && args.len() == 1 {
        Ty::Schema(Box::new(args[0]))
    } else if name == "Iterator"@ && args.len() == 1 {
        Ty::Iterator(Box::new(args[0]))
    } else {
        Ty::Class(name)
    }
}

/// The type an annotation denotes, given the names of the registered structs,
/// classes and agents.
pub open spec fn denoted(
    te: TypeExpr,
    structs: Set<Seq<char>>,
    classes: Set<Seq<char>>,
    agents: Set<Seq<char>>,
) -> Ty
    decreases te,
{
    match te {
        TypeExpr::Name(n) => simple_type(n@, structs, classes, agents),
        TypeExpr::Generic(n, args) => generic_type(n@, denoted_list(args@, structs, classes, agents)),
        TypeExpr::Union(ts) => {
            let rs = denoted_list(ts@, structs, classes, agents);
            if rs.len() == 1 {
                rs[0]
            } else {
                Ty::Union(rs)
            }
        },
        TypeExpr::Optional(inner) => Ty::Optional(Box::new(denoted(*inner, structs, classes, agents))),
        TypeExpr::Callable(ps, ret) => Ty::Function {
            params: denoted_list(ps@, structs, classes, agents),
            ret: Box::new(denoted(*ret, structs, classes, agents)),
        },
        TypeExpr::Tuple(ts) => Ty::Tuple(denoted_list(ts@, structs, classes, agents)),
    }
}

/// The types a list of annotations denotes, in order.
pub open spec fn denoted_list(
    s: Seq<TypeExpr>,
    structs: Set<Seq<char>>,
    classes: Set<Seq<char>>,
    agents: Set<Seq<char>>,
) -> Seq<Ty>
    decreases s,
{
    if s.len() == 0 {
        Seq::empty()
    } else {
        seq![denoted(s[0], structs, classes, agents)] + denoted_list(s.drop_first(), structs, classes, agents)
    }
}

/// The list's denotations, position by position.
pub proof fn lemma_denoted_list_index(
    s: Seq<TypeExpr>,
    structs: Set<Seq<char>>,
    classes: Set<Seq<char>>,
    agents: Set<Seq<char>>,
)
    ensures
        denoted_list(s, structs, classes, agents).len() == s.len(),
        forall|i: int|
            0 <= i < s.len() ==> #[trigger] denoted_list(s, structs, classes, agents)[i] == denoted(
                s[i],
                structs,
                classes,
                agents,
            ),
    decreases s.len(),
{
    if s.len() > 0 {
        lemma_denoted_list_index(s.drop_first(), structs, classes, agents);
        assert forall|i: int| 0 <= i < s.len() implies #[trigger] denoted_list(
            s,
            structs,
            classes,
            agents,
        )[i] == denoted(s[i], structs, classes, agents) by {
            if i > 0 {
                assert(s.drop_first()[i - 1] == s[i]);
            }
        }
    }
}

/// An annotation denotes a type with no type variable in it.
pub proof fn lemma_denoted_closed(
    te: TypeExpr,
    structs: Set<Seq<char>>,
    classes: Set<Seq<char>>,
    agents: Set<Seq<char>>,
    id: u32,
)
    ensures
        !occurs_in(id, denoted(te, structs, classes, agents)),
    decreases te,
{
    match te {
        TypeExpr::Name(n) => {},
        TypeExpr::Generic(n, args) => {
            let rs = denoted_list(args@, structs, classes, agents);
            lemma_denoted_list_closed(args@, structs, classes, agents, id);
            if rs.len() >= 1 && occurs_in(id, rs[0]) {
                lemma_occurs_list_elem(id, rs, 0);
            }
            if rs.len() >= 2 && occurs_in(id, rs[1]) {
                lemma_occurs_list_elem(id, rs, 1);
            }
        },
        TypeExpr::Union(ts) => {
            let rs = denoted_list(ts@, structs, classes, agents);
            lemma_denoted_list_closed(ts@, structs, classes, agents, id);
            if rs.len() == 1 && occurs_in(id, rs[0]) {
                lemma_occurs_list_elem(id, rs, 0);
            }
        },
        TypeExpr::Optional(inner) => {
            lemma_denoted_closed(*inner, structs, classes, agents, id);
        },
        TypeExpr::Callable(ps, ret) => {
            lemma_denoted_list_closed(ps@, structs, classes, agents, id);
            lemma_denoted_closed(*ret, structs, classes, agents, id);
        },
        TypeExpr::Tuple(ts) => {
            lemma_denoted_list_closed(ts@, structs, classes, agents, id);
        },
    }
}

/// A list of annotations denotes types with no type variable in them.
pub proof fn lemma_denoted_list_closed(
    s: Seq<TypeExpr>,
    structs: Set<Seq<char>>,
    classes: Set<Seq<char>>,
    agents: Set<Seq<char>>,
    id: u32,
)
    ensures
        !occurs_in_list(id, denoted_list(s, structs, classes, agents)),
    decreases s,
{
    if s.len() > 0 {
        let d = denoted_list(s, structs, classes, agents);
        lemma_denoted_closed(s[0], structs, classes, agents, id);
        lemma_denoted_list_closed(s.drop_first(), structs, classes, agents, id);
        assert(d.drop_first() =~= denoted_list(s.drop_first(), structs, classes, agents));
    }
}

impl TypeContext {
    /// The type an annotation denotes: names as `resolve_simple_type` reads them,
    /// the built-in generic containers, unions (one alternative stands for itself),
    /// optionals, callables and tuples. Nothing in the context changes.
    pub fn resolve_type_expr(&mut self, type_expr: &TypeExpr) -> (r: Type)
        ensures
            *final(self) == *old(self),
            r.view_ty() == denoted(
                *type_expr,
                old(self).struct_table().dom(),
                old(self).class_table().dom(),
                old(self).agent_table().dom(),
            ),
        decreases type_expr,
    {
        match type_expr {
            TypeExpr::Name(n) => self.resolve_simple_type(n.as_str()),
            TypeExpr::Generic(n, args) => {
                let ts = self.resolve_type_exprs(args);
                self.generic(n.as_str(), ts)
            },
            TypeExpr::Union(alternatives) => {
                let mut ts = self.resolve_type_exprs(alternatives);
                proof {
                    lemma_views_of_index(ts@);
                }
                if ts.len() == 1 {
                    ts.remove(0)
                } else {
                    Type::Union(ts)
                }
            },
            TypeExpr::Optional(inner) => Type::Optional(Box::new(self.resolve_type_expr(inner))),
            TypeExpr::Callable(ps, ret) => {
                let params = self.resolve_type_exprs(ps);
                let ret = self.resolve_type_expr(ret);
                Type::Function { params, ret: Box::new(ret) }
            },
            TypeExpr::Tuple(ts) => Type::Tuple(self.resolve_type_exprs(ts)),
        }
    }

    /// The types a list of annotations denotes, in order.
    fn resolve_type_exprs(&mut self, exprs: &Vec<TypeExpr>) -> (r: Vec<Type>)
        ensures
            *final(self) == *old(self),
            views_of(r@) == denoted_list(
                exprs@,
                old(self).struct_table().dom(),
                old(self).class_table().dom(),
                old(self).agent_table().dom(),
            ),
        decreases exprs@,
    {
        let ghost structs = self.struct_table().dom();
        let ghost classes = self.class_table().dom();
        let ghost agents = self.agent_table().dom();
        let ghost s0 = *self;
        let mut out: Vec<Type> = Vec::new();
        let mut i: usize = 0;
        while i < exprs.len()
            invariant
                i <= exprs.len(),
                *self == s0,
                structs == s0.struct_table().dom(),
                classes == s0.class_table().dom(),
                agents == s0.agent_table().dom(),
                out.len() == i,
                forall|k: int|
                    0 <= k < i ==> #[trigger] out@[k].view_ty() == denoted(
                        exprs@[k],
                        structs,
                        classes,
                        agents,
                    ),
            decreases exprs.len() - i,
        {
            assert(decreases_to!(exprs@ => exprs@[i as int]));
            let t = self.resolve_type_expr(&exprs[i]);
            out.push(t);
            i += 1;
        }
        proof {
            lemma_views_of_index(out@);
            lemma_denoted_list_index(exprs@, structs, classes, agents);
            assert(views_of(out@) =~= denoted_list(exprs@, structs, classes, agents));
        }
        out
    }

    /// `name[args]` for already resolved arguments.
    fn generic(&self, name: &str, args: Vec<Type>) -> (r: Type)
        ensures
            r.view_ty() == generic_type(name@, views_of(args@)),
    {
        proof {
            lemma_views_of_index(args@);
        }
        let n = args.len();
        if same_text(name, "List") && n == 1 {
            Type::List(Box::new(clone_type(&args[0])))
        } else if same_text(name, "Dict") && n == 2 {
            Type::Dict(Box::new(clone_type(&args[0])), Box::new(clone_type(&args[1])))
        } else if same_text(name, "Set") && n == 1 {
            Type::SetOf(Box::new(clone_type(&args[0])))
        } else if same_text(name, "Tuple") {
            Type::Tuple(args)
        } else if same_text(name, "Optional") && n == 1 {
            Type::Optional(Box::new(clone_type(&args[0])))
        } else if same_text(name, "Result") && n == 2 {
            Type::Result(Box::new(clone_type(&args[0])), Box::new(clone_type(&args[1])))
        } else if same_text(name, "Schema") && n == 1 {
            Type::Schema(Box::new(clone_type(&args[0])))
        } else if same_text(name, "Iterator") && n == 1 {
            Type::Iterator(Box::new(clone_type(&args[0])))
        } else {
            Type::Class(owned(name))
        }
    }
}

} // verus!
