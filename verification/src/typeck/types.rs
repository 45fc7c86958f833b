//! Type representations for A16 and their mathematical model.

use vstd::prelude::*;
use crate::stdlib::text::{decimal, push_decimal, push_str, same_text};

verus! {

/// Unique identifier for type variables during inference.
pub type TypeVarId = u32;

/// An A16 type.
#[derive(Debug)]
pub enum Type {
    /// Arbitrary precision integer
    Int,
    /// 64-bit floating point
    Float,
    /// Boolean
    Bool,
    /// Unicode string
    Str,
    /// Byte sequence
    Bytes,
    /// Null type
    NoneType,
    /// Mutable list: List[T]
    List(Box<Type>),
    /// Dictionary: Dict[K, V]
    Dict(Box<Type>, Box<Type>),
    /// Mutable set: Set[T]
    SetOf(Box<Type>),
    /// Immutable tuple: Tuple[T1, T2, ...]
    Tuple(Vec<Type>),
    /// Optional type: Optional[T] = T | None
    Optional(Box<Type>),
    /// Union type: Union[T1, T2, ...]
    Union(Vec<Type>),
    /// Function type: (P1, P2, ...) -> R
    Function { params: Vec<Type>, ret: Box<Type> },
    /// Async function type: async (P1, P2, ...) -> R
    AsyncFunction { params: Vec<Type>, ret: Box<Type> },
    /// Named agent type
    Agent(String),
    /// Named tool type
    Tool(String),
    /// Named memory type
    Memory(String),
    /// Named prompt type
    Prompt(String),
    /// Chat message
    Message,
    /// Execution context
    Context,
    /// Token budget allocation
    TokenBudget,
    /// Model response
    ModelResponse,
    /// Vector embedding
    Embedding,
    /// Structured output schema
    Schema(Box<Type>),
    /// Class type
    Class(String),
    /// Struct type
    Struct(String),
    /// Enum type
    Enum(String),
    /// Unification type variable (for inference)
    TypeVar(TypeVarId),
    /// Unknown type (for gradual typing - accepts anything)
    Unknown,
    /// Dynamic type (explicit Any annotation)
    Any,
    /// Error placeholder (for recovery after type errors)
    Error,
    /// Never type (for functions that don't return)
    Never,
    /// Iterator type
    Iterator(Box<Type>),
    /// Result type: Result[T, E]
    Result(Box<Type>, Box<Type>),
    /// Raw pointer type (for FFI)
    Ptr,
    /// Extern function declaration type
    ExternFunc { lib_name: String, params: Vec<Type>, ret: Box<Type> },
}

/// The mathematical model of a type: the same shape, with names as character
/// sequences and type lists as sequences.
pub enum Ty {
    Int,
    Float,
    Bool,
    Str,
    Bytes,
    NoneType,
    List(Box<Ty>),
    Dict(Box<Ty>, Box<Ty>),
    SetOf(Box<Ty>),
    Tuple(Seq<Ty>),
    Optional(Box<Ty>),
    Union(Seq<Ty>),
    Function { params: Seq<Ty>, ret: Box<Ty> },
    AsyncFunction { params: Seq<Ty>, ret: Box<Ty> },
    Agent(Seq<char>),
    Tool(Seq<char>),
    Memory(Seq<char>),
    Prompt(Seq<char>),
    Message,
    Context,
    TokenBudget,
    ModelResponse,
    Embedding,
    Schema(Box<Ty>),
    Class(Seq<char>),
    Struct(Seq<char>),
    Enum(Seq<char>),
    TypeVar(TypeVarId),
    Unknown,
    Any,
    Error,
    Never,
    Iterator(Box<Ty>),
    Result(Box<Ty>, Box<Ty>),
    Ptr,
    ExternFunc { lib_name: Seq<char>, params: Seq<Ty>, ret: Box<Ty> },
}

/// The models of a list of types.
pub open spec fn views_of(s: Seq<Type>) -> Seq<Ty>
    decreases s,
{
    if s.len() == 0 {
        Seq::empty()
    } else {
        seq![s[0].view_ty()] + views_of(s.drop_first())
    }
}

impl Type {
    /// The model of this type.
    pub open spec fn view_ty(self) -> Ty
        decreases self,
    {
        match self {
            Type::Int => Ty::Int,
            Type::Float => Ty::Float,
            Type::Bool => Ty::Bool,
            Type::Str => Ty::Str,
            Type::Bytes => Ty::Bytes,
            Type::NoneType => Ty::NoneType,
            Type::List(e) => Ty::List(Box::new(e.view_ty())),
            Type::Dict(k, v) => Ty::Dict(Box::new(k.view_ty()), Box::new(v.view_ty())),
            Type::SetOf(e) => Ty::SetOf(Box::new(e.view_ty())),
            Type::Tuple(es) => Ty::Tuple(views_of(es@)),
            Type::Optional(e) => Ty::Optional(Box::new(e.view_ty())),
            Type::Union(es) => Ty::Union(views_of(es@)),
            Type::Function { params, ret } => Ty::Function {
                params: views_of(params@),
                ret: Box::new(ret.view_ty()),
            },
            Type::AsyncFunction { params, ret } => Ty::AsyncFunction {
                params: views_of(params@),
                ret: Box::new(ret.view_ty()),
            },
            Type::Agent(n) => Ty::Agent(n@),
            Type::Tool(n) => Ty::Tool(n@),
            Type::Memory(n) => Ty::Memory(n@),
            Type::Prompt(n) => Ty::Prompt(n@),
            Type::Message => Ty::Message,
            Type::Context => Ty::Context,
            Type::TokenBudget => Ty::TokenBudget,
            Type::ModelResponse => Ty::ModelResponse,
            Type::Embedding => Ty::Embedding,
            Type::Schema(e) => Ty::Schema(Box::new(e.view_ty())),
            Type::Class(n) => Ty::Class(n@),
            Type::Struct(n) => Ty::Struct(n@),
            Type::Enum(n) => Ty::Enum(n@),
            Type::TypeVar(id) => Ty::TypeVar(id),
            Type::Unknown => Ty::Unknown,
            Type::Any => Ty::Any,
            Type::Error => Ty::Error,
            Type::Never => Ty::Never,
            Type::Iterator(e) => Ty::Iterator(Box::new(e.view_ty())),
            Type::Result(a, b) => Ty::Result(Box::new(a.view_ty()), Box::new(b.view_ty())),
            Type::Ptr => Ty::Ptr,
            Type::ExternFunc { lib_name, params, ret } => Ty::ExternFunc {
                lib_name: lib_name@,
                params: views_of(params@),
                ret: Box::new(ret.view_ty()),
            },
        }
    }
}


/// Lists whose elements have the same models have the same models.
proof fn lemma_views_of_pointwise(a: Seq<Type>, b: Seq<Type>)
    requires
        a.len() == b.len(),
        forall|i: int| 0 <= i < a.len() ==> #[trigger] a[i].view_ty() == b[i].view_ty(),
    ensures
        views_of(a) == views_of(b),
    decreases a.len(),
{
    if a.len() > 0 {
        assert forall|i: int| 0 <= i < a.len() - 1 implies #[trigger] a.drop_first()[i].view_ty()
            == b.drop_first()[i].view_ty() by {
            assert(a[i + 1].view_ty() == b[i + 1].view_ty());
        }
        lemma_views_of_pointwise(a.drop_first(), b.drop_first());
        assert(a[0].view_ty() == b[0].view_ty());
        assert(views_of(a) == seq![a[0].view_ty()] + views_of(a.drop_first()));
        assert(views_of(b) == seq![b[0].view_ty()] + views_of(b.drop_first()));
    }
}

/// The model of a list of types, position by position.
pub proof fn lemma_views_of_index(s: Seq<Type>)
    ensures
        views_of(s).len() == s.len(),
        forall|i: int| 0 <= i < s.len() ==> #[trigger] views_of(s)[i] == s[i].view_ty(),
    decreases s.len(),
{
    if s.len() > 0 {
        lemma_views_of_index(s.drop_first());
        assert forall|i: int| 0 <= i < s.len() implies #[trigger] views_of(s)[i] == s[i].view_ty() by {
            if i > 0 {
                assert(s.drop_first()[i - 1] == s[i]);
            }
        }
    }
}

/// A copy of a list of types.
pub fn clone_types(v: &Vec<Type>) -> (r: Vec<Type>)
    ensures
        views_of(r@) == views_of(v@),
    decreases v@,
{
    let mut out: Vec<Type> = Vec::new();
    let mut i: usize = 0;
    while i < v.len()
        invariant
            i <= v.len(),
            out.len() == i,
            forall|k: int| 0 <= k < i ==> #[trigger] out@[k].view_ty() == v@[k].view_ty(),
        decreases v.len() - i,
    {
        assert(decreases_to!(v@ => v@[i as int]));
        let t = clone_type(&v[i]);
        out.push(t);
        i += 1;
    }
    proof {
        lemma_views_of_pointwise(out@, v@);
    }
    out
}

/// A copy of a type.
pub fn clone_type(t: &Type) -> (r: Type)
    ensures
        r.view_ty() == t.view_ty(),
    decreases t,
{
    match t {
        Type::Int => Type::Int,
        Type::Float => Type::Float,
        Type::Bool => Type::Bool,
        Type::Str => Type::Str,
        Type::Bytes => Type::Bytes,
        Type::NoneType => Type::NoneType,
        Type::List(e) => Type::List(Box::new(clone_type(e))),
        Type::Dict(k, v) => Type::Dict(Box::new(clone_type(k)), Box::new(clone_type(v))),
        Type::SetOf(e) => Type::SetOf(Box::new(clone_type(e))),
        Type::Tuple(es) => Type::Tuple(clone_types(es)),
        Type::Optional(e) => Type::Optional(Box::new(clone_type(e))),
        Type::Union(es) => Type::Union(clone_types(es)),
        Type::Function { params, ret } => Type::Function {
            params: clone_types(params),
            ret: Box::new(clone_type(ret)),
        },
        Type::AsyncFunction { params, ret } => Type::AsyncFunction {
            params: clone_types(params),
            ret: Box::new(clone_type(ret)),
        },
        Type::Agent(n) => Type::Agent(n.clone()),
        Type::Tool(n) => Type::Tool(n.clone()),
        Type::Memory(n) => Type::Memory(n.clone()),
        Type::Prompt(n) => Type::Prompt(n.clone()),
        Type::Message => Type::Message,
        Type::Context => Type::Context,
        Type::TokenBudget => Type::TokenBudget,
        Type::ModelResponse => Type::ModelResponse,
        Type::Embedding => Type::Embedding,
        Type::Schema(e) => Type::Schema(Box::new(clone_type(e))),
        Type::Class(n) => Type::Class(n.clone()),
        Type::Struct(n) => Type::Struct(n.clone()),
        Type::Enum(n) => Type::Enum(n.clone()),
        Type::TypeVar(id) => Type::TypeVar(*id),
        Type::Unknown => Type::Unknown,
        Type::Any => Type::Any,
        Type::Error => Type::Error,
        Type::Never => Type::Never,
        Type::Iterator(e) => Type::Iterator(Box::new(clone_type(e))),
        Type::Result(a, b) => Type::Result(Box::new(clone_type(a)), Box::new(clone_type(b))),
        Type::Ptr => Type::Ptr,
        Type::ExternFunc { lib_name, params, ret } => Type::ExternFunc {
            lib_name: lib_name.clone(),
            params: clone_types(params),
            ret: Box::new(clone_type(ret)),
        },
    }
}

impl Clone for Type {
    fn clone(&self) -> (r: Self)
        ensures
            r.view_ty() == self.view_ty(),
    {
        clone_type(self)
    }
}


/// Whether two lists of types are the same, element by element.
pub fn types_equal_list(a: &Vec<Type>, b: &Vec<Type>) -> (r: bool)
    ensures
        r == (views_of(a@) == views_of(b@)),
    decreases a@,
{
    proof {
        lemma_views_of_index(a@);
        lemma_views_of_index(b@);
    }
    if a.len() != b.len() {
        return false;
    }
    let mut i: usize = 0;
    while i < a.len()
        invariant
            i <= a.len(),
            a.len() == b.len(),
            views_of(a@).len() == a.len(),
            views_of(b@).len() == b.len(),
            forall|k: int| 0 <= k < a.len() ==> #[trigger] views_of(a@)[k] == a@[k].view_ty(),
            forall|k: int| 0 <= k < b.len() ==> #[trigger] views_of(b@)[k] == b@[k].view_ty(),
            forall|k: int| 0 <= k < i ==> #[trigger] a@[k].view_ty() == b@[k].view_ty(),
        decreases a.len() - i,
    {
        assert(decreases_to!(a@ => a@[i as int]));
        if !types_equal(&a[i], &b[i]) {
            assert(views_of(a@)[i as int] != views_of(b@)[i as int]);
            return false;
        }
        i += 1;
    }
    assert(views_of(a@) =~= views_of(b@));
    true
}

/// Whether two types are the same type.
pub fn types_equal(a: &Type, b: &Type) -> (r: bool)
    ensures
        r == (a.view_ty() == b.view_ty()),
    decreases a,
{
    match (a, b) {
        (Type::Int, Type::Int) => true,
        (Type::Float, Type::Float) => true,
        (Type::Bool, Type::Bool) => true,
        (Type::Str, Type::Str) => true,
        (Type::Bytes, Type::Bytes) => true,
        (Type::NoneType, Type::NoneType) => true,
        (Type::List(x), Type::List(y)) => types_equal(x, y),
        (Type::Dict(k1, v1), Type::Dict(k2, v2)) => types_equal(k1, k2) && types_equal(v1, v2),
        (Type::SetOf(x), Type::SetOf(y)) => types_equal(x, y),
        (Type::Tuple(x), Type::Tuple(y)) => types_equal_list(x, y),
        (Type::Optional(x), Type::Optional(y)) => types_equal(x, y),
        (Type::Union(x), Type::Union(y)) => types_equal_list(x, y),
        (Type::Function { params: p1, ret: r1 }, Type::Function { params: p2, ret: r2 }) =>
            types_equal_list(p1, p2) && types_equal(r1, r2),
        (
            Type::AsyncFunction { params: p1, ret: r1 },
            Type::AsyncFunction { params: p2, ret: r2 },
        ) => types_equal_list(p1, p2) && types_equal(r1, r2),
        (Type::Agent(x), Type::Agent(y)) => same_text(x.as_str(), y.as_str()),
        (Type::Tool(x), Type::Tool(y)) => same_text(x.as_str(), y.as_str()),
        (Type::Memory(x), Type::Memory(y)) => same_text(x.as_str(), y.as_str()),
        (Type::Prompt(x), Type::Prompt(y)) => same_text(x.as_str(), y.as_str()),
        (Type::Message, Type::Message) => true,
        (Type::Context, Type::Context) => true,
        (Type::TokenBudget, Type::TokenBudget) => true,
        (Type::ModelResponse, Type::ModelResponse) => true,
        (Type::Embedding, Type::Embedding) => true,
        (Type::Schema(x), Type::Schema(y)) => types_equal(x, y),
        (Type::Class(x), Type::Class(y)) => same_text(x.as_str(), y.as_str()),
        (Type::Struct(x), Type::Struct(y)) => same_text(x.as_str(), y.as_str()),
        (Type::Enum(x), Type::Enum(y)) => same_text(x.as_str(), y.as_str()),
        (Type::TypeVar(x), Type::TypeVar(y)) => *x == *y,
        (Type::Unknown, Type::Unknown) => true,
        (Type::Any, Type::Any) => true,
        (Type::Error, Type::Error) => true,
        (Type::Never, Type::Never) => true,
        (Type::Iterator(x), Type::Iterator(y)) => types_equal(x, y),
        (Type::Result(a1, b1), Type::Result(a2, b2)) => types_equal(a1, a2) && types_equal(b1, b2),
        (Type::Ptr, Type::Ptr) => true,
        (
            Type::ExternFunc { lib_name: l1, params: p1, ret: r1 },
            Type::ExternFunc { lib_name: l2, params: p2, ret: r2 },
        ) => same_text(l1.as_str(), l2.as_str()) && types_equal_list(p1, p2) && types_equal(r1, r2),
        _ => false,
    }
}

/// Models of a list of types, taken up to a position.
pub proof fn lemma_views_of_take(s: Seq<Type>, i: int)
    requires
        0 <= i <= s.len(),
    ensures
        views_of(s.take(i)) == views_of(s).take(i),
{
    lemma_views_of_index(s);
    lemma_views_of_index(s.take(i));
    assert(views_of(s.take(i)) =~= views_of(s).take(i));
}

/// An optional model.
pub open spec fn opt_ty(o: Option<Type>) -> Option<Ty> {
    match o {
        Some(t) => Some(t.view_ty()),
        None => None,
    }
}

/// The element type of a container model: lists, sets and iterators yield their
/// element, strings yield strings.
pub open spec fn element_ty(t: Ty) -> Option<Ty> {
    match t {
        Ty::List(e) => Some(*e),
        Ty::SetOf(e) => Some(*e),
        Ty::Iterator(e) => Some(*e),
        Ty::Str => Some(Ty::Str),
        _ => None,
    }
}

/// The return type of a function model.
pub open spec fn ret_of(t: Ty) -> Option<Ty> {
    match t {
        Ty::Function { ret, .. } => Some(*ret),
        Ty::AsyncFunction { ret, .. } => Some(*ret),
        _ => None,
    }
}

/// The parameter types of a function model.
pub open spec fn params_of(t: Ty) -> Option<Seq<Ty>> {
    match t {
        Ty::Function { params, .. } => Some(params),
        Ty::AsyncFunction { params, .. } => Some(params),
        _ => None,
    }
}

impl Type {
    /// Check if this type is a numeric type (Int or Float).
    pub fn is_numeric(&self) -> (r: bool)
        ensures
            r == (self is Int || self is Float),
    {
        match self {
            Type::Int | Type::Float => true,
            _ => false,
        }
    }

    /// Check if this type is a primitive type.
    pub fn is_primitive(&self) -> (r: bool)
        ensures
            r == (self is Int || self is Float || self is Bool || self is Str || self is Bytes
                || self is NoneType),
    {
        match self {
            Type::Int | Type::Float | Type::Bool | Type::Str | Type::Bytes | Type::NoneType => true,
            _ => false,
        }
    }

    /// Check if this type is callable.
    pub fn is_callable(&self) -> (r: bool)
        ensures
            r == (self is Function || self is AsyncFunction),
    {
        match self {
            Type::Function { .. } | Type::AsyncFunction { .. } => true,
            _ => false,
        }
    }

    /// Check if this type is iterable.
    pub fn is_iterable(&self) -> (r: bool)
        ensures
            r == (self is List || self is SetOf || self is Dict || self is Str || self is Tuple
                || self is Iterator),
    {
        match self {
            Type::List(_) | Type::SetOf(_) | Type::Dict(_, _) | Type::Str | Type::Tuple(_)
            | Type::Iterator(_) => true,
            _ => false,
        }
    }

    /// Get the element type if this is a container.
    pub fn element_type(&self) -> (r: Option<Type>)
        ensures
            opt_ty(r) == element_ty(self.view_ty()),
    {
        match self {
            Type::List(elem) => Some(clone_type(elem)),
            Type::SetOf(elem) => Some(clone_type(elem)),
            Type::Iterator(elem) => Some(clone_type(elem)),
            Type::Str => Some(Type::Str),
            _ => None,
        }
    }

    /// Check if this type allows None values.
    pub fn is_nullable(&self) -> (r: bool)
        ensures
            r == (self is Optional || self is NoneType || self is Any || self is Unknown),
    {
        match self {
            Type::Optional(_) | Type::NoneType | Type::Any | Type::Unknown => true,
            _ => false,
        }
    }

    /// Check if this type represents an error state.
    pub fn is_error(&self) -> (r: bool)
        ensures
            r == (self is Error),
    {
        match self {
            Type::Error => true,
            _ => false,
        }
    }

    /// Check if this type is a type variable.
    pub fn is_type_var(&self) -> (r: bool)
        ensures
            r == (self is TypeVar),
    {
        match self {
            Type::TypeVar(_) => true,
            _ => false,
        }
    }

    /// Get the return type if this is a function.
    pub fn return_type(&self) -> (r: Option<&Type>)
        ensures
            match r {
                Some(t) => ret_of(self.view_ty()) == Some(t.view_ty()),
                None => ret_of(self.view_ty()) is None,
            },
    {
        match self {
            Type::Function { ret, .. } | Type::AsyncFunction { ret, .. } => Some(ret),
            _ => None,
        }
    }

    /// Get the parameter types if this is a function.
    pub fn param_types(&self) -> (r: Option<&[Type]>)
        ensures
            match r {
                Some(ps) => params_of(self.view_ty()) == Some(views_of(ps@)),
                None => params_of(self.view_ty()) is None,
            },
    {
        match self {
            Type::Function { params, .. } | Type::AsyncFunction { params, .. } => Some(
                params.as_slice(),
            ),
            _ => None,
        }
    }
}


/// How a type is written: `Int`, `List[Int]`, `Dict[Str, Int]`, `Tuple[Int, Str]`,
/// `Optional[Int]`, unions as `A | B`, functions as `(A, B) -> R` (prefixed `async `),
/// `Agent[name]`, class/struct/enum names bare, type variables `T<id>`, unknown `?`,
/// errors `<error>`, externs `extern[lib](A) -> R`.
pub open spec fn display(t: Ty) -> Seq<char>
    decreases t,
{
    match t {
        Ty::Int => "Int"@,
        Ty::Float => "Float"@,
        Ty::Bool => "Bool"@,
        Ty::Str => "Str"@,
        Ty::Bytes => "Bytes"@,
        Ty::NoneType => "None"@,
        Ty::List(e) => "List["@ + display(*e) + "]"@,
        Ty::Dict(k, v) => "Dict["@ + display(*k) + ", "@ + display(*v) + "]"@,
        Ty::SetOf(e) => "Set["@ + display(*e) + "]"@,
        Ty::Tuple(es) => "Tuple["@ + display_list(es, ", "@) + "]"@,
        Ty::Optional(e) => "Optional["@ + display(*e) + "]"@,
        Ty::Union(es) => display_list(es, " | "@),
        Ty::Function { params, ret } => "("@ + display_list(params, ", "@) + ") -> "@ + display(*ret),
        Ty::AsyncFunction { params, ret } => "async ("@ + display_list(params, ", "@) + ") -> "@
            + display(*ret),
        Ty::Agent(n) => "Agent["@ + n + "]"@,
        Ty::Tool(n) => "Tool["@ + n + "]"@,
        Ty::Memory(n) => "Memory["@ + n + "]"@,
        Ty::Prompt(n) => "Prompt["@ + n + "]"@,
        Ty::Message => "Message"@,
        Ty::Context => "Context"@,
        Ty::TokenBudget => "TokenBudget"@,
        Ty::ModelResponse => "ModelResponse"@,
        Ty::Embedding => "Embedding"@,
        Ty::Schema(e) => "Schema["@ + display(*e) + "]"@,
        Ty::Class(n) => n,
        Ty::Struct(n) => n,
        Ty::Enum(n) => n,
        Ty::TypeVar(id) => "T"@ + decimal(id as nat),
        Ty::Unknown => "?"@,
        Ty::Any => "Any"@,
        Ty::Error => "<error>"@,
        Ty::Never => "Never"@,
        Ty::Iterator(e) => "Iterator["@ + display(*e) + "]"@,
        Ty::Result(a, b) => "Result["@ + display(*a) + ", "@ + display(*b) + "]"@,
        Ty::Ptr => "Ptr"@,
        Ty::ExternFunc { lib_name, params, ret } => "extern["@ + lib_name + "]("@ + display_list(
            params,
            ", "@,
        ) + ") -> "@ + display(*ret),
    }
}

/// The types of a list written one after another with `sep` between them.
pub open spec fn display_list(s: Seq<Ty>, sep: Seq<char>) -> Seq<char>
    decreases s,
{
    if s.len() == 0 {
        Seq::empty()
    } else if s.len() == 1 {
        display(s[0])
    } else {
        display_list(s.drop_last(), sep) + sep + display(s.last())
    }
}

/// Append the written form of each type of `v`, separated by `sep`.
fn write_types(r: &mut String, v: &Vec<Type>, sep: &str)
    ensures
        final(r)@ == old(r)@ + display_list(views_of(v@), sep@),
    decreases v@,
{
    let ghost start = r@;
    let mut i: usize = 0;
    proof {
        lemma_views_of_take(v@, 0);
        assert(views_of(v@).take(0) =~= Seq::<Ty>::empty());
        assert(start + Seq::<char>::empty() =~= start);
    }
    while i < v.len()
        invariant
            i <= v.len(),
            r@ == start + display_list(views_of(v@).take(i as int), sep@),
        decreases v.len() - i,
    {
        if i > 0 {
            push_str(r, sep);
        }
        assert(decreases_to!(v@ => v@[i as int]));
        write_type(r, &v[i]);
        proof {
            lemma_views_of_index(v@);
            let vs = views_of(v@);
            assert(vs.take(i + 1).drop_last() =~= vs.take(i as int));
            assert(vs.take(i + 1).last() == v@[i as int].view_ty());
            if i == 0 {
                assert(vs.take(1).len() == 1);
                assert(r@ =~= start + display_list(vs.take(i + 1), sep@));
            } else {
                assert(r@ =~= start + display_list(vs.take(i + 1), sep@));
            }
        }
        i += 1;
    }
    proof {
        lemma_views_of_index(v@);
        assert(views_of(v@).take(v.len() as int) =~= views_of(v@));
    }
}

/// Append the written form of a type.
pub fn write_type(r: &mut String, t: &Type)
    ensures
        final(r)@ == old(r)@ + display(t.view_ty()),
    decreases t,
{
    let ghost start = r@;
    match t {
        Type::Int => push_str(r, "Int"),
        Type::Float => push_str(r, "Float"),
        Type::Bool => push_str(r, "Bool"),
        Type::Str => push_str(r, "Str"),
        Type::Bytes => push_str(r, "Bytes"),
        Type::NoneType => push_str(r, "None"),
        Type::List(e) => {
            push_str(r, "List[");
            write_type(r, e);
            push_str(r, "]");
        },
        Type::Dict(k, v) => {
            push_str(r, "Dict[");
            write_type(r, k);
            push_str(r, ", ");
            write_type(r, v);
            push_str(r, "]");
        },
        Type::SetOf(e) => {
            push_str(r, "Set[");
            write_type(r, e);
            push_str(r, "]");
        },
        Type::Tuple(es) => {
            push_str(r, "Tuple[");
            write_types(r, es, ", ");
            push_str(r, "]");
        },
        Type::Optional(e) => {
            push_str(r, "Optional[");
            write_type(r, e);
            push_str(r, "]");
        },
        Type::Union(es) => {
            write_types(r, es, " | ");
        },
        Type::Function { params, ret } => {
            push_str(r, "(");
            write_types(r, params, ", ");
            push_str(r, ") -> ");
            write_type(r, ret);
        },
        Type::AsyncFunction { params, ret } => {
            push_str(r, "async (");
            write_types(r, params, ", ");
            push_str(r, ") -> ");
            write_type(r, ret);
        },
        Type::Agent(n) => {
            push_str(r, "Agent[");
            push_str(r, n.as_str());
            push_str(r, "]");
        },
        Type::Tool(n) => {
            push_str(r, "Tool[");
            push_str(r, n.as_str());
            push_str(r, "]");
        },
        Type::Memory(n) => {
            push_str(r, "Memory[");
            push_str(r, n.as_str());
            push_str(r, "]");
        },
        Type::Prompt(n) => {
            push_str(r, "Prompt[");
            push_str(r, n.as_str());
            push_str(r, "]");
        },
        Type::Message => push_str(r, "Message"),
        Type::Context => push_str(r, "Context"),
        Type::TokenBudget => push_str(r, "TokenBudget"),
        Type::ModelResponse => push_str(r, "ModelResponse"),
        Type::Embedding => push_str(r, "Embedding"),
        Type::Schema(e) => {
            push_str(r, "Schema[");
            write_type(r, e);
            push_str(r, "]");
        },
        Type::Class(n) => push_str(r, n.as_str()),
        Type::Struct(n) => push_str(r, n.as_str()),
        Type::Enum(n) => push_str(r, n.as_str()),
        Type::TypeVar(id) => {
            push_str(r, "T");
            push_decimal(r, *id as u64);
        },
        Type::Unknown => push_str(r, "?"),
        Type::Any => push_str(r, "Any"),
        Type::Error => push_str(r, "<error>"),
        Type::Never => push_str(r, "Never"),
        Type::Iterator(e) => {
            push_str(r, "Iterator[");
            write_type(r, e);
            push_str(r, "]");
        },
        Type::Result(a, b) => {
            push_str(r, "Result[");
            write_type(r, a);
            push_str(r, ", ");
            write_type(r, b);
            push_str(r, "]");
        },
        Type::Ptr => push_str(r, "Ptr"),
        Type::ExternFunc { lib_name, params, ret } => {
            push_str(r, "extern[");
            push_str(r, lib_name.as_str());
            push_str(r, "](");
            write_types(r, params, ", ");
            push_str(r, ") -> ");
            write_type(r, ret);
        },
    }
    assert(r@ =~= start + display(t.view_ty()));
}

impl Type {
    /// The written form of the type (see `display`).
    pub fn to_string(&self) -> (r: String)
        ensures
            r@ == display(self.view_ty()),
    {
        let mut r = String::new();
        write_type(&mut r, self);
        assert(Seq::<char>::empty() + display(self.view_ty()) =~= display(self.view_ty()));
        r
    }
}

/// Type information for a struct field.
#[derive(Debug)]
pub struct FieldInfo {
    pub name: String,
    pub ty: Type,
    pub has_default: bool,
}

/// The model of a field: its name, type and whether it has a default.
pub struct FieldModel {
    pub name: Seq<char>,
    pub ty: Ty,
    pub has_default: bool,
}

impl View for FieldInfo {
    type V = FieldModel;

    open spec fn view(&self) -> FieldModel {
        FieldModel { name: self.name@, ty: self.ty.view_ty(), has_default: self.has_default }
    }
}

/// The models of a list of fields.
pub open spec fn field_views(s: Seq<FieldInfo>) -> Seq<FieldModel> {
    s.map_values(|f: FieldInfo| f@)
}

/// The models of a list of named types.
pub open spec fn named_views(s: Seq<(String, Type)>) -> Seq<(Seq<char>, Ty)> {
    s.map_values(|p: (String, Type)| (p.0@, p.1.view_ty()))
}

/// The models of a list of names.
pub open spec fn name_views(s: Seq<String>) -> Seq<Seq<char>> {
    s.map_values(|n: String| n@)
}

/// An optional name, by its characters.
pub open spec fn opt_name(o: Option<String>) -> Option<Seq<char>> {
    match o {
        Some(n) => Some(n@),
        None => None,
    }
}

/// Type information for a defined struct.
#[derive(Debug)]
pub struct StructInfo {
    pub name: String,
    pub fields: Vec<FieldInfo>,
}

/// The model of a struct definition.
pub struct StructModel {
    pub name: Seq<char>,
    pub fields: Seq<FieldModel>,
}

impl View for StructInfo {
    type V = StructModel;

    open spec fn view(&self) -> StructModel {
        StructModel { name: self.name@, fields: field_views(self.fields@) }
    }
}

/// Type information for a defined class.
#[derive(Debug)]
pub struct ClassInfo {
    pub name: String,
    pub fields: Vec<FieldInfo>,
    pub methods: Vec<(String, Type)>,
    pub base: Option<String>,
}

/// The model of a class definition.
pub struct ClassModel {
    pub name: Seq<char>,
    pub fields: Seq<FieldModel>,
    pub methods: Seq<(Seq<char>, Ty)>,
    pub base: Option<Seq<char>>,
}

impl View for ClassInfo {
    type V = ClassModel;

    open spec fn view(&self) -> ClassModel {
        ClassModel {
            name: self.name@,
            fields: field_views(self.fields@),
            methods: named_views(self.methods@),
            base: opt_name(self.base),
        }
    }
}

/// Type information for an agent.
#[derive(Debug)]
pub struct AgentInfo {
    pub name: String,
    pub model_type: Option<Type>,
    pub tools: Vec<String>,
    pub tasks: Vec<(String, Type)>,
}

/// The model of an agent definition.
pub struct AgentModel {
    pub name: Seq<char>,
    pub model_type: Option<Ty>,
    pub tools: Seq<Seq<char>>,
    pub tasks: Seq<(Seq<char>, Ty)>,
}

impl View for AgentInfo {
    type V = AgentModel;

    open spec fn view(&self) -> AgentModel {
        AgentModel {
            name: self.name@,
            model_type: opt_ty(self.model_type),
            tools: name_views(self.tools@),
            tasks: named_views(self.tasks@),
        }
    }
}

/// Type information for a tool.
#[derive(Debug)]
pub struct ToolInfo {
    pub name: String,
    pub permissions: Vec<String>,
    pub execute_type: Option<Type>,
}

/// The model of a tool definition.
pub struct ToolModel {
    pub name: Seq<char>,
    pub permissions: Seq<Seq<char>>,
    pub execute_type: Option<Ty>,
}

impl View for ToolInfo {
    type V = ToolModel;

    open spec fn view(&self) -> ToolModel {
        ToolModel {
            name: self.name@,
            permissions: name_views(self.permissions@),
            execute_type: opt_ty(self.execute_type),
        }
    }
}

} // verus!
