//! Typing of operators and of the methods of the built-in containers, and the
//! meaning of simple type names.

use vstd::prelude::*;
use crate::stdlib::text::{owned, same_text};
use crate::typeck::context::TypeContext;
use crate::typeck::error::{SourceSpan, Span, TypeError, source_of};
use crate::typeck::types::{Ty, Type, clone_type, display};
use crate::typeck::unify::{Unified, outcome, unify_spec};
use crate::typeck::builtins::{fn_ty, func, iter_of, iter_ty, list_of, list_ty, types0, types1, types2};

verus! {

/// A binary operator.
#[derive(Clone, Copy, Debug, PartialEq, Eq, Structural)]
pub enum BinaryOp {
    Add,
    Sub,
    Mul,
    Div,
    FloorDiv,
    Mod,
    Pow,
    BitAnd,
    BitOr,
    BitXor,
    Shl,
    Shr,
    And,
    Or,
}

/// A unary operator.
#[derive(Clone, Copy, Debug, PartialEq, Eq, Structural)]
pub enum UnaryOp {
    Neg,
    Pos,
    Not,
    BitNot,
}

/// `new` is `old` with one more error, reporting that operator `op` cannot be
/// applied to `l` and `r`.
pub open spec fn rejected_binop(
    old: TypeContext,
    new: TypeContext,
    op: Seq<char>,
    l: Ty,
    r: Ty,
    span: SourceSpan,
) -> bool {
    &&& new.wf()
    &&& new.same_but_inference(&old)
    &&& new.subst() == old.subst()
    &&& new.error_list().len() == old.error_list().len() + 1
    &&& new.error_list().drop_last() == old.error_list()
    &&& new.error_list().last() matches TypeError::InvalidBinOp { op: o, lhs, rhs, span: s }
    &&& o@ == op
    &&& lhs@ == display(l)
    &&& rhs@ == display(r)
    &&& s == span
}

/// `new` is `old` with one more error, reporting that unary operator `op` cannot
/// be applied to `t`.
pub open spec fn rejected_unop(old: TypeContext, new: TypeContext, op: Seq<char>, t: Ty, span: SourceSpan) -> bool {
    &&& new.wf()
    &&& new.same_but_inference(&old)
    &&& new.subst() == old.subst()
    &&& new.error_list().len() == old.error_list().len() + 1
    &&& new.error_list().drop_last() == old.error_list()
    &&& new.error_list().last() matches TypeError::InvalidUnOp { op: o, operand, span: s }
    &&& o@ == op
    &&& operand@ == display(t)
    &&& s == span
}

/// Whether a type stands for "anything" to the operators: `Any` or `Unknown`.
pub open spec fn loose(l: Ty, r: Ty) -> Option<Ty> {
    if l is Any || r is Any {
        Some(Ty::Any)
    } else if l is Unknown || r is Unknown {
        Some(Ty::Unknown)
    } else {
        None
    }
}

/// The type of `l + r` when neither side is a list: numbers add (an `Int` and a
/// `Float` give a `Float`), strings concatenate, `Any` and `Unknown` pass.
pub open spec fn add_type(l: Ty, r: Ty) -> Option<Ty> {
    match (l, r) {
        (Ty::Int, Ty::Int) => Some(Ty::Int),
        (Ty::Float, Ty::Float) => Some(Ty::Float),
        (Ty::Int, Ty::Float) => Some(Ty::Float),
        (Ty::Float, Ty::Int) => Some(Ty::Float),
        (Ty::Str, Ty::Str) => Some(Ty::Str),
        _ => loose(l, r),
    }
}

/// The type of `l op r` for subtraction and multiplication: numbers as for `+`,
/// and for `*` a string or a list repeated by an `Int`.
pub open spec fn numeric_type(op: BinaryOp, l: Ty, r: Ty) -> Option<Ty> {
    match (l, r) {
        (Ty::Int, Ty::Int) => Some(Ty::Int),
        (Ty::Float, Ty::Float) => Some(Ty::Float),
        (Ty::Int, Ty::Float) => Some(Ty::Float),
        (Ty::Float, Ty::Int) => Some(Ty::Float),
        _ => if loose(l, r) is Some {
            loose(l, r)
        } else if op is Mul {
            match (l, r) {
                (Ty::Str, Ty::Int) => Some(Ty::Str),
                (Ty::Int, Ty::Str) => Some(Ty::Str),
                (Ty::List(e), Ty::Int) => Some(Ty::List(e)),
                (Ty::Int, Ty::List(e)) => Some(Ty::List(e)),
                _ => None,
            }
        } else {
            None
        },
    }
}

/// How subtraction and multiplication are written in errors.
pub open spec fn numeric_text(op: BinaryOp) -> Seq<char> {
    match op {
        BinaryOp::Sub => "-"@,
        BinaryOp::Mul => "*"@,
        _ => "?"@,
    }
}

/// The type of `l / r`: numbers always divide to a `Float`.
pub open spec fn div_type(l: Ty, r: Ty) -> Option<Ty> {
    if (l is Int || l is Float) && (r is Int || r is Float) {
        Some(Ty::Float)
    } else {
        loose(l, r)
    }
}

/// The type of `l // r` and `l % r`: `Int` for two `Int`s, else `Float` for numbers.
pub open spec fn int_op_type(l: Ty, r: Ty) -> Option<Ty> {
    if l is Int && r is Int {
        Some(Ty::Int)
    } else if (l is Int || l is Float) && (r is Int || r is Float) {
        Some(Ty::Float)
    } else {
        loose(l, r)
    }
}

/// How floor division and remainder are written in errors.
pub open spec fn int_op_text(op: BinaryOp) -> Seq<char> {
    match op {
        BinaryOp::FloorDiv => "//"@,
        BinaryOp::Mod => "%"@,
        _ => "?"@,
    }
}

/// The type of `l ** r`: `Int` for two `Int`s, `Float` when either side is a `Float`.
pub open spec fn pow_type(l: Ty, r: Ty) -> Option<Ty> {
    if l is Int && r is Int {
        Some(Ty::Int)
    } else if l is Float || r is Float {
        Some(Ty::Float)
    } else {
        loose(l, r)
    }
}

/// The type of a bitwise operation: on two `Int`s or two `Bool`s.
pub open spec fn bitwise_type(l: Ty, r: Ty) -> Option<Ty> {
    if l is Int && r is Int {
        Some(Ty::Int)
    } else if l is Bool && r is Bool {
        Some(Ty::Bool)
    } else {
        loose(l, r)
    }
}

/// How the bitwise operators are written in errors.
pub open spec fn bitwise_text(op: BinaryOp) -> Seq<char> {
    match op {
        BinaryOp::BitAnd => "&"@,
        BinaryOp::BitOr => "|"@,
        BinaryOp::BitXor => "^"@,
        BinaryOp::Shl => "<<"@,
        BinaryOp::Shr => ">>"@,
        _ => "?"@,
    }
}

/// The type of `and` / `or` when no unification is needed.
pub open spec fn logical_type(l: Ty, r: Ty) -> Option<Ty> {
    if l is Bool && r is Bool {
        Some(Ty::Bool)
    } else {
        loose(l, r)
    }
}

/// The contract of a simple operator check: the type when `simple` gives one,
/// with nothing changed, else an error naming the operator.
pub open spec fn simple_check(
    old: TypeContext,
    new: TypeContext,
    simple: Option<Ty>,
    op: Seq<char>,
    l: Ty,
    r: Ty,
    span: SourceSpan,
    result: Ty,
) -> bool {
    match simple {
        Some(t) => result == t && new == old,
        None => result == Ty::Error && rejected_binop(old, new, op, l, r, span),
    }
}

/// The text of a numeric operator for errors.
fn numeric_op_text(op: BinaryOp) -> (r: &'static str)
    ensures
        r@ == numeric_text(op),
{
    match op {
        BinaryOp::Sub => "-",
        BinaryOp::Mul => "*",
        _ => "?",
    }
}

/// The text of an integer operator for errors.
fn int_op_text_of(op: BinaryOp) -> (r: &'static str)
    ensures
        r@ == int_op_text(op),
{
    match op {
        BinaryOp::FloorDiv => "//",
        BinaryOp::Mod => "%",
        _ => "?",
    }
}

/// The text of a bitwise operator for errors.
fn bitwise_op_text(op: BinaryOp) -> (r: &'static str)
    ensures
        r@ == bitwise_text(op),
{
    match op {
        BinaryOp::BitAnd => "&",
        BinaryOp::BitOr => "|",
        BinaryOp::BitXor => "^",
        BinaryOp::Shl => "<<",
        BinaryOp::Shr => ">>",
        _ => "?",
    }
}

impl TypeContext {
    /// Report that operator `op` cannot be applied to `lhs` and `rhs`.
    fn reject_binop(&mut self, op: &str, lhs: &Type, rhs: &Type, span: Span) -> (r: Type)
        requires
            old(self).wf(),
        ensures
            r.view_ty() == Ty::Error,
            rejected_binop(*old(self), *final(self), op@, lhs.view_ty(), rhs.view_ty(), source_of(span)),
    {
        let err = TypeError::invalid_binop(op, &lhs.to_string(), &rhs.to_string(), span);
        self.error(err);
        assert(self.error_list().drop_last() =~= old(self).error_list());
        Type::Error
    }

    /// Report that unary operator `op` cannot be applied to `operand`.
    fn reject_unop(&mut self, op: &str, operand: &Type, span: Span) -> (r: Type)
        requires
            old(self).wf(),
        ensures
            r.view_ty() == Ty::Error,
            rejected_unop(*old(self), *final(self), op@, operand.view_ty(), source_of(span)),
    {
        let err = TypeError::invalid_unop(op, &operand.to_string(), span);
        self.error(err);
        assert(self.error_list().drop_last() =~= old(self).error_list());
        Type::Error
    }

    /// Check addition (also handles string/list concatenation): two lists unify
    /// their element types.
    pub fn check_add(&mut self, lhs: &Type, rhs: &Type, span: Span) -> (r: Type)
        requires
            old(self).wf(),
        ensures
            add_checked(*old(self), *final(self), lhs.view_ty(), rhs.view_ty(), source_of(span), r.view_ty()),
    {
        match (lhs, rhs) {
            (Type::Int, Type::Int) => Type::Int,
            (Type::Float, Type::Float) => Type::Float,
            (Type::Int, Type::Float) | (Type::Float, Type::Int) => Type::Float,
            (Type::Str, Type::Str) => Type::Str,
            (Type::List(e1), Type::List(e2)) => {
                let elem = self.unify(e1, e2, span);
                Type::List(Box::new(elem))
            },
            (Type::Any, _) | (_, Type::Any) => Type::Any,
            (Type::Unknown, _) | (_, Type::Unknown) => Type::Unknown,
            _ => self.reject_binop("+", lhs, rhs, span),
        }
    }

    /// Check numeric operations (sub, mul).
    pub fn check_numeric_op(&mut self, lhs: &Type, rhs: &Type, op: &BinaryOp, span: Span) -> (r: Type)
        requires
            old(self).wf(),
        ensures
            simple_check(
                *old(self),
                *final(self),
                numeric_type(*op, lhs.view_ty(), rhs.view_ty()),
                numeric_text(*op),
                lhs.view_ty(),
                rhs.view_ty(),
                source_of(span),
                r.view_ty(),
            ),
    {
        let is_mul = match op {
            BinaryOp::Mul => true,
            _ => false,
        };
        match (lhs, rhs) {
            (Type::Int, Type::Int) => Type::Int,
            (Type::Float, Type::Float) => Type::Float,
            (Type::Int, Type::Float) | (Type::Float, Type::Int) => Type::Float,
            (Type::Any, _) | (_, Type::Any) => Type::Any,
            (Type::Unknown, _) | (_, Type::Unknown) => Type::Unknown,
            (Type::Str, Type::Int) if is_mul => Type::Str,
            (Type::Int, Type::Str) if is_mul => Type::Str,
            (Type::List(e), Type::Int) if is_mul => Type::List(Box::new(clone_type(e))),
            (Type::Int, Type::List(e)) if is_mul => Type::List(Box::new(clone_type(e))),
            _ => {
                let op_str = numeric_op_text(*op);
                self.reject_binop(op_str, lhs, rhs, span)
            },
        }
    }

    /// Check division (always returns float).
    pub fn check_div(&mut self, lhs: &Type, rhs: &Type, span: Span) -> (r: Type)
        requires
            old(self).wf(),
        ensures
            simple_check(
                *old(self),
                *final(self),
                div_type(lhs.view_ty(), rhs.view_ty()),
                "/"@,
                lhs.view_ty(),
                rhs.view_ty(),
                source_of(span),
                r.view_ty(),
            ),
    {
        match (lhs, rhs) {
            (Type::Int, Type::Int) | (Type::Float, Type::Float) | (Type::Int, Type::Float) | (
                Type::Float,
                Type::Int,
            ) => Type::Float,
            (Type::Any, _) | (_, Type::Any) => Type::Any,
            (Type::Unknown, _) | (_, Type::Unknown) => Type::Unknown,
            _ => self.reject_binop("/", lhs, rhs, span),
        }
    }

    /// Check integer operations (floor div, mod).
    pub fn check_int_op(&mut self, lhs: &Type, rhs: &Type, op: &BinaryOp, span: Span) -> (r: Type)
        requires
            old(self).wf(),
        ensures
            simple_check(
                *old(self),
                *final(self),
                int_op_type(lhs.view_ty(), rhs.view_ty()),
                int_op_text(*op),
                lhs.view_ty(),
                rhs.view_ty(),
                source_of(span),
                r.view_ty(),
            ),
    {
        match (lhs, rhs) {
            (Type::Int, Type::Int) => Type::Int,
            (Type::Float, Type::Float) | (Type::Int, Type::Float) | (Type::Float, Type::Int) => {
                Type::Float
            },
            (Type::Any, _) | (_, Type::Any) => Type::Any,
            (Type::Unknown, _) | (_, Type::Unknown) => Type::Unknown,
            _ => {
                let op_str = int_op_text_of(*op);
                self.reject_binop(op_str, lhs, rhs, span)
            },
        }
    }

    /// Check power operation.
    pub fn check_pow(&mut self, lhs: &Type, rhs: &Type, span: Span) -> (r: Type)
        requires
            old(self).wf(),
        ensures
            simple_check(
                *old(self),
                *final(self),
                pow_type(lhs.view_ty(), rhs.view_ty()),
                "**"@,
                lhs.view_ty(),
                rhs.view_ty(),
                source_of(span),
                r.view_ty(),
            ),
    {
        match (lhs, rhs) {
            (Type::Int, Type::Int) => Type::Int,
            (Type::Float, _) | (_, Type::Float) => Type::Float,
            (Type::Any, _) | (_, Type::Any) => Type::Any,
            (Type::Unknown, _) | (_, Type::Unknown) => Type::Unknown,
            _ => self.reject_binop("**", lhs, rhs, span),
        }
    }

    /// Check bitwise operations.
    pub fn check_bitwise_op(&mut self, lhs: &Type, rhs: &Type, op: &BinaryOp, span: Span) -> (r: Type)
        requires
            old(self).wf(),
        ensures
            simple_check(
                *old(self),
                *final(self),
                bitwise_type(lhs.view_ty(), rhs.view_ty()),
                bitwise_text(*op),
                lhs.view_ty(),
                rhs.view_ty(),
                source_of(span),
                r.view_ty(),
            ),
    {
        match (lhs, rhs) {
            (Type::Int, Type::Int) => Type::Int,
            (Type::Bool, Type::Bool) => Type::Bool,
            (Type::Any, _) | (_, Type::Any) => Type::Any,
            (Type::Unknown, _) | (_, Type::Unknown) => Type::Unknown,
            _ => {
                let op_str = bitwise_op_text(*op);
                self.reject_binop(op_str, lhs, rhs, span)
            },
        }
    }

    /// Check logical operations: any other pair of operands is allowed for its
    /// truthiness, and the result is the two types unified.
    pub fn check_logical_op(&mut self, lhs: &Type, rhs: &Type, span: Span) -> (r: Type)
        requires
            old(self).wf(),
        ensures
            logical_checked(*old(self), *final(self), lhs.view_ty(), rhs.view_ty(), source_of(span), r.view_ty()),
    {
        match (lhs, rhs) {
            (Type::Bool, Type::Bool) => Type::Bool,
            (Type::Any, _) | (_, Type::Any) => Type::Any,
            (Type::Unknown, _) | (_, Type::Unknown) => Type::Unknown,
            _ => self.unify(lhs, rhs, span),
        }
    }
}

/// The contract of `check_add`.
pub open spec fn add_checked(
    old: TypeContext,
    new: TypeContext,
    l: Ty,
    r: Ty,
    span: SourceSpan,
    result: Ty,
) -> bool {
    match (l, r) {
        (Ty::List(e1), Ty::List(e2)) => {
            let u = unify_spec(old.subst(), *e1, *e2);
            outcome(old, new, Unified { ty: Ty::List(Box::new(u.ty)), ..u }, result, span)
        },
        _ => simple_check(old, new, add_type(l, r), "+"@, l, r, span, result),
    }
}

/// The contract of `check_logical_op`.
pub open spec fn logical_checked(
    old: TypeContext,
    new: TypeContext,
    l: Ty,
    r: Ty,
    span: SourceSpan,
    result: Ty,
) -> bool {
    match logical_type(l, r) {
        Some(t) => result == t && new == old,
        None => outcome(old, new, unify_spec(old.subst(), l, r), result, span),
    }
}

/// The contract of the check for operator `op` on operand types `l` and `r`.
pub open spec fn op_checked(
    old: TypeContext,
    new: TypeContext,
    op: BinaryOp,
    l: Ty,
    r: Ty,
    span: SourceSpan,
    result: Ty,
) -> bool {
    match op {
        BinaryOp::Add => add_checked(old, new, l, r, span, result),
        BinaryOp::Sub | BinaryOp::Mul => simple_check(
            old,
            new,
            numeric_type(op, l, r),
            numeric_text(op),
            l,
            r,
            span,
            result,
        ),
        BinaryOp::Div => simple_check(old, new, div_type(l, r), "/"@, l, r, span, result),
        BinaryOp::FloorDiv | BinaryOp::Mod => simple_check(
            old,
            new,
            int_op_type(l, r),
            int_op_text(op),
            l,
            r,
            span,
            result,
        ),
        BinaryOp::Pow => simple_check(old, new, pow_type(l, r), "**"@, l, r, span, result),
        BinaryOp::And | BinaryOp::Or => logical_checked(old, new, l, r, span, result),
        _ => simple_check(old, new, bitwise_type(l, r), bitwise_text(op), l, r, span, result),
    }
}

/// The contract of checking `l op r` on the operand types: an error operand
/// gives an error and nothing else; otherwise the check for the operator.
pub open spec fn binop_checked(
    old: TypeContext,
    new: TypeContext,
    op: BinaryOp,
    l: Ty,
    r: Ty,
    span: SourceSpan,
    result: Ty,
) -> bool {
    if l is Error || r is Error {
        result == Ty::Error && new == old
    } else {
        op_checked(old, new, op, l, r, span, result)
    }
}

/// The type of a unary operation: negation and plus on numbers (and on `Any` and
/// `Unknown`, which they keep), `not` on anything giving a `Bool`, bitwise not on
/// an `Int` (or `Any` / `Unknown`) giving an `Int`.
pub open spec fn unary_type(op: UnaryOp, t: Ty) -> Option<Ty> {
    match op {
        UnaryOp::Not => Some(Ty::Bool),
        UnaryOp::BitNot => if t is Int || t is Any || t is Unknown {
            Some(Ty::Int)
        } else {
            None
        },
        _ => if t is Int || t is Float || t is Any || t is Unknown {
            Some(t)
        } else {
            None
        },
    }
}

/// How the unary operators are written in errors.
pub open spec fn unary_text(op: UnaryOp) -> Seq<char> {
    match op {
        UnaryOp::Neg => "-"@,
        UnaryOp::Pos => "+"@,
        UnaryOp::Not => "not"@,
        UnaryOp::BitNot => "~"@,
    }
}

/// The type of method `method` on a list of type `list` (elements `Any` when it
/// is not a list type); `Any` for an unknown method.
pub open spec fn list_method_type(method: Seq<char>, list: Ty) -> Ty {
    let elem = match list {
        Ty::List(e) => *e,
        _ => Ty::Any,
    };
    if method == "append"@ {
        fn_ty(seq![elem], Ty::NoneType)
    } else if method == "extend"@ {
        fn_ty(seq![list_ty(elem)], Ty::NoneType)
    } else if method == "pop"@ {
        fn_ty(Seq::empty(), elem)
    } else if method == "clear"@ {
        fn_ty(Seq::empty(), Ty::NoneType)
    } else if method == "copy"@ {
        fn_ty(Seq::empty(), list)
    } else {
        Ty::Any
    }
}

/// The type of method `method` on a dict of type `dict` (keys and values `Any`
/// when it is not a dict type); `Any` for an unknown method.
pub open spec fn dict_method_type(method: Seq<char>, dict: Ty) -> Ty {
    let (k, v) = match dict {
        Ty::Dict(k, v) => (*k, *v),
        _ => (Ty::Any, Ty::Any),
    };
    if method == "get"@ {
        fn_ty(seq![k], Ty::Optional(Box::new(v)))
    } else if method == "keys"@ {
        fn_ty(Seq::empty(), iter_ty(k))
    } else if method == "values"@ {
        fn_ty(Seq::empty(), iter_ty(v))
    } else if method == "items"@ {
        fn_ty(Seq::empty(), iter_ty(Ty::Tuple(seq![k, v])))
    } else {
        Ty::Any
    }
}

/// The type of method `method` on a string; `Any` for an unknown method.
pub open spec fn str_method_type(method: Seq<char>) -> Ty {
    if method == "upper"@ || method == "lower"@ || method == "strip"@ || method == "title"@
        || method == "capitalize"@ {
        fn_ty(Seq::empty(), Ty::Str)
    } else if method == "split"@ {
        fn_ty(seq![Ty::Str], list_ty(Ty::Str))
    } else if method == "join"@ {
        fn_ty(seq![list_ty(Ty::Str)], Ty::Str)
    } else if method == "replace"@ {
        fn_ty(seq![Ty::Str, Ty::Str], Ty::Str)
    } else if method == "startswith"@ || method == "endswith"@ {
        fn_ty(seq![Ty::Str], Ty::Bool)
    } else if method == "find"@ {
        fn_ty(seq![Ty::Str], Ty::Int)
    } else {
        Ty::Any
    }
}

/// The type a simple type name denotes: a built-in type by its name, else a
/// registered struct, class or agent of that name, else a class of that name.
pub open spec fn simple_type(
    name: Seq<char>,
    structs: Set<Seq<char>>,
    classes: Set<Seq<char>>,
    agents: Set<Seq<char>>,
) -> Ty {
    if name == "Int"@ {
        Ty::Int
    } else if name == "Float"@ {
        Ty::Float
    } else if name == "Bool"@ {
        Ty::Bool
    } else if name == "Str"@ {
        Ty::Str
    } else if name == "Bytes"@ {
        Ty::Bytes
    } else if name == "None"@ {
        Ty::NoneType
    } else if name == "Any"@ {
        Ty::Any
    } else if name == "Never"@ {
        Ty::Never
    } else if name == "Message"@ {
        Ty::Message
    } else if name == "Context"@ {
        Ty::Context
    } else if name == "TokenBudget"@ {
        Ty::TokenBudget
    } else if name == "ModelResponse"@ {
        Ty::ModelResponse
    } else if name == "Embedding"@ {
        Ty::Embedding
    } else if structs.contains(name) {
        Ty::Struct(name)
    } else if classes.contains(name) {
        Ty::Class(name)
    } else if agents.contains(name) {
        Ty::Agent(name)
    } else {
        Ty::Class(name)
    }
}

/// The contract of checking `op t` on the operand's type: an error operand gives
/// an error and nothing else; otherwise the operator's type, or a report.
pub open spec fn unop_checked(old: TypeContext, new: TypeContext, op: UnaryOp, t: Ty, span: SourceSpan, r: Ty) -> bool {
    if t is Error {
        r == Ty::Error && new == old
    } else {
        match unary_type(op, t) {
            Some(u) => r == u && new == old,
            None => r == Ty::Error && rejected_unop(old, new, unary_text(op), t, span),
        }
    }
}

impl TypeContext {
    /// Check a binary operation on the types of its operands: an error operand
    /// propagates, otherwise the operator's own check decides.
    pub fn check_binary_types(&mut self, op: BinaryOp, lhs: &Type, rhs: &Type, span: Span) -> (r: Type)
        requires
            old(self).wf(),
        ensures
            binop_checked(*old(self), *final(self), op, lhs.view_ty(), rhs.view_ty(), source_of(span), r.view_ty()),
    {
        if lhs.is_error() || rhs.is_error() {
            return Type::Error;
        }
        match op {
            BinaryOp::Add => self.check_add(lhs, rhs, span),
            BinaryOp::Sub | BinaryOp::Mul => self.check_numeric_op(lhs, rhs, &op, span),
            BinaryOp::Div => self.check_div(lhs, rhs, span),
            BinaryOp::FloorDiv | BinaryOp::Mod => self.check_int_op(lhs, rhs, &op, span),
            BinaryOp::Pow => self.check_pow(lhs, rhs, span),
            BinaryOp::BitAnd | BinaryOp::BitOr | BinaryOp::BitXor | BinaryOp::Shl | BinaryOp::Shr => {
                self.check_bitwise_op(lhs, rhs, &op, span)
            },
            BinaryOp::And | BinaryOp::Or => self.check_logical_op(lhs, rhs, span),
        }
    }

    /// Check a unary operation on the type of its operand: an error operand
    /// propagates.
    pub fn check_unary_type(&mut self, op: UnaryOp, operand: &Type, span: Span) -> (r: Type)
        requires
            old(self).wf(),
        ensures
            unop_checked(*old(self), *final(self), op, operand.view_ty(), source_of(span), r.view_ty()),
    {
        if operand.is_error() {
            return Type::Error;
        }
        match op {
            UnaryOp::Neg => match operand {
                Type::Int => Type::Int,
                Type::Float => Type::Float,
                Type::Any | Type::Unknown => clone_type(operand),
                _ => self.reject_unop("-", operand, span),
            },
            UnaryOp::Pos => match operand {
                Type::Int => Type::Int,
                Type::Float => Type::Float,
                Type::Any | Type::Unknown => clone_type(operand),
                _ => self.reject_unop("+", operand, span),
            },
            UnaryOp::Not => Type::Bool,
            UnaryOp::BitNot => match operand {
                Type::Int => Type::Int,
                Type::Any | Type::Unknown => Type::Int,
                _ => self.reject_unop("~", operand, span),
            },
        }
    }

    /// The type of a method of a list.
    pub fn check_list_method(&self, method: &str, list_ty: &Type) -> (r: Type)
        ensures
            r.view_ty() == list_method_type(method@, list_ty.view_ty()),
    {
        let elem_ty = if let Type::List(e) = list_ty {
            clone_type(e)
        } else {
            Type::Any
        };
        if same_text(method, "append") {
            func(types1(elem_ty), Type::NoneType)
        } else if same_text(method, "extend") {
            func(types1(list_of(elem_ty)), Type::NoneType)
        } else if same_text(method, "pop") {
            func(types0(), elem_ty)
        } else if same_text(method, "clear") {
            func(types0(), Type::NoneType)
        } else if same_text(method, "copy") {
            func(types0(), clone_type(list_ty))
        } else {
            Type::Any
        }
    }

    /// The type of a method of a dict.
    pub fn check_dict_method(&self, method: &str, dict_ty: &Type) -> (r: Type)
        ensures
            r.view_ty() == dict_method_type(method@, dict_ty.view_ty()),
    {
        let (key_ty, val_ty) = if let Type::Dict(k, v) = dict_ty {
            (clone_type(k), clone_type(v))
        } else {
            (Type::Any, Type::Any)
        };
        if same_text(method, "get") {
            func(types1(key_ty), Type::Optional(Box::new(val_ty)))
        } else if same_text(method, "keys") {
            func(types0(), iter_of(key_ty))
        } else if same_text(method, "values") {
            func(types0(), iter_of(val_ty))
        } else if same_text(method, "items") {
            func(types0(), iter_of(Type::Tuple(types2(key_ty, val_ty))))
        } else {
            Type::Any
        }
    }

    /// The type of a method of a string.
    pub fn check_str_method(&self, method: &str) -> (r: Type)
        ensures
            r.view_ty() == str_method_type(method@),
    {
        if same_text(method, "upper") || same_text(method, "lower") || same_text(method, "strip")
            || same_text(method, "title") || same_text(method, "capitalize") {
            func(types0(), Type::Str)
        } else if same_text(method, "split") {
            func(types1(Type::Str), list_of(Type::Str))
        } else if same_text(method, "join") {
            func(types1(list_of(Type::Str)), Type::Str)
        } else if same_text(method, "replace") {
            func(types2(Type::Str, Type::Str), Type::Str)
        } else if same_text(method, "startswith") || same_text(method, "endswith") {
            func(types1(Type::Str), Type::Bool)
        } else if same_text(method, "find") {
            func(types1(Type::Str), Type::Int)
        } else {
            Type::Any
        }
    }

    /// Resolve a simple type name.
    pub fn resolve_simple_type(&self, name: &str) -> (r: Type)
        ensures
            r.view_ty() == simple_type(
                name@,
                self.struct_table().dom(),
                self.class_table().dom(),
                self.agent_table().dom(),
            ),
    {
        if same_text(name, "Int") {
            Type::Int
        } else if same_text(name, "Float") {
            Type::Float
        } else if same_text(name, "Bool") {
            Type::Bool
        } else if same_text(name, "Str") {
            Type::Str
        } else if same_text(name, "Bytes") {
            Type::Bytes
        } else if same_text(name, "None") {
            Type::NoneType
        } else if same_text(name, "Any") {
            Type::Any
        } else if same_text(name, "Never") {
            Type::Never
        } else if same_text(name, "Message") {
            Type::Message
        } else if same_text(name, "Context") {
            Type::Context
        } else if same_text(name, "TokenBudget") {
            Type::TokenBudget
        } else if same_text(name, "ModelResponse") {
            Type::ModelResponse
        } else if same_text(name, "Embedding") {
            Type::Embedding
        } else if self.lookup_struct(name).is_some() {
            Type::Struct(owned(name))
        } else if self.lookup_class(name).is_some() {
            Type::Class(owned(name))
        } else if self.lookup_agent(name).is_some() {
            Type::Agent(owned(name))
        } else {
            Type::Class(owned(name))
        }
    }
}


/// Floor division and remainder on numbers change nothing in the context and give
/// `Int` exactly when both operands are `Int`, and `Float` when either is a `Float`.
pub proof fn lemma_int_op_result(
    old: TypeContext,
    new: TypeContext,
    op: BinaryOp,
    l: Ty,
    r: Ty,
    span: SourceSpan,
    result: Ty,
)
    requires
        op is FloorDiv || op is Mod,
        l is Int || l is Float,
        r is Int || r is Float,
        binop_checked(old, new, op, l, r, span, result),
    ensures
        new == old,
        result is Int <==> l is Int && r is Int,
        l is Float || r is Float ==> result == Ty::Float,
{
}


/// True division on numbers changes nothing in the context and always gives `Float`;
/// a power gives `Int` for two `Int`s and `Float` when either side is a `Float`.
pub proof fn lemma_div_pow_result(
    old: TypeContext,
    new: TypeContext,
    op: BinaryOp,
    l: Ty,
    r: Ty,
    span: SourceSpan,
    result: Ty,
)
    requires
        op is Div || op is Pow,
        l is Int || l is Float,
        r is Int || r is Float,
        binop_checked(old, new, op, l, r, span, result),
    ensures
        new == old,
        op is Div ==> result == Ty::Float,
        op is Pow ==> (result is Int <==> l is Int && r is Int),
        op is Pow && (l is Float || r is Float) ==> result == Ty::Float,
{
}

} // verus!
