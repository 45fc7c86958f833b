//! Type errors: source positions, the error kinds the checker reports, and their
//! messages.

use vstd::prelude::*;
use crate::stdlib::string::{join, join_seq, string_views};
use crate::stdlib::text::{decimal, owned, push_decimal, push_str};

verus! {

broadcast use vstd::string::group_string_axioms;

/// A source range `[start, end)` in byte offsets.
#[derive(Debug, Clone, Copy, PartialEq, Eq, Structural)]
pub struct Span {
    pub start: u32,
    pub end: u32,
}

/// A labelled source location: its offset and length in bytes.
#[derive(Debug, Clone, Copy, PartialEq, Eq, Structural)]
pub struct SourceSpan {
    pub offset: usize,
    pub len: usize,
}

/// The labelled location of a span: its start, and its length (0 for an inverted span).
pub open spec fn source_of(span: Span) -> SourceSpan {
    SourceSpan {
        offset: span.start as usize,
        len: if span.end >= span.start { (span.end - span.start) as usize } else { 0 },
    }
}

/// Convert a span to a labelled source location.
pub fn to_source_span(span: Span) -> (r: SourceSpan)
    ensures
        r == source_of(span),
{
    SourceSpan {
        offset: span.start as usize,
        len: if span.end >= span.start {
            (span.end - span.start) as usize
        } else {
            0
        },
    }
}

/// Type errors that can occur during type checking.
#[derive(Debug)]
pub enum TypeError {
    /// Type mismatch between expected and actual types
    TypeMismatch { expected: String, found: String, span: SourceSpan, help: Option<String> },
    /// Undefined variable
    UndefinedVariable { name: String, span: SourceSpan, suggestion: Option<String> },
    /// Undefined type
    UndefinedType { name: String, span: SourceSpan },
    /// Type is not callable
    NotCallable { ty: String, span: SourceSpan },
    /// Wrong number of arguments
    WrongArgs { expected: usize, found: usize, span: SourceSpan },
    /// Type is not iterable
    NotIterable { ty: String, span: SourceSpan },
    /// Type is not indexable
    NotIndexable { ty: String, index_ty: String, span: SourceSpan },
    /// No member on type
    NoMember { ty: String, member: String, span: SourceSpan },
    /// Invalid binary operation
    InvalidBinOp { op: String, lhs: String, rhs: String, span: SourceSpan },
    /// Invalid unary operation
    InvalidUnOp { op: String, operand: String, span: SourceSpan },
    /// Assignment to immutable binding
    ImmutableAssign { name: String, def_span: SourceSpan, assign_span: SourceSpan },
    /// Missing return statement
    MissingReturn { name: String, span: SourceSpan },
    /// Missing required field in struct initialization
    MissingField { struct_name: String, field: String, span: SourceSpan },
    /// Duplicate definition
    DuplicateDefinition { name: String, first_span: SourceSpan, second_span: SourceSpan },
    /// Agent missing required clause
    AgentMissingClause { name: String, missing: String, span: SourceSpan },
    /// Tool missing execute function
    ToolNoExecute { name: String, span: SourceSpan },
    /// Async operation outside async context
    AwaitOutsideAsync { span: SourceSpan },
    /// Recursive type detected
    RecursiveType { span: SourceSpan },
    /// Type unification failed
    UnificationFailed { t1: String, t2: String, span: SourceSpan },
    /// Non-exhaustive match patterns
    NonExhaustiveMatch { patterns: String, span: SourceSpan },
    /// Unreachable match arm
    UnreachableArm { span: SourceSpan },
    /// Custom error (for extensibility)
    Custom { message: String, span: SourceSpan },
}

/// `text` between backquotes.
pub open spec fn quoted(text: Seq<char>) -> Seq<char> {
    "`"@ + text + "`"@
}

impl TypeError {
    /// The message of the error.
    pub open spec fn message(&self) -> Seq<char> {
        match self {
            TypeError::TypeMismatch { expected, found, .. } => "Type mismatch: expected "@ + quoted(
                expected@,
            ) + ", found "@ + quoted(found@),
            TypeError::UndefinedVariable { name, .. } => "Undefined variable "@ + quoted(name@),
            TypeError::UndefinedType { name, .. } => "Undefined type "@ + quoted(name@),
            TypeError::NotCallable { ty, .. } => "Type "@ + quoted(ty@) + " is not callable"@,
            TypeError::WrongArgs { expected, found, .. } => "Wrong number of arguments: expected "@
                + decimal(*expected as nat) + ", found "@ + decimal(*found as nat),
            TypeError::NotIterable { ty, .. } => "Type "@ + quoted(ty@) + " is not iterable"@,
            TypeError::NotIndexable { ty, index_ty, .. } => "Type "@ + quoted(ty@)
                + " cannot be indexed with "@ + quoted(index_ty@),
            TypeError::NoMember { ty, member, .. } => "Type "@ + quoted(ty@) + " has no member "@
                + quoted(member@),
            TypeError::InvalidBinOp { op, lhs, rhs, .. } => "Operator "@ + quoted(op@)
                + " cannot be applied to types "@ + quoted(lhs@) + " and "@ + quoted(rhs@),
            TypeError::InvalidUnOp { op, operand, .. } => "Operator "@ + quoted(op@)
                + " cannot be applied to type "@ + quoted(operand@),
            TypeError::ImmutableAssign { name, .. } => "Cannot assign to immutable variable "@
                + quoted(name@),
            TypeError::MissingReturn { name, .. } => "Function "@ + quoted(name@)
                + " is missing a return statement"@,
            TypeError::MissingField { struct_name, field, .. } => "Missing required field "@
                + quoted(field@) + " in "@ + quoted(struct_name@) + " initialization"@,
            TypeError::DuplicateDefinition { name, .. } => "Duplicate definition of "@ + quoted(
                name@,
            ),
            TypeError::AgentMissingClause { name, missing, .. } => "Agent "@ + quoted(name@)
                + " is missing required "@ + quoted(missing@) + " clause"@,
            TypeError::ToolNoExecute { name, .. } => "Tool "@ + quoted(name@) + " must have an "@
                + quoted("execute"@) + " function"@,
            TypeError::AwaitOutsideAsync { .. } => "Cannot use "@ + quoted("await"@)
                + " outside of an async function"@,
            TypeError::RecursiveType { .. } => "Recursive type detected"@,
            TypeError::UnificationFailed { t1, t2, .. } => "Cannot unify types "@ + quoted(t1@)
                + " and "@ + quoted(t2@),
            TypeError::NonExhaustiveMatch { patterns, .. } =>
                "Non-exhaustive match: missing patterns: "@ + patterns@,
            TypeError::UnreachableArm { .. } =>
                "Unreachable match arm: previous patterns already cover this case"@,
            TypeError::Custom { message, .. } => message@,
        }
    }
}

/// Append `text` between backquotes.
fn push_quoted(r: &mut String, text: &str)
    ensures
        final(r)@ == old(r)@ + quoted(text@),
{
    push_str(r, "`");
    push_str(r, text);
    push_str(r, "`");
    assert(r@ =~= old(r)@ + quoted(text@));
}


impl TypeError {
    /// The message of the error.
    pub fn to_string(&self) -> (r: String)
        ensures
            r@ == self.message(),
    {
        let mut r = String::new();
        match self {
            TypeError::TypeMismatch { expected, found, .. } => {
                push_str(&mut r, "Type mismatch: expected ");
                push_quoted(&mut r, expected.as_str());
                push_str(&mut r, ", found ");
                push_quoted(&mut r, found.as_str());
            },
            TypeError::UndefinedVariable { name, .. } => {
                push_str(&mut r, "Undefined variable ");
                push_quoted(&mut r, name.as_str());
            },
            TypeError::UndefinedType { name, .. } => {
                push_str(&mut r, "Undefined type ");
                push_quoted(&mut r, name.as_str());
            },
            TypeError::NotCallable { ty, .. } => {
                push_str(&mut r, "Type ");
                push_quoted(&mut r, ty.as_str());
                push_str(&mut r, " is not callable");
            },
            TypeError::WrongArgs { expected, found, .. } => {
                push_str(&mut r, "Wrong number of arguments: expected ");
                push_decimal(&mut r, *expected as u64);
                push_str(&mut r, ", found ");
                push_decimal(&mut r, *found as u64);
            },
            TypeError::NotIterable { ty, .. } => {
                push_str(&mut r, "Type ");
                push_quoted(&mut r, ty.as_str());
                push_str(&mut r, " is not iterable");
            },
            TypeError::NotIndexable { ty, index_ty, .. } => {
                push_str(&mut r, "Type ");
                push_quoted(&mut r, ty.as_str());
                push_str(&mut r, " cannot be indexed with ");
                push_quoted(&mut r, index_ty.as_str());
            },
            TypeError::NoMember { ty, member, .. } => {
                push_str(&mut r, "Type ");
                push_quoted(&mut r, ty.as_str());
                push_str(&mut r, " has no member ");
                push_quoted(&mut r, member.as_str());
            },
            TypeError::InvalidBinOp { op, lhs, rhs, .. } => {
                push_str(&mut r, "Operator ");
                push_quoted(&mut r, op.as_str());
                push_str(&mut r, " cannot be applied to types ");
                push_quoted(&mut r, lhs.as_str());
                push_str(&mut r, " and ");
                push_quoted(&mut r, rhs.as_str());
            },
            TypeError::InvalidUnOp { op, operand, .. } => {
                push_str(&mut r, "Operator ");
                push_quoted(&mut r, op.as_str());
                push_str(&mut r, " cannot be applied to type ");
                push_quoted(&mut r, operand.as_str());
            },
            TypeError::ImmutableAssign { name, .. } => {
                push_str(&mut r, "Cannot assign to immutable variable ");
                push_quoted(&mut r, name.as_str());
            },
            TypeError::MissingReturn { name, .. } => {
                push_str(&mut r, "Function ");
                push_quoted(&mut r, name.as_str());
                push_str(&mut r, " is missing a return statement");
            },
            TypeError::MissingField { struct_name, field, .. } => {
                push_str(&mut r, "Missing required field ");
                push_quoted(&mut r, field.as_str());
                push_str(&mut r, " in ");
                push_quoted(&mut r, struct_name.as_str());
                push_str(&mut r, " initialization");
            },
            TypeError::DuplicateDefinition { name, .. } => {
                push_str(&mut r, "Duplicate definition of ");
                push_quoted(&mut r, name.as_str());
            },
            TypeError::AgentMissingClause { name, missing, .. } => {
                push_str(&mut r, "Agent ");
                push_quoted(&mut r, name.as_str());
                push_str(&mut r, " is missing required ");
                push_quoted(&mut r, missing.as_str());
                push_str(&mut r, " clause");
            },
            TypeError::ToolNoExecute { name, .. } => {
                push_str(&mut r, "Tool ");
                push_quoted(&mut r, name.as_str());
                push_str(&mut r, " must have an ");
                push_quoted(&mut r, "execute");
                push_str(&mut r, " function");
            },
            TypeError::AwaitOutsideAsync { .. } => {
                push_str(&mut r, "Cannot use ");
                push_quoted(&mut r, "await");
                push_str(&mut r, " outside of an async function");
            },
            TypeError::RecursiveType { .. } => {
                push_str(&mut r, "Recursive type detected");
            },
            TypeError::UnificationFailed { t1, t2, .. } => {
                push_str(&mut r, "Cannot unify types ");
                push_quoted(&mut r, t1.as_str());
                push_str(&mut r, " and ");
                push_quoted(&mut r, t2.as_str());
            },
            TypeError::NonExhaustiveMatch { patterns, .. } => {
                push_str(&mut r, "Non-exhaustive match: missing patterns: ");
                push_str(&mut r, patterns.as_str());
            },
            TypeError::UnreachableArm { .. } => {
                push_str(&mut r, "Unreachable match arm: previous patterns already cover this case");
            },
            TypeError::Custom { message, .. } => {
                push_str(&mut r, message.as_str());
            },
        }
        assert(r@ =~= self.message());
        r
    }

    /// Create a type mismatch error.
    pub fn type_mismatch(expected: &str, found: &str, span: Span) -> (r: Self)
        ensures
            r matches TypeError::TypeMismatch { expected: e, found: f, span: s, help: h } && e@
                == expected@ && f@ == found@ && s == source_of(span) && h is None,
    {
        TypeError::TypeMismatch {
            expected: owned(expected),
            found: owned(found),
            span: to_source_span(span),
            help: None,
        }
    }

    /// Create an undefined variable error.
    pub fn undefined_var(name: &str, span: Span) -> (r: Self)
        ensures
            r matches TypeError::UndefinedVariable { name: n, span: s, suggestion: g } && n@ == name@
                && s == source_of(span) && g is None,
    {
        TypeError::UndefinedVariable { name: owned(name), span: to_source_span(span), suggestion: None }
    }

    /// Create a not callable error.
    pub fn not_callable(ty: &str, span: Span) -> (r: Self)
        ensures
            r matches TypeError::NotCallable { ty: t, span: s } && t@ == ty@ && s == source_of(span),
    {
        TypeError::NotCallable { ty: owned(ty), span: to_source_span(span) }
    }

    /// Create a wrong args error.
    pub fn wrong_args(expected: usize, found: usize, span: Span) -> (r: Self)
        ensures
            r matches TypeError::WrongArgs { expected: e, found: f, span: s } && e == expected && f
                == found && s == source_of(span),
    {
        TypeError::WrongArgs { expected, found, span: to_source_span(span) }
    }

    /// Create a not iterable error.
    pub fn not_iterable(ty: &str, span: Span) -> (r: Self)
        ensures
            r matches TypeError::NotIterable { ty: t, span: s } && t@ == ty@ && s == source_of(span),
    {
        TypeError::NotIterable { ty: owned(ty), span: to_source_span(span) }
    }

    /// Create a not indexable error.
    pub fn not_indexable(ty: &str, index_ty: &str, span: Span) -> (r: Self)
        ensures
            r matches TypeError::NotIndexable { ty: t, index_ty: i, span: s } && t@ == ty@ && i@
                == index_ty@ && s == source_of(span),
    {
        TypeError::NotIndexable { ty: owned(ty), index_ty: owned(index_ty), span: to_source_span(span) }
    }

    /// Create a no member error.
    pub fn no_member(ty: &str, member: &str, span: Span) -> (r: Self)
        ensures
            r matches TypeError::NoMember { ty: t, member: m, span: s } && t@ == ty@ && m@ == member@
                && s == source_of(span),
    {
        TypeError::NoMember { ty: owned(ty), member: owned(member), span: to_source_span(span) }
    }

    /// Create an invalid binary operator error.
    pub fn invalid_binop(op: &str, lhs: &str, rhs: &str, span: Span) -> (r: Self)
        ensures
            r matches TypeError::InvalidBinOp { op: o, lhs: a, rhs: b, span: s } && o@ == op@ && a@
                == lhs@ && b@ == rhs@ && s == source_of(span),
    {
        TypeError::InvalidBinOp {
            op: owned(op),
            lhs: owned(lhs),
            rhs: owned(rhs),
            span: to_source_span(span),
        }
    }

    /// Create an invalid unary operator error.
    pub fn invalid_unop(op: &str, operand: &str, span: Span) -> (r: Self)
        ensures
            r matches TypeError::InvalidUnOp { op: o, operand: a, span: s } && o@ == op@ && a@
                == operand@ && s == source_of(span),
    {
        TypeError::InvalidUnOp { op: owned(op), operand: owned(operand), span: to_source_span(span) }
    }

    /// Create a unification failed error.
    pub fn unification_failed(t1: &str, t2: &str, span: Span) -> (r: Self)
        ensures
            r matches TypeError::UnificationFailed { t1: a, t2: b, span: s } && a@ == t1@ && b@
                == t2@ && s == source_of(span),
    {
        TypeError::UnificationFailed { t1: owned(t1), t2: owned(t2), span: to_source_span(span) }
    }

    /// Create a custom error.
    pub fn custom(message: String, span: Span) -> (r: Self)
        ensures
            r matches TypeError::Custom { message: m, span: s } && m@ == message@ && s == source_of(
                span,
            ),
    {
        TypeError::Custom { message, span: to_source_span(span) }
    }

    /// Create a non-exhaustive match error listing the missing patterns, comma-separated.
    pub fn non_exhaustive_match(patterns: &[String], span: Span) -> (r: Self)
        ensures
            r matches TypeError::NonExhaustiveMatch { patterns: p, span: s } && p@ == join_seq(
                string_views(patterns@),
                ", "@,
            ) && s == source_of(span),
    {
        TypeError::NonExhaustiveMatch { patterns: join(patterns, ", "), span: to_source_span(span) }
    }

    /// Create an unreachable arm warning.
    pub fn unreachable_arm(span: Span) -> (r: Self)
        ensures
            r matches TypeError::UnreachableArm { span: s } && s == source_of(span),
    {
        TypeError::UnreachableArm { span: to_source_span(span) }
    }
}

/// The errors reported before are all still there, in order, at the front.
pub open spec fn errors_kept(old: Seq<TypeError>, new: Seq<TypeError>) -> bool {
    &&& old.len() <= new.len()
    &&& forall|i: int| 0 <= i < old.len() ==> #[trigger] new[i] == old[i]
}

/// A list that starts with another keeps all of the other's errors.
pub broadcast proof fn lemma_prefix_kept(a: Seq<TypeError>, b: Seq<TypeError>)
    requires
        a.len() <= b.len(),
        #[trigger] b.subrange(0, a.len() as int) == a,
    ensures
        errors_kept(a, b),
{
    assert forall|i: int| 0 <= i < a.len() implies #[trigger] b[i] == a[i] by {
        assert(b.subrange(0, a.len() as int)[i] == b[i]);
    }
}

} // verus!
