//! The syntax the checker reads: expressions, statements and items, each with the
//! parts of it that checking looks at.

use vstd::prelude::*;
use crate::typeck::annotations::TypeExpr;
use crate::typeck::bodies::{Import, Param};
use crate::typeck::error::Span;
use crate::typeck::operators::{BinaryOp, UnaryOp};
use crate::typeck::patterns::Pattern;
use crate::typeck::statements::AugOp;

verus! {

/// An expression and its source span.
pub struct Expr {
    pub kind: ExprKind,
    pub span: Span,
}

/// The kinds of expressions.
pub enum ExprKind {
    Int,
    Float,
    Bool,
    Str,
    /// The `None` literal.
    NoneLit,
    /// An f-string, by its interpolated expressions.
    FString(Vec<Expr>),
    Ident(String),
    Binary(BinaryOp, Box<Expr>, Box<Expr>),
    Unary(UnaryOp, Box<Expr>),
    /// A chain of comparisons: the first operand and the others.
    Compare(Box<Expr>, Vec<Expr>),
    /// `then if condition else otherwise`: condition, then, otherwise.
    IfExpr(Box<Expr>, Box<Expr>, Box<Expr>),
    List(Vec<Expr>),
    Dict(Vec<(Expr, Expr)>),
    SetLit(Vec<Expr>),
    Tuple(Vec<Expr>),
    /// A call: the callee and the argument values.
    Call(Box<Expr>, Vec<Expr>),
    /// `value.member`
    Attribute(Box<Expr>, String),
    /// `value[index]`
    Subscript(Box<Expr>, Box<Expr>),
    Lambda(Vec<Param>, Box<Expr>),
    Await(Box<Expr>),
    Yield(Option<Box<Expr>>),
    Spawn(Box<Expr>),
    /// `[element for ...]`
    ListComp(Vec<Generator>, Box<Expr>),
    /// `{key: value for ...}`
    DictComp(Vec<Generator>, Box<Expr>, Box<Expr>),
    /// `{element for ...}`
    SetComp(Vec<Generator>, Box<Expr>),
    /// `(element for ...)`
    GeneratorExpr(Vec<Generator>, Box<Expr>),
}

/// One `for target in iter if conditions` of a comprehension.
pub struct Generator {
    pub target: Pattern,
    pub iter: Expr,
    pub conditions: Vec<Expr>,
}

/// A statement.
pub enum Stmt {
    /// An expression evaluated for its effect.
    Expr(Expr),
    Let(LetStmt),
    /// `target = value`, at `span`.
    Assign { target: Expr, value: Expr, span: Span },
    /// `target op= value`, at `span`.
    AugAssign { target: Expr, op: AugOp, value: Expr, span: Span },
    /// `return [value]`, at `span`.
    Return { value: Option<Expr>, span: Span },
    If { condition: Expr, then_block: Vec<Stmt>, elifs: Vec<(Expr, Vec<Stmt>)>, else_block: Option<Vec<Stmt>> },
    For { target: Pattern, iter: Expr, body: Vec<Stmt>, else_block: Option<Vec<Stmt>> },
    While { condition: Expr, body: Vec<Stmt>, else_block: Option<Vec<Stmt>> },
    Match { subject: Expr, arms: Vec<MatchArm> },
    Try { body: Vec<Stmt>, handlers: Vec<Handler>, else_block: Option<Vec<Stmt>>, finally_block: Option<Vec<Stmt>> },
    With { items: Vec<WithItem>, body: Vec<Stmt> },
    Raise { exception: Option<Expr>, cause: Option<Expr> },
    Assert { test: Expr, msg: Option<Expr> },
    Break,
    Continue,
    Pass,
    /// An `async` block.
    Async(Vec<Stmt>),
}

/// `let pattern[: ty] [= value]` (also `let mut`, and `const`), at `span`.
pub struct LetStmt {
    pub pattern: Pattern,
    pub ty: Option<TypeExpr>,
    pub value: Option<Expr>,
    pub is_mutable: bool,
    pub is_const: bool,
    pub span: Span,
}

/// An arm of a `match`: pattern, guard and body.
pub struct MatchArm {
    pub pattern: Pattern,
    pub guard: Option<Expr>,
    pub body: Vec<Stmt>,
}

/// An `except [ty [as name]]:` handler.
pub struct Handler {
    pub ty: Option<Expr>,
    pub name: Option<(String, Span)>,
    pub body: Vec<Stmt>,
}

/// A `with context [as alias]` item.
pub struct WithItem {
    pub context: Expr,
    pub alias: Option<(String, Span)>,
}

/// A function or method definition.
pub struct FunctionDef {
    pub name: String,
    pub span: Span,
    pub params: Vec<Param>,
    pub return_type: Option<TypeExpr>,
    pub is_async: bool,
    pub body: Vec<Stmt>,
}

/// A field of a class or struct: its name, its type annotation and its default.
pub struct FieldDef {
    pub name: String,
    pub ty: TypeExpr,
    pub default: Option<Expr>,
}

/// A member of a class body.
pub enum ClassMember {
    Field(FieldDef),
    Method(FunctionDef),
    /// A nested class.
    Class(ClassDef),
}

/// A class definition: its name (and the span of the name), its base
/// expressions and its body.
pub struct ClassDef {
    pub name: String,
    pub span: Span,
    pub bases: Vec<Expr>,
    pub body: Vec<ClassMember>,
}

/// A configuration entry of an agent.
pub enum AgentConfig {
    Model(Expr),
    Memory(Vec<Expr>),
    Tools(Vec<Expr>),
    /// The budget's entries: each key with its value.
    Budget(Vec<(String, Expr)>),
    Policy(Vec<Expr>),
}

/// A task of an agent; tasks are always asynchronous.
pub struct TaskDef {
    pub name: String,
    pub params: Vec<Param>,
    pub return_type: Option<TypeExpr>,
    pub body: Vec<Stmt>,
}

/// An event handler of an agent.
pub struct OnEventDef {
    pub event: String,
    pub params: Vec<Param>,
    pub body: Vec<Stmt>,
}

/// A member of an agent body.
pub enum AgentMember {
    Config(AgentConfig),
    Task(TaskDef),
    Method(FunctionDef),
    OnEvent(OnEventDef),
}

/// An agent definition.
pub struct AgentDef {
    pub name: String,
    pub span: Span,
    pub config: Vec<AgentConfig>,
    pub members: Vec<AgentMember>,
}

/// A member of a tool body.
pub enum ToolMember {
    /// The permissions the tool asks for, by name.
    Permissions(Vec<String>),
    Sandbox(String),
    RateLimit(Expr),
    Audit(String),
    Schema(TypeExpr),
    Method(FunctionDef),
}

/// A tool definition.
pub struct ToolDef {
    pub name: String,
    pub span: Span,
    pub members: Vec<ToolMember>,
}

/// A member of a memory body.
pub enum MemoryMember {
    StorageType(String),
    Capacity(Expr),
    Retention(Expr),
    Compression(String),
    Index(String),
    Method(FunctionDef),
}

/// A memory definition.
pub struct MemoryDef {
    pub name: String,
    pub span: Span,
    pub members: Vec<MemoryMember>,
}

/// A section of a prompt: text (plain or a template), or a block of statements.
pub enum PromptSection {
    Text(String),
    Block(Vec<Stmt>),
}

/// A prompt definition.
pub struct PromptDef {
    pub name: String,
    pub span: Span,
    pub params: Vec<Param>,
    pub sections: Vec<PromptSection>,
}

/// A struct definition.
pub struct StructDef {
    pub name: String,
    pub span: Span,
    pub fields: Vec<FieldDef>,
}

/// An enum definition: its name and its variants' names.
pub struct EnumDef {
    pub name: String,
    pub span: Span,
    pub variants: Vec<String>,
}

/// A constant definition.
pub struct ConstDef {
    pub name: String,
    pub span: Span,
    pub ty: Option<TypeExpr>,
    pub value: Expr,
}

/// A top-level item.
pub enum Item {
    Function(FunctionDef),
    Class(ClassDef),
    Agent(AgentDef),
    Tool(ToolDef),
    Memory(MemoryDef),
    Prompt(PromptDef),
    Struct(StructDef),
    Enum(EnumDef),
    Import(Import),
    Const(ConstDef),
    Stmt(Stmt),
}

/// A module: its items in order.
pub struct Module {
    pub items: Vec<Item>,
}

} // verus!
