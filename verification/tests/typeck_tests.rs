use a16::typeck::annotations::TypeExpr;
use a16::typeck::bodies::{Import, ImportName, Param};
use a16::typeck::context::TypeContext;
use a16::typeck::patterns::Pattern;
use a16::typeck::statements::AugOp;
use a16::typeck::ast::{
    AgentConfig, AgentDef, AgentMember, ClassDef, ClassMember, ConstDef, EnumDef, Expr, ExprKind, FieldDef,
    FunctionDef, Item, MemoryDef, OnEventDef, PromptDef, Stmt, StructDef, TaskDef, ToolDef, ToolMember,
};
use a16::typeck::declarations::{
    register_item_type,
};
use a16::typeck::error::{Span, TypeError};
use a16::typeck::exhaustive::{check_exhaustiveness, PatternShape};
use a16::typeck::narrowing::{detect_none_check, narrow_type_from_condition, NarrowingContext};
use a16::typeck::operators::{BinaryOp, UnaryOp};
use a16::typeck::types::{types_equal, AgentInfo, ClassInfo, FieldInfo, StructInfo, ToolInfo, Type};

fn span() -> Span {
    Span { start: 3, end: 9 }
}

fn list(t: Type) -> Type {
    Type::List(Box::new(t))
}

fn func(params: Vec<Type>, ret: Type) -> Type {
    Type::Function { params, ret: Box::new(ret) }
}

fn same(a: &Type, b: &Type) -> bool {
    types_equal(a, b)
}

// ---------------------------------------------------------------------------
// Types
// ---------------------------------------------------------------------------

#[test]
fn type_display_forms() {
    assert_eq!(Type::Int.to_string(), "Int");
    assert_eq!(Type::NoneType.to_string(), "None");
    assert_eq!(list(Type::Str).to_string(), "List[Str]");
    assert_eq!(Type::Dict(Box::new(Type::Str), Box::new(Type::Int)).to_string(), "Dict[Str, Int]");
    assert_eq!(Type::Tuple(vec![Type::Int, Type::Str]).to_string(), "Tuple[Int, Str]");
    assert_eq!(Type::Union(vec![Type::Int, Type::NoneType]).to_string(), "Int | None");
    assert_eq!(func(vec![Type::Int, Type::Str], Type::Bool).to_string(), "(Int, Str) -> Bool");
    assert_eq!(
        Type::AsyncFunction { params: vec![], ret: Box::new(Type::Str) }.to_string(),
        "async () -> Str"
    );
    assert_eq!(Type::TypeVar(12).to_string(), "T12");
    assert_eq!(Type::Unknown.to_string(), "?");
    assert_eq!(Type::Error.to_string(), "<error>");
    assert_eq!(Type::Agent("bot".to_string()).to_string(), "Agent[bot]");
    assert_eq!(Type::Class("Point".to_string()).to_string(), "Point");
}

#[test]
fn type_predicates() {
    assert!(Type::Int.is_numeric());
    assert!(!Type::Str.is_numeric());
    assert!(Type::Bytes.is_primitive());
    assert!(func(vec![], Type::Int).is_callable());
    assert!(Type::Str.is_iterable());
    assert!(Type::Optional(Box::new(Type::Int)).is_nullable());
    assert!(Type::Error.is_error());
    assert!(Type::TypeVar(1).is_type_var());
    assert!(same(&list(Type::Int).element_type().unwrap(), &Type::Int));
    assert!(same(&Type::Str.element_type().unwrap(), &Type::Str));
    assert!(Type::Int.element_type().is_none());
    assert!(same(func(vec![Type::Int], Type::Bool).return_type().unwrap(), &Type::Bool));
    assert_eq!(func(vec![Type::Int, Type::Str], Type::Bool).param_types().unwrap().len(), 2);
}

#[test]
fn type_equality_is_structural() {
    assert!(same(&list(Type::Int), &list(Type::Int)));
    assert!(!same(&list(Type::Int), &list(Type::Float)));
    assert!(!same(&Type::Tuple(vec![Type::Int]), &Type::Tuple(vec![Type::Int, Type::Int])));
    assert!(same(&Type::Struct("P".to_string()), &Type::Struct("P".to_string())));
    assert!(!same(&Type::Struct("P".to_string()), &Type::Class("P".to_string())));
    assert!(same(&list(Type::Int).clone(), &list(Type::Int)));
}

// ---------------------------------------------------------------------------
// Context: scopes, symbols and registries
// ---------------------------------------------------------------------------

#[test]
fn context_new_knows_builtins() {
    let ctx = TypeContext::new();
    let print = ctx.lookup("print").unwrap();
    assert!(same(&print.ty, &func(vec![Type::Any], Type::NoneType)));
    assert!(!print.mutable);
    let split = ctx.lookup("split").unwrap();
    assert!(same(&split.ty, &func(vec![Type::Str, Type::Str], list(Type::Str))));
    let sleep = ctx.lookup("sleep").unwrap();
    assert!(same(&sleep.ty, &Type::AsyncFunction { params: vec![Type::Float], ret: Box::new(Type::NoneType) }));
    assert!(same(&ctx.lookup("True").unwrap().ty, &Type::Bool));
    assert!(same(&ctx.lookup("None").unwrap().ty, &Type::NoneType));
    assert!(same(&ctx.lookup("PI").unwrap().ty, &Type::Float));
    assert!(ctx.lookup("undefined_var").is_none());
    assert!(!ctx.has_errors());
    let d = TypeContext::default();
    assert!(d.lookup("tensor_sub").is_some());
}

#[test]
fn context_scopes_shadow_and_restore() {
    let mut ctx = TypeContext::new();
    ctx.define_let("x".to_string(), Type::Int, span());
    assert!(ctx.is_defined_locally("x"));
    ctx.enter_scope();
    assert!(!ctx.is_defined_locally("x"));
    assert!(same(&ctx.lookup("x").unwrap().ty, &Type::Int));
    ctx.define_const("x".to_string(), Type::Str, span());
    let inner = ctx.lookup("x").unwrap();
    assert!(same(&inner.ty, &Type::Str));
    assert!(!inner.mutable);
    ctx.exit_scope();
    let outer = ctx.lookup("x").unwrap();
    assert!(same(&outer.ty, &Type::Int));
    assert!(outer.mutable);
    assert_eq!(outer.span, span());
    // the global scope is never left
    ctx.exit_scope();
    assert!(ctx.lookup("print").is_some());
}

#[test]
fn context_function_and_loop_scopes() {
    let mut ctx = TypeContext::new();
    assert!(ctx.expected_return_type().is_none());
    assert!(!ctx.in_loop());
    assert!(!ctx.in_async());
    ctx.enter_function_scope(Type::Int, true);
    ctx.enter_loop_scope();
    assert!(ctx.in_loop());
    assert!(ctx.in_async());
    assert!(same(ctx.expected_return_type().unwrap(), &Type::Int));
    ctx.exit_scope();
    ctx.exit_scope();
    assert!(!ctx.in_loop());
    assert!(ctx.expected_return_type().is_none());
}

#[test]
fn context_registries() {
    let mut ctx = TypeContext::new();
    ctx.register_struct(StructInfo {
        name: "Point".to_string(),
        fields: vec![FieldInfo { name: "x".to_string(), ty: Type::Float, has_default: false }],
    });
    ctx.register_class(ClassInfo {
        name: "Counter".to_string(),
        fields: vec![],
        methods: vec![("get".to_string(), func(vec![], Type::Int))],
        base: None,
    });
    ctx.register_agent(AgentInfo {
        name: "Bot".to_string(),
        model_type: None,
        tools: vec!["web_search".to_string()],
        tasks: vec![],
    });
    ctx.register_tool(ToolInfo { name: "web_search".to_string(), permissions: vec![], execute_type: None });
    assert_eq!(ctx.lookup_struct("Point").unwrap().fields.len(), 1);
    assert_eq!(ctx.lookup_class("Counter").unwrap().methods[0].0, "get");
    assert_eq!(ctx.lookup_agent("Bot").unwrap().tools[0], "web_search");
    assert!(ctx.lookup_tool("web_search").is_some());
    assert!(ctx.lookup_struct("Counter").is_none());
    assert!(same(&ctx.resolve_simple_type("Point"), &Type::Struct("Point".to_string())));
    assert!(same(&ctx.resolve_simple_type("Counter"), &Type::Class("Counter".to_string())));
    assert!(same(&ctx.resolve_simple_type("Bot"), &Type::Agent("Bot".to_string())));
    assert!(same(&ctx.resolve_simple_type("Mystery"), &Type::Class("Mystery".to_string())));
    assert!(same(&ctx.resolve_simple_type("Int"), &Type::Int));
    assert!(same(&ctx.resolve_simple_type("None"), &Type::NoneType));
}

#[test]
fn context_errors_are_kept_and_taken() {
    let mut ctx = TypeContext::new();
    ctx.error(TypeError::undefined_var("y", span()));
    assert!(ctx.has_errors());
    assert_eq!(ctx.errors().len(), 1);
    assert_eq!(ctx.errors()[0].to_string(), "Undefined variable `y`");
    let taken = ctx.take_errors();
    assert_eq!(taken.len(), 1);
    assert!(!ctx.has_errors());
}

// ---------------------------------------------------------------------------
// Type variables, resolution and unification
// ---------------------------------------------------------------------------

#[test]
fn fresh_type_vars_are_distinct() {
    let mut ctx = TypeContext::new();
    let a = ctx.fresh_type_var();
    let b = ctx.fresh_type_var();
    assert!(same(&a, &Type::TypeVar(0)));
    assert!(same(&b, &Type::TypeVar(1)));
}

#[test]
fn resolve_follows_substitutions() {
    let mut ctx = TypeContext::new();
    ctx.set_substitution(1, list(Type::Int));
    ctx.set_substitution(0, Type::Tuple(vec![Type::TypeVar(2), Type::Str]));
    assert!(same(&ctx.resolve(&Type::TypeVar(1)), &list(Type::Int)));
    assert!(same(
        &ctx.resolve(&Type::Dict(Box::new(Type::Str), Box::new(Type::TypeVar(1)))),
        &Type::Dict(Box::new(Type::Str), Box::new(list(Type::Int)))
    ));
    assert!(same(&ctx.resolve(&Type::TypeVar(2)), &Type::TypeVar(2)));
    assert!(ctx.get_substitution(0).is_some());
    assert!(ctx.get_substitution(5).is_none());
}

#[test]
fn unify_binds_a_variable_and_reads_it_back() {
    let mut ctx = TypeContext::new();
    let v = ctx.fresh_type_var();
    let r = ctx.unify(&v, &list(Type::Str), span());
    assert!(same(&r, &list(Type::Str)));
    assert!(same(&ctx.resolve(&v), &list(Type::Str)));
    assert!(!ctx.has_errors());
}

#[test]
fn unify_same_type_changes_nothing() {
    let mut ctx = TypeContext::new();
    let r = ctx.unify(&Type::Int, &Type::Int, span());
    assert!(same(&r, &Type::Int));
    assert!(ctx.get_substitution(0).is_none());
    assert!(!ctx.has_errors());
}

#[test]
fn unify_gradual_and_widening_rules() {
    let mut ctx = TypeContext::new();
    assert!(same(&ctx.unify(&Type::Any, &Type::Str, span()), &Type::Str));
    assert!(same(&ctx.unify(&Type::Bool, &Type::Unknown, span()), &Type::Bool));
    assert!(same(&ctx.unify(&Type::Error, &Type::Str, span()), &Type::Error));
    assert!(same(&ctx.unify(&Type::Int, &Type::Float, span()), &Type::Float));
    let opt = Type::Optional(Box::new(Type::Int));
    assert!(same(&ctx.unify(&opt, &Type::NoneType, span()), &opt));
    assert!(same(&ctx.unify(&Type::NoneType, &opt, span()), &Type::NoneType));
    assert!(same(&ctx.unify(&opt, &Type::Int, span()), &opt));
    assert!(!ctx.has_errors());
}

#[test]
fn unify_structures_component_by_component() {
    let mut ctx = TypeContext::new();
    let a = ctx.fresh_type_var();
    let b = ctx.fresh_type_var();
    let t1 = func(vec![a.clone(), Type::Str], b.clone());
    let t2 = func(vec![Type::Int, Type::Str], list(a.clone()));
    let r = ctx.unify(&t1, &t2, span());
    assert!(same(&r, &func(vec![Type::Int, Type::Str], list(Type::Int))));
    assert!(same(&ctx.resolve(&b), &list(Type::Int)));
    assert!(same(&ctx.resolve(&r), &func(vec![Type::Int, Type::Str], list(Type::Int))));
    let d = ctx.unify(
        &Type::Dict(Box::new(Type::Str), Box::new(Type::Int)),
        &Type::Dict(Box::new(Type::Str), Box::new(Type::Float)),
        span(),
    );
    assert!(same(&d, &Type::Dict(Box::new(Type::Str), Box::new(Type::Float))));
    assert!(!ctx.has_errors());
}

#[test]
fn unify_unions() {
    let mut ctx = TypeContext::new();
    let u1 = Type::Union(vec![Type::Int, Type::Str]);
    let u2 = Type::Union(vec![Type::Str, Type::Bool]);
    assert!(same(&ctx.unify(&u1, &u2, span()), &Type::Union(vec![Type::Int, Type::Str, Type::Bool])));
    assert!(same(&ctx.unify(&Type::Union(vec![]), &Type::Union(vec![Type::Int]), span()), &Type::Int));
    assert!(same(&ctx.unify(&u1, &Type::Str, span()), &Type::Str));
    assert!(same(
        &ctx.unify(&u1, &Type::Bytes, span()),
        &Type::Union(vec![Type::Int, Type::Str, Type::Bytes])
    ));
}

#[test]
fn unify_mismatch_reports_error() {
    let mut ctx = TypeContext::new();
    let r = ctx.unify(&Type::Str, &list(Type::Int), span());
    assert!(r.is_error());
    assert_eq!(ctx.errors().len(), 1);
    assert_eq!(ctx.errors()[0].to_string(), "Cannot unify types `Str` and `List[Int]`");
    match &ctx.errors()[0] {
        TypeError::UnificationFailed { span: s, .. } => {
            assert_eq!(s.offset, 3);
            assert_eq!(s.len, 6);
        }
        _ => panic!("expected a unification error"),
    }
}

#[test]
fn unify_occurs_check_reports_recursive_type() {
    let mut ctx = TypeContext::new();
    let v = ctx.fresh_type_var();
    let r = ctx.unify(&v, &list(v.clone()), span());
    assert!(r.is_error());
    assert_eq!(ctx.errors()[0].to_string(), "Recursive type detected");
    assert!(ctx.get_substitution(0).is_none());
}

#[test]
fn compatibility_and_subtyping() {
    let mut ctx = TypeContext::new();
    let opt = Type::Optional(Box::new(Type::Int));
    assert!(ctx.types_compatible(&Type::Int, &Type::Float));
    assert!(ctx.types_compatible(&opt, &Type::NoneType));
    assert!(ctx.types_compatible(&Type::Tuple(vec![Type::Int, Type::Any]), &Type::Tuple(vec![Type::Float, Type::Str])));
    assert!(!ctx.types_compatible(&Type::Tuple(vec![Type::Int]), &Type::Tuple(vec![Type::Int, Type::Int])));
    assert!(!ctx.types_compatible(&Type::Str, &Type::Int));
    assert!(ctx.types_compatible(&Type::Union(vec![Type::Str, Type::Int]), &Type::Float));
    assert!(ctx.is_subtype(&Type::Int, &Type::Float));
    assert!(!ctx.is_subtype(&Type::Float, &Type::Int));
    assert!(ctx.is_subtype(&Type::NoneType, &opt));
    assert!(ctx.is_subtype(&Type::Int, &opt));
    assert!(ctx.is_subtype(&Type::Never, &Type::Str));
    assert!(ctx.is_subtype(&list(Type::Int), &list(Type::Float)));
    assert!(ctx.is_subtype(&Type::Str, &Type::Union(vec![Type::Int, Type::Str])));
    assert!(!ctx.is_subtype(&Type::Union(vec![Type::Int, Type::Str]), &Type::Int));
    assert!(ctx.is_subtype(&Type::Union(vec![Type::Int, Type::Int]), &Type::Float));
    let v = ctx.fresh_type_var();
    ctx.unify(&v, &Type::Int, span());
    assert!(ctx.is_subtype(&v, &Type::Float));
}

// ---------------------------------------------------------------------------
// Operators and methods
// ---------------------------------------------------------------------------

#[test]
fn binary_operator_types() {
    let mut ctx = TypeContext::new();
    assert!(same(&ctx.check_binary_types(BinaryOp::Add, &Type::Int, &Type::Int, span()), &Type::Int));
    assert!(same(&ctx.check_binary_types(BinaryOp::Add, &Type::Str, &Type::Str, span()), &Type::Str));
    assert!(same(&ctx.check_binary_types(BinaryOp::Sub, &Type::Int, &Type::Float, span()), &Type::Float));
    assert!(same(&ctx.check_binary_types(BinaryOp::Mul, &Type::Str, &Type::Int, span()), &Type::Str));
    assert!(same(&ctx.check_binary_types(BinaryOp::Mul, &Type::Int, &list(Type::Str), span()), &list(Type::Str)));
    assert!(same(&ctx.check_binary_types(BinaryOp::Div, &Type::Int, &Type::Int, span()), &Type::Float));
    assert!(same(&ctx.check_binary_types(BinaryOp::FloorDiv, &Type::Int, &Type::Int, span()), &Type::Int));
    assert!(same(&ctx.check_binary_types(BinaryOp::Mod, &Type::Float, &Type::Int, span()), &Type::Float));
    assert!(same(&ctx.check_binary_types(BinaryOp::Pow, &Type::Int, &Type::Int, span()), &Type::Int));
    assert!(same(&ctx.check_binary_types(BinaryOp::Pow, &Type::Str, &Type::Float, span()), &Type::Float));
    assert!(same(&ctx.check_binary_types(BinaryOp::BitAnd, &Type::Bool, &Type::Bool, span()), &Type::Bool));
    assert!(same(&ctx.check_binary_types(BinaryOp::And, &Type::Bool, &Type::Bool, span()), &Type::Bool));
    assert!(same(&ctx.check_binary_types(BinaryOp::Add, &Type::Any, &Type::Str, span()), &Type::Any));
    assert!(same(&ctx.check_binary_types(BinaryOp::Add, &Type::Error, &Type::Str, span()), &Type::Error));
    assert!(!ctx.has_errors());
    let r = ctx.check_binary_types(BinaryOp::Add, &list(Type::Int), &list(Type::Float), span());
    assert!(same(&r, &list(Type::Float)));
    let r = ctx.check_binary_types(BinaryOp::Or, &Type::Int, &Type::Int, span());
    assert!(same(&r, &Type::Int));
    assert!(!ctx.has_errors());
}

#[test]
fn binary_operator_errors_name_the_operator() {
    let mut ctx = TypeContext::new();
    let cases = [
        (BinaryOp::Add, "+"),
        (BinaryOp::Sub, "-"),
        (BinaryOp::Div, "/"),
        (BinaryOp::Mod, "%"),
        (BinaryOp::Pow, "**"),
        (BinaryOp::Shl, "<<"),
    ];
    for (op, text) in cases.iter() {
        let r = ctx.check_binary_types(*op, &Type::Str, &Type::Bool, span());
        assert!(r.is_error());
        let last = ctx.errors().last().unwrap().to_string();
        assert_eq!(last, format!("Operator `{}` cannot be applied to types `Str` and `Bool`", text));
    }
    assert_eq!(ctx.errors().len(), cases.len());
    let r = ctx.check_numeric_op(&Type::Str, &Type::Int, &BinaryOp::Sub, span());
    assert!(r.is_error());
    let r = ctx.check_logical_op(&Type::Int, &Type::Str, span());
    assert!(r.is_error());
    assert_eq!(ctx.errors().last().unwrap().to_string(), "Cannot unify types `Int` and `Str`");
}

#[test]
fn unary_operator_types() {
    let mut ctx = TypeContext::new();
    assert!(same(&ctx.check_unary_type(UnaryOp::Neg, &Type::Float, span()), &Type::Float));
    assert!(same(&ctx.check_unary_type(UnaryOp::Pos, &Type::Unknown, span()), &Type::Unknown));
    assert!(same(&ctx.check_unary_type(UnaryOp::Not, &Type::Str, span()), &Type::Bool));
    assert!(same(&ctx.check_unary_type(UnaryOp::BitNot, &Type::Any, span()), &Type::Int));
    assert!(same(&ctx.check_unary_type(UnaryOp::Neg, &Type::Error, span()), &Type::Error));
    assert!(!ctx.has_errors());
    assert!(ctx.check_unary_type(UnaryOp::BitNot, &Type::Float, span()).is_error());
    assert_eq!(ctx.errors()[0].to_string(), "Operator `~` cannot be applied to type `Float`");
    assert!(ctx.check_unary_type(UnaryOp::Neg, &Type::Str, span()).is_error());
    assert_eq!(ctx.errors()[1].to_string(), "Operator `-` cannot be applied to type `Str`");
}

#[test]
fn container_method_types() {
    let ctx = TypeContext::new();
    let l = list(Type::Int);
    assert!(same(&ctx.check_list_method("append", &l), &func(vec![Type::Int], Type::NoneType)));
    assert!(same(&ctx.check_list_method("extend", &l), &func(vec![list(Type::Int)], Type::NoneType)));
    assert!(same(&ctx.check_list_method("pop", &l), &func(vec![], Type::Int)));
    assert!(same(&ctx.check_list_method("copy", &l), &func(vec![], l.clone())));
    assert!(same(&ctx.check_list_method("pop", &Type::Str), &func(vec![], Type::Any)));
    assert!(same(&ctx.check_list_method("sort", &l), &Type::Any));
    let d = Type::Dict(Box::new(Type::Str), Box::new(Type::Int));
    assert!(same(
        &ctx.check_dict_method("get", &d),
        &func(vec![Type::Str], Type::Optional(Box::new(Type::Int)))
    ));
    assert!(same(
        &ctx.check_dict_method("items", &d),
        &func(vec![], Type::Iterator(Box::new(Type::Tuple(vec![Type::Str, Type::Int]))))
    ));
    assert!(same(&ctx.check_dict_method("keys", &Type::Int), &func(vec![], Type::Iterator(Box::new(Type::Any)))));
    assert!(same(&ctx.check_str_method("title"), &func(vec![], Type::Str)));
    assert!(same(&ctx.check_str_method("replace"), &func(vec![Type::Str, Type::Str], Type::Str)));
    assert!(same(&ctx.check_str_method("endswith"), &func(vec![Type::Str], Type::Bool)));
    assert!(same(&ctx.check_str_method("find"), &func(vec![Type::Str], Type::Int)));
    assert!(same(&ctx.check_str_method("zfill"), &Type::Any));
}

// ---------------------------------------------------------------------------
// Errors
// ---------------------------------------------------------------------------

#[test]
fn error_messages() {
    let s = span();
    assert_eq!(TypeError::type_mismatch("Int", "Str", s).to_string(), "Type mismatch: expected `Int`, found `Str`");
    assert_eq!(TypeError::not_callable("Int", s).to_string(), "Type `Int` is not callable");
    assert_eq!(TypeError::wrong_args(2, 3, s).to_string(), "Wrong number of arguments: expected 2, found 3");
    assert_eq!(TypeError::not_iterable("Int", s).to_string(), "Type `Int` is not iterable");
    assert_eq!(
        TypeError::not_indexable("Int", "Str", s).to_string(),
        "Type `Int` cannot be indexed with `Str`"
    );
    assert_eq!(TypeError::no_member("Str", "size", s).to_string(), "Type `Str` has no member `size`");
    assert_eq!(TypeError::custom("boom".to_string(), s).to_string(), "boom");
    assert_eq!(
        TypeError::non_exhaustive_match(&["true".to_string(), "None".to_string()], s).to_string(),
        "Non-exhaustive match: missing patterns: true, None"
    );
    assert_eq!(
        TypeError::unreachable_arm(s).to_string(),
        "Unreachable match arm: previous patterns already cover this case"
    );
}

// ---------------------------------------------------------------------------
// Exhaustiveness and narrowing
// ---------------------------------------------------------------------------

#[test]
fn exhaustiveness_of_bool_matches() {
    let arms = vec![PatternShape::Literal("true".to_string()), PatternShape::Literal("false".to_string())];
    let r = check_exhaustiveness(&Type::Bool, &arms);
    assert!(r.is_exhaustive);
    assert!(r.missing_patterns.is_empty());
    let arms = vec![PatternShape::Literal("true".to_string())];
    let r = check_exhaustiveness(&Type::Bool, &arms);
    assert!(!r.is_exhaustive);
    assert_eq!(r.missing_patterns, vec!["false".to_string()]);
}

#[test]
fn exhaustiveness_unreachable_after_wildcard() {
    let arms = vec![
        PatternShape::Literal("0".to_string()),
        PatternShape::Wildcard,
        PatternShape::Literal("1".to_string()),
        PatternShape::Binding,
    ];
    let r = check_exhaustiveness(&Type::Int, &arms);
    assert!(r.is_exhaustive);
    assert_eq!(r.unreachable_arms, vec![2, 3]);
    let arms = vec![PatternShape::Literal("0".to_string()), PatternShape::Literal("0".to_string())];
    let r = check_exhaustiveness(&Type::Int, &arms);
    assert!(!r.is_exhaustive);
    assert_eq!(r.missing_patterns, vec!["_".to_string()]);
    assert_eq!(r.unreachable_arms, vec![1]);
}

#[test]
fn exhaustiveness_of_optional_matches() {
    let opt = Type::Optional(Box::new(Type::Int));
    let r = check_exhaustiveness(&opt, &[PatternShape::Literal("None".to_string())]);
    assert!(!r.is_exhaustive);
    assert_eq!(r.missing_patterns, vec!["Some(Int)".to_string()]);
    let r = check_exhaustiveness(&opt, &[PatternShape::Or(vec![PatternShape::Literal("1".to_string()), PatternShape::Wildcard])]);
    assert!(r.is_exhaustive);
}

#[test]
fn none_checks_and_narrowing() {
    assert_eq!(detect_none_check("x is not None"), Some(("x".to_string(), true)));
    assert_eq!(detect_none_check("  user is None"), Some(("user".to_string(), false)));
    assert_eq!(detect_none_check("x > 3"), None);
    let opt = Type::Optional(Box::new(Type::Str));
    assert!(same(&narrow_type_from_condition(&opt, true).unwrap(), &Type::Str));
    assert!(same(&narrow_type_from_condition(&opt, false).unwrap(), &Type::NoneType));
    let u = Type::Union(vec![Type::Int, Type::NoneType, Type::Str]);
    assert!(same(&narrow_type_from_condition(&u, true).unwrap(), &Type::Union(vec![Type::Int, Type::Str])));
    let u1 = Type::Union(vec![Type::Int, Type::NoneType]);
    assert!(same(&narrow_type_from_condition(&u1, true).unwrap(), &Type::Int));
    assert!(narrow_type_from_condition(&Type::Int, true).is_none());
}

#[test]
fn narrowing_context_scopes() {
    let mut n = NarrowingContext::new();
    n.narrow("x".to_string(), Type::Int);
    n.enter_scope();
    assert!(same(n.get_narrowed("x").unwrap(), &Type::Int));
    n.narrow("x".to_string(), Type::Str);
    assert!(same(n.get_narrowed("x").unwrap(), &Type::Str));
    n.exit_scope();
    assert!(same(n.get_narrowed("x").unwrap(), &Type::Int));
    assert!(n.get_narrowed("y").is_none());
}

fn name(n: &str) -> TypeExpr {
    TypeExpr::Name(n.to_string())
}

fn generic(n: &str, args: Vec<TypeExpr>) -> TypeExpr {
    TypeExpr::Generic(n.to_string(), args)
}

#[test]
fn resolve_type_expr_names_and_containers() {
    let mut ctx = TypeContext::new();
    ctx.register_struct(StructInfo { name: "Point".to_string(), fields: vec![] });
    assert!(same(&ctx.resolve_type_expr(&name("Int")), &Type::Int));
    assert!(same(&ctx.resolve_type_expr(&name("Point")), &Type::Struct("Point".to_string())));
    assert!(same(&ctx.resolve_type_expr(&generic("List", vec![name("Str")])), &list(Type::Str)));
    assert!(same(
        &ctx.resolve_type_expr(&generic("Dict", vec![name("Str"), name("Int")])),
        &Type::Dict(Box::new(Type::Str), Box::new(Type::Int)),
    ));
    assert!(same(&ctx.resolve_type_expr(&generic("Set", vec![name("Int")])), &Type::SetOf(Box::new(Type::Int))));
    assert!(same(
        &ctx.resolve_type_expr(&generic("Tuple", vec![name("Int"), name("Bool"), name("Str")])),
        &Type::Tuple(vec![Type::Int, Type::Bool, Type::Str]),
    ));
    assert!(same(
        &ctx.resolve_type_expr(&generic("Result", vec![name("Int"), name("Str")])),
        &Type::Result(Box::new(Type::Int), Box::new(Type::Str)),
    ));
    assert!(same(
        &ctx.resolve_type_expr(&generic("Iterator", vec![name("Float")])),
        &Type::Iterator(Box::new(Type::Float)),
    ));
}

#[test]
fn resolve_type_expr_unknown_generics_are_classes() {
    let mut ctx = TypeContext::new();
    // A container with the wrong number of arguments, or an unknown name, is a class.
    assert!(same(&ctx.resolve_type_expr(&generic("List", vec![name("Int"), name("Int")])), &Type::Class("List".to_string())));
    assert!(same(&ctx.resolve_type_expr(&generic("Box", vec![name("Int")])), &Type::Class("Box".to_string())));
    assert!(same(&ctx.resolve_type_expr(&name("Widget")), &Type::Class("Widget".to_string())));
}

#[test]
fn resolve_type_expr_unions_optionals_callables() {
    let mut ctx = TypeContext::new();
    assert!(same(&ctx.resolve_type_expr(&TypeExpr::Union(vec![name("Int")])), &Type::Int));
    assert!(same(
        &ctx.resolve_type_expr(&TypeExpr::Union(vec![name("Int"), name("Str")])),
        &Type::Union(vec![Type::Int, Type::Str]),
    ));
    assert!(same(
        &ctx.resolve_type_expr(&TypeExpr::Optional(Box::new(name("Str")))),
        &Type::Optional(Box::new(Type::Str)),
    ));
    assert!(same(
        &ctx.resolve_type_expr(&TypeExpr::Callable(vec![name("Int"), name("Str")], Box::new(name("Bool")))),
        &func(vec![Type::Int, Type::Str], Type::Bool),
    ));
    assert!(same(
        &ctx.resolve_type_expr(&TypeExpr::Tuple(vec![])),
        &Type::Tuple(vec![]),
    ));
    assert!(same(
        &ctx.resolve_type_expr(&generic("List", vec![TypeExpr::Optional(Box::new(name("None")))])),
        &list(Type::Optional(Box::new(Type::NoneType))),
    ));
}

fn ann_params(anns: Vec<Option<TypeExpr>>) -> Vec<Param> {
    let mut out = Vec::new();
    for (i, a) in anns.into_iter().enumerate() {
        out.push(Param { name: format!("p{}", i), span: span(), ty: a });
    }
    out
}

fn fndef(n: &str, anns: Vec<Option<TypeExpr>>, ret: Option<TypeExpr>, is_async: bool, body: Vec<Stmt>) -> FunctionDef {
    FunctionDef { name: n.to_string(), span: span(), params: ann_params(anns), return_type: ret, is_async, body }
}

fn ex(kind: ExprKind) -> Expr {
    Expr { kind, span: span() }
}

fn id_expr(n: &str) -> Expr {
    ex(ExprKind::Ident(n.to_string()))
}

#[test]
fn register_function_items() {
    let mut ctx = TypeContext::new();
    let item = Item::Function(fndef("add", vec![Some(name("Int")), None], Some(name("Int")), false, vec![]));
    register_item_type(&mut ctx, &item);
    let sym = ctx.lookup("add").unwrap();
    assert!(same(&sym.ty, &func(vec![Type::Int, Type::TypeVar(0)], Type::Int)));
    assert!(!sym.mutable);
    assert_eq!(sym.span, span());
    // The next fresh variable comes after the one the parameter took.
    assert!(same(&ctx.fresh_type_var(), &Type::TypeVar(1)));

    let item = Item::Function(fndef("fetch", vec![None], None, true, vec![]));
    register_item_type(&mut ctx, &item);
    assert!(same(
        &ctx.lookup("fetch").unwrap().ty,
        &Type::AsyncFunction { params: vec![Type::TypeVar(2)], ret: Box::new(Type::TypeVar(3)) },
    ));
}

#[test]
fn register_struct_and_class_items() {
    let mut ctx = TypeContext::new();
    let point = Item::Struct(StructDef {
        name: "Point".to_string(),
        span: span(),
        fields: vec![
            FieldDef { name: "x".to_string(), ty: name("Float"), default: None },
            FieldDef { name: "y".to_string(), ty: name("Float"), default: Some(ex(ExprKind::Float)) },
        ],
    });
    register_item_type(&mut ctx, &point);
    let info = ctx.lookup_struct("Point").unwrap();
    assert_eq!(info.fields.len(), 2);
    assert_eq!(info.fields[1].name, "y");
    assert!(!info.fields[0].has_default);
    assert!(info.fields[1].has_default);
    assert!(same(&ctx.lookup("Point").unwrap().ty, &Type::Struct("Point".to_string())));

    let counter = Item::Class(ClassDef {
        name: "Counter".to_string(),
        span: span(),
        bases: vec![id_expr("Base"), id_expr("Other")],
        body: vec![
            ClassMember::Field(FieldDef { name: "origin".to_string(), ty: name("Point"), default: None }),
            ClassMember::Method(fndef("step", vec![None], None, false, vec![])),
            ClassMember::Class(ClassDef { name: "Inner".to_string(), span: span(), bases: vec![], body: vec![] }),
            ClassMember::Method(fndef("get", vec![], Some(name("Int")), true, vec![])),
        ],
    });
    register_item_type(&mut ctx, &counter);
    let info = ctx.lookup_class("Counter").unwrap();
    assert_eq!(info.fields.len(), 1);
    assert!(same(&info.fields[0].ty, &Type::Struct("Point".to_string())));
    assert_eq!(info.methods.len(), 2);
    assert_eq!(info.methods[0].0, "step");
    assert!(same(&info.methods[0].1, &func(vec![Type::TypeVar(0)], Type::TypeVar(1))));
    // Methods are registered as plain functions, even asynchronous ones.
    assert!(same(&info.methods[1].1, &func(vec![], Type::Int)));
    assert_eq!(info.base, Some("Base".to_string()));
    assert!(same(&ctx.lookup("Counter").unwrap().ty, &Type::Class("Counter".to_string())));
    // A nested class is not registered by the first pass.
    assert!(ctx.lookup_class("Inner").is_none());

    // A base that is not a plain name gives no base.
    let derived = Item::Class(ClassDef { name: "Derived".to_string(), span: span(), bases: vec![ex(ExprKind::Int)], body: vec![] });
    register_item_type(&mut ctx, &derived);
    assert_eq!(ctx.lookup_class("Derived").unwrap().base, None);
}

#[test]
fn register_agent_and_tool_items() {
    let mut ctx = TypeContext::new();
    let agent = Item::Agent(AgentDef {
        name: "Helper".to_string(),
        span: span(),
        config: vec![
            AgentConfig::Tools(vec![id_expr("search"), ex(ExprKind::Str)]),
            AgentConfig::Model(ex(ExprKind::Str)),
        ],
        members: vec![
            AgentMember::Task(TaskDef {
                name: "answer".to_string(),
                params: ann_params(vec![Some(name("Str"))]),
                return_type: None,
                body: vec![],
            }),
            AgentMember::Config(AgentConfig::Tools(vec![id_expr("calc")])),
            AgentMember::OnEvent(OnEventDef { event: "start".to_string(), params: vec![], body: vec![] }),
        ],
    });
    register_item_type(&mut ctx, &agent);
    let info = ctx.lookup_agent("Helper").unwrap();
    assert_eq!(info.tools, vec!["search".to_string(), "calc".to_string()]);
    assert!(info.model_type.is_none());
    assert_eq!(info.tasks.len(), 1);
    assert!(same(
        &info.tasks[0].1,
        &Type::AsyncFunction { params: vec![Type::Str], ret: Box::new(Type::TypeVar(0)) },
    ));
    assert!(same(&ctx.lookup("Helper").unwrap().ty, &Type::Agent("Helper".to_string())));

    let tool = Item::Tool(ToolDef {
        name: "web".to_string(),
        span: span(),
        members: vec![
            ToolMember::Permissions(vec!["network".to_string()]),
            ToolMember::Method(fndef("execute", vec![Some(name("Str"))], Some(name("Int")), false, vec![])),
            ToolMember::Method(fndef("helper", vec![], None, false, vec![])),
            ToolMember::Permissions(vec!["file_read".to_string()]),
            ToolMember::Method(fndef("execute", vec![None, Some(name("Str"))], None, false, vec![])),
            ToolMember::Audit("full".to_string()),
        ],
    });
    register_item_type(&mut ctx, &tool);
    let info = ctx.lookup_tool("web").unwrap();
    assert_eq!(info.permissions, vec!["network".to_string(), "file_read".to_string()]);
    // The last `execute` wins; its missing annotations read as Any.
    assert!(same(info.execute_type.as_ref().unwrap(), &func(vec![Type::Any, Type::Str], Type::Any)));
    assert!(same(&ctx.lookup("web").unwrap().ty, &Type::Tool("web".to_string())));
    // Tools take no fresh type variables.
    assert!(same(&ctx.fresh_type_var(), &Type::TypeVar(1)));
}

#[test]
fn register_nominal_and_other_items() {
    let mut ctx = TypeContext::new();
    register_item_type(&mut ctx, &Item::Memory(MemoryDef { name: "notes".to_string(), span: span(), members: vec![] }));
    register_item_type(
        &mut ctx,
        &Item::Prompt(PromptDef { name: "greet".to_string(), span: span(), params: vec![], sections: vec![] }),
    );
    register_item_type(
        &mut ctx,
        &Item::Enum(EnumDef { name: "Color".to_string(), span: span(), variants: vec!["Red".to_string()] }),
    );
    register_item_type(&mut ctx, &Item::Stmt(Stmt::Pass));
    register_item_type(
        &mut ctx,
        &Item::Const(ConstDef { name: "LIMIT".to_string(), span: span(), ty: None, value: ex(ExprKind::Int) }),
    );
    assert!(same(&ctx.lookup("notes").unwrap().ty, &Type::Memory("notes".to_string())));
    assert!(same(&ctx.lookup("greet").unwrap().ty, &Type::Prompt("greet".to_string())));
    assert!(same(&ctx.lookup("Color").unwrap().ty, &Type::Enum("Color".to_string())));
    // Constants are defined by the checking pass, not by registering.
    assert!(ctx.lookup("LIMIT").is_none());
    assert!(same(&ctx.fresh_type_var(), &Type::TypeVar(0)));
}

fn ident(n: &str) -> Pattern {
    Pattern::Ident(n.to_string(), span())
}

#[test]
fn let_patterns_bind_variables() {
    let mut ctx = TypeContext::new();
    ctx.bind_let_pattern(&ident("a"), &Type::Int, false);
    let a = ctx.lookup("a").unwrap();
    assert!(same(&a.ty, &Type::Int));
    assert!(!a.mutable);

    // Pairwise against a tuple type, as far as both go.
    let tuple_ty = Type::Tuple(vec![Type::Str, Type::Bool, Type::Int]);
    ctx.bind_let_pattern(&Pattern::Tuple(vec![ident("b"), ident("c")]), &tuple_ty, true);
    assert!(same(&ctx.lookup("b").unwrap().ty, &Type::Str));
    assert!(same(&ctx.lookup("c").unwrap().ty, &Type::Bool));
    assert!(ctx.lookup("c").unwrap().mutable);

    // Against anything else, the parts bind to Any.
    ctx.bind_let_pattern(&Pattern::Tuple(vec![ident("d")]), &Type::Int, false);
    assert!(same(&ctx.lookup("d").unwrap().ty, &Type::Any));

    // List patterns bind the element type, rest patterns a list.
    ctx.bind_let_pattern(&Pattern::List(vec![ident("e"), Pattern::Wildcard]), &list(Type::Float), false);
    assert!(same(&ctx.lookup("e").unwrap().ty, &Type::Float));
    ctx.bind_let_pattern(&Pattern::List(vec![ident("f")]), &Type::Bool, false);
    assert!(same(&ctx.lookup("f").unwrap().ty, &Type::Any));
    ctx.bind_let_pattern(&Pattern::Rest("g".to_string(), span()), &Type::Int, false);
    assert!(same(&ctx.lookup("g").unwrap().ty, &list(Type::Int)));

    // Class arguments bind to Any; every alternative of an or-pattern binds.
    ctx.bind_let_pattern(&Pattern::Class(vec![ident("h")]), &Type::Int, false);
    assert!(same(&ctx.lookup("h").unwrap().ty, &Type::Any));
    ctx.bind_let_pattern(&Pattern::Or(vec![ident("i"), ident("j"), Pattern::Literal]), &Type::Str, false);
    assert!(same(&ctx.lookup("i").unwrap().ty, &Type::Str));
    assert!(same(&ctx.lookup("j").unwrap().ty, &Type::Str));
}

#[test]
fn for_targets_and_match_patterns() {
    let mut ctx = TypeContext::new();
    ctx.bind_pattern(&ident("x"), &Type::Int);
    assert!(ctx.lookup("x").unwrap().mutable);

    // In a match arm, a tuple pattern binds only against a tuple of its length.
    let pair = Type::Tuple(vec![Type::Int, Type::Str]);
    ctx.check_pattern(&Pattern::Tuple(vec![ident("p")]), &pair);
    assert!(ctx.lookup("p").is_none());
    ctx.check_pattern(&Pattern::Tuple(vec![ident("q")]), &Type::Int);
    assert!(ctx.lookup("q").is_none());
    ctx.check_pattern(&Pattern::Tuple(vec![ident("r"), ident("s")]), &pair);
    assert!(same(&ctx.lookup("r").unwrap().ty, &Type::Int));
    assert!(same(&ctx.lookup("s").unwrap().ty, &Type::Str));
    assert!(ctx.lookup("s").unwrap().mutable);
    // The same pattern in a let binds to Any.
    ctx.bind_let_pattern(&Pattern::Tuple(vec![ident("q")]), &Type::Int, false);
    assert!(same(&ctx.lookup("q").unwrap().ty, &Type::Any));
}

#[test]
fn member_access_types() {
    let mut ctx = TypeContext::new();
    ctx.register_struct(StructInfo {
        name: "Point".to_string(),
        fields: vec![FieldInfo { name: "x".to_string(), ty: Type::Float, has_default: false }],
    });
    ctx.register_class(ClassInfo {
        name: "Counter".to_string(),
        fields: vec![FieldInfo { name: "count".to_string(), ty: Type::Int, has_default: true }],
        methods: vec![("get".to_string(), func(vec![], Type::Int))],
        base: None,
    });
    ctx.register_agent(AgentInfo {
        name: "Bot".to_string(),
        model_type: None,
        tools: vec![],
        tasks: vec![("run".to_string(), func(vec![], Type::Str))],
    });
    let counter = Type::Class("Counter".to_string());
    assert!(same(&ctx.check_attribute_type(&counter, "get", span()), &func(vec![], Type::Int)));
    assert!(same(&ctx.check_attribute_type(&counter, "count", span()), &Type::Int));
    assert!(same(&ctx.check_attribute_type(&Type::Struct("Point".to_string()), "x", span()), &Type::Float));
    let bot = Type::Agent("Bot".to_string());
    assert!(same(&ctx.check_attribute_type(&bot, "run", span()), &func(vec![], Type::Str)));
    assert!(same(&ctx.check_attribute_type(&bot, "other", span()), &Type::Any));
    assert!(same(&ctx.check_attribute_type(&Type::Str, "upper", span()), &func(vec![], Type::Str)));
    assert!(same(
        &ctx.check_attribute_type(&list(Type::Int), "pop", span()),
        &func(vec![], Type::Int),
    ));
    assert!(same(&ctx.check_attribute_type(&Type::Unknown, "anything", span()), &Type::Any));
    assert!(!ctx.has_errors());

    assert!(same(&ctx.check_attribute_type(&counter, "missing", span()), &Type::Error));
    assert!(same(&ctx.check_attribute_type(&Type::Int, "real", span()), &Type::Error));
    let errors = ctx.take_errors();
    assert_eq!(errors.len(), 2);
    assert_eq!(errors[0].to_string(), "Type `Counter` has no member `missing`");
    assert_eq!(errors[1].to_string(), "Type `Int` has no member `real`");
}

#[test]
fn subscript_types() {
    let mut ctx = TypeContext::new();
    assert!(same(&ctx.check_subscript_type(&list(Type::Str), &Type::Int, span()), &Type::Str));
    assert!(same(&ctx.check_subscript_type(&Type::Str, &Type::Any, span()), &Type::Str));
    assert!(same(&ctx.check_subscript_type(&Type::Tuple(vec![]), &Type::Int, span()), &Type::Never));
    assert!(same(&ctx.check_subscript_type(&Type::Tuple(vec![Type::Bool]), &Type::Int, span()), &Type::Bool));
    assert!(same(
        &ctx.check_subscript_type(&Type::Tuple(vec![Type::Bool, Type::Int]), &Type::Int, span()),
        &Type::Any,
    ));
    let dict = Type::Dict(Box::new(Type::Str), Box::new(Type::Int));
    assert!(same(&ctx.check_subscript_type(&dict, &Type::Str, span()), &Type::Int));
    assert!(!ctx.has_errors());

    // The list still gives its element type when the index is wrong.
    assert!(same(&ctx.check_subscript_type(&list(Type::Int), &Type::Str, span()), &Type::Int));
    assert!(same(&ctx.check_subscript_type(&Type::Int, &Type::Int, span()), &Type::Error));
    let errors = ctx.take_errors();
    assert_eq!(errors.len(), 2);
    assert_eq!(errors[1].to_string(), "Type `Int` cannot be indexed with `Int`");

    // A dict unifies its key type with the index.
    let var_dict = Type::Dict(Box::new(Type::TypeVar(7)), Box::new(Type::Bool));
    assert!(same(&ctx.check_subscript_type(&var_dict, &Type::Str, span()), &Type::Bool));
    assert!(same(ctx.get_substitution(7).unwrap(), &Type::Str));
}

#[test]
fn iteration_element_types() {
    let mut ctx = TypeContext::new();
    assert!(same(&ctx.check_iterable_type(&list(Type::Int), span()), &Type::Int));
    assert!(same(&ctx.check_iterable_type(&Type::SetOf(Box::new(Type::Str)), span()), &Type::Str));
    assert!(same(
        &ctx.check_iterable_type(&Type::Dict(Box::new(Type::Str), Box::new(Type::Int)), span()),
        &Type::Str,
    ));
    assert!(same(&ctx.check_iterable_type(&Type::Str, span()), &Type::Str));
    assert!(same(&ctx.check_iterable_type(&Type::Tuple(vec![Type::Int]), span()), &Type::Int));
    assert!(same(
        &ctx.check_iterable_type(&Type::Tuple(vec![Type::Int, Type::Str]), span()),
        &Type::Union(vec![Type::Int, Type::Str]),
    ));
    assert!(same(&ctx.check_iterable_type(&Type::Unknown, span()), &Type::Any));
    assert!(!ctx.has_errors());
    assert!(same(&ctx.check_iterable_type(&Type::Tuple(vec![]), span()), &Type::Error));
    assert!(same(&ctx.check_iterable_type(&Type::Int, span()), &Type::Error));
    let errors = ctx.take_errors();
    assert_eq!(errors.len(), 2);
    assert_eq!(errors[1].to_string(), "Type `Int` is not iterable");
}

#[test]
fn assignments_to_names() {
    let mut ctx = TypeContext::new();
    let def = Span { start: 0, end: 1 };
    ctx.define_const("k".to_string(), Type::Int, def);
    ctx.define_let("v".to_string(), Type::TypeVar(3), def);
    ctx.check_assign_name("v", span(), &Type::Str, span());
    assert!(!ctx.has_errors());
    assert!(same(ctx.get_substitution(3).unwrap(), &Type::Str));

    ctx.check_assign_name("k", span(), &Type::Int, span());
    ctx.check_assign_name("nope", span(), &Type::Int, span());
    ctx.check_assign_target_name("k", span());
    ctx.check_assign_target_name("v", span());
    let errors = ctx.take_errors();
    assert_eq!(errors.len(), 3);
    assert_eq!(errors[0].to_string(), "Cannot assign to immutable variable `k`");
    assert_eq!(errors[1].to_string(), "Undefined variable `nope`");
    assert_eq!(errors[2].to_string(), "Cannot assign to immutable variable `k`");
}

#[test]
fn augmented_assignments() {
    let mut ctx = TypeContext::new();
    let def = Span { start: 0, end: 1 };
    ctx.define_let("n".to_string(), Type::Int, def);
    ctx.check_aug_assign_types(Some(("n", span())), AugOp::Add, &Type::Int, &Type::Int, span());
    assert!(!ctx.has_errors());
    // `*=` runs the check of `-`, so its report names `-`.
    ctx.check_aug_assign_types(Some(("n", span())), AugOp::Mul, &Type::Str, &Type::Int, span());
    ctx.define_const("c".to_string(), Type::Int, def);
    ctx.check_aug_assign_types(Some(("c", span())), AugOp::Add, &Type::Int, &Type::Int, span());
    // An undefined name is not reported here.
    ctx.check_aug_assign_types(Some(("zz", span())), AugOp::Add, &Type::Int, &Type::Int, span());
    ctx.check_aug_assign_types(None, AugOp::Shl, &Type::Str, &Type::Str, span());
    let errors = ctx.take_errors();
    assert_eq!(errors.len(), 3);
    assert_eq!(errors[0].to_string(), "Operator `-` cannot be applied to types `Str` and `Int`");
    assert_eq!(errors[1].to_string(), "Cannot assign to immutable variable `c`");
    assert_eq!(errors[2].to_string(), "Operator `&` cannot be applied to types `Str` and `Str`");
}

#[test]
fn returns_unify_with_the_declared_type() {
    let mut ctx = TypeContext::new();
    // Outside a function nothing is checked.
    ctx.check_return_type(Some(&Type::Str), span());
    assert!(!ctx.has_errors());
    ctx.enter_function_scope(Type::Int, false);
    ctx.check_return_type(Some(&Type::Int), span());
    assert!(!ctx.has_errors());
    ctx.check_return_type(None, span());
    assert_eq!(ctx.errors().len(), 1);
    assert_eq!(ctx.errors()[0].to_string(), "Cannot unify types `Int` and `None`");
}

#[test]
fn callee_types() {
    let mut ctx = TypeContext::new();
    let f = func(vec![Type::Int, Type::Str], Type::Bool);
    let (ret, params) = ctx.check_callee_type(&f, 2, span());
    assert!(same(&ret, &Type::Bool));
    assert_eq!(params.len(), 2);
    assert!(same(&params[1], &Type::Str));
    let (ret, _) = ctx.check_callee_type(&Type::Struct("Point".to_string()), 0, span());
    assert!(same(&ret, &Type::Class("Point".to_string())));
    let (ret, params) = ctx.check_callee_type(&Type::Agent("Bot".to_string()), 3, span());
    assert!(same(&ret, &Type::Agent("Bot".to_string())));
    assert!(params.is_empty());
    // A parameter of type Any accepts any number of arguments.
    let (_, _) = ctx.check_callee_type(&func(vec![Type::Any], Type::NoneType), 4, span());
    assert!(!ctx.has_errors());

    let (ret, _) = ctx.check_callee_type(&f, 1, span());
    assert!(same(&ret, &Type::Bool));
    let (ret, _) = ctx.check_callee_type(&Type::Int, 0, span());
    assert!(same(&ret, &Type::Error));
    let errors = ctx.take_errors();
    assert_eq!(errors.len(), 2);
    assert_eq!(errors[0].to_string(), "Wrong number of arguments: expected 2, found 1");
    assert_eq!(errors[1].to_string(), "Type `Int` is not callable");
}

#[test]
fn let_statements() {
    let mut ctx = TypeContext::new();
    // `let a = <Int>`
    ctx.check_let_types(Some(&Type::Int), None, &ident("a"), true, false, span());
    assert!(same(&ctx.lookup("a").unwrap().ty, &Type::Int));
    assert!(ctx.lookup("a").unwrap().mutable);
    // `const b: Str` with no initializer binds the annotation, immutably.
    ctx.check_let_types(None, Some(&name("Str")), &ident("b"), true, true, span());
    assert!(same(&ctx.lookup("b").unwrap().ty, &Type::Str));
    assert!(!ctx.lookup("b").unwrap().mutable);
    // `let c` takes a fresh type variable; the declaration of `b` took the first
    // one, as every `let` without an initializer does.
    ctx.check_let_types(None, None, &ident("c"), false, false, span());
    assert!(same(&ctx.lookup("c").unwrap().ty, &Type::TypeVar(1)));
    // `let d: Optional[Int] = <None>` binds the unified type.
    ctx.check_let_types(Some(&Type::NoneType), Some(&generic("Optional", vec![name("Int")])), &ident("d"), false, false, span());
    assert!(same(&ctx.lookup("d").unwrap().ty, &Type::Optional(Box::new(Type::Int))));
    assert!(!ctx.has_errors());
    // `let e: Int = <Str>` reports the mismatch.
    ctx.check_let_types(Some(&Type::Str), Some(&name("Int")), &ident("e"), false, false, span());
    assert_eq!(ctx.errors().len(), 1);
    assert_eq!(ctx.errors()[0].to_string(), "Cannot unify types `Int` and `Str`");
}

fn param(n: &str, ty: Option<TypeExpr>) -> Param {
    Param { name: n.to_string(), span: span(), ty }
}

#[test]
fn function_bodies_bind_parameters() {
    let mut ctx = TypeContext::new();
    let params = vec![param("a", Some(name("Int"))), param("b", None)];
    ctx.enter_function_body(&params, &None, true);
    assert!(same(&ctx.lookup("a").unwrap().ty, &Type::Int));
    assert!(same(&ctx.lookup("b").unwrap().ty, &Type::TypeVar(0)));
    assert!(ctx.lookup("b").unwrap().mutable);
    // The result took the next fresh variable.
    assert!(same(ctx.expected_return_type().unwrap(), &Type::TypeVar(1)));
    assert!(ctx.in_async());
    ctx.exit_scope();
    assert!(ctx.lookup("a").is_none());

    ctx.enter_handler_body(&vec![param("event", None)]);
    assert!(same(&ctx.lookup("event").unwrap().ty, &Type::TypeVar(2)));
    assert!(same(ctx.expected_return_type().unwrap(), &Type::NoneType));
    assert!(ctx.in_async());
    ctx.exit_scope();

    ctx.enter_function_body(&vec![], &Some(name("Str")), false);
    assert!(same(ctx.expected_return_type().unwrap(), &Type::Str));
    assert!(!ctx.in_async());
}

#[test]
fn imports_and_constants() {
    let mut ctx = TypeContext::new();
    let part = |n: &str| ImportName { name: n.to_string(), span: span() };
    ctx.check_import(&Import::Module { path: vec![part("os"), part("path")], alias: None });
    ctx.check_import(&Import::Module { path: vec![part("numpy")], alias: Some(part("np")) });
    ctx.check_import(&Import::From { items: vec![(part("sqrt"), None), (part("floor"), Some(part("fl")))] });
    for n in ["path", "np", "sqrt", "fl"] {
        let sym = ctx.lookup(n).unwrap();
        assert!(same(&sym.ty, &Type::Any));
        assert!(!sym.mutable);
    }
    assert!(ctx.lookup("numpy").is_none());
    assert!(ctx.lookup("floor").is_none());

    ctx.check_const_types("LIMIT", span(), Some(&name("Float")), &Type::Int, span());
    assert!(same(&ctx.lookup("LIMIT").unwrap().ty, &Type::Float));
    ctx.check_const_types("NAME", span(), None, &Type::Str, span());
    assert!(same(&ctx.lookup("NAME").unwrap().ty, &Type::Str));
    assert!(!ctx.lookup("NAME").unwrap().mutable);
    assert!(!ctx.has_errors());
    ctx.check_const_types("BAD", span(), Some(&name("Int")), &Type::Str, span());
    assert_eq!(ctx.errors().len(), 1);
    assert!(same(&ctx.lookup("BAD").unwrap().ty, &Type::Error));
}

#[test]
fn names_in_expressions() {
    let mut ctx = TypeContext::new();
    ctx.define_let("x".to_string(), Type::Float, span());
    assert!(same(&ctx.check_ident_type("x", span()), &Type::Float));
    assert!(same(&ctx.check_ident_type("print", span()), &ctx.lookup("print").unwrap().ty.clone()));
    assert!(!ctx.has_errors());
    assert!(same(&ctx.check_ident_type("ghost", span()), &Type::Error));
    assert_eq!(ctx.errors()[0].to_string(), "Undefined variable `ghost`");
}

#[test]
fn substitutions_may_bind_to_bound_variables() {
    // A binding may name a variable that is itself bound, as long as no cycle forms.
    let mut ctx = TypeContext::new();
    ctx.set_substitution(0, Type::TypeVar(1));
    ctx.set_substitution(1, list(Type::TypeVar(2)));
    ctx.set_substitution(2, Type::Str);
    assert!(same(&ctx.resolve(&Type::TypeVar(0)), &list(Type::Str)));
}
