use a16::typeck::annotations::TypeExpr;
use a16::typeck::ast::{
    AgentConfig, AgentDef, AgentMember, ClassDef, ClassMember, ConstDef, EnumDef, Expr, ExprKind, FieldDef,
    FunctionDef, Generator, Item, LetStmt, MatchArm, MemoryDef, MemoryMember, Module, OnEventDef, PromptDef,
    PromptSection, Stmt, StructDef, TaskDef, ToolDef, ToolMember,
};
use a16::typeck::bodies::{Import, ImportName, Param};
use a16::typeck::check;
use a16::typeck::check_with_context;
use a16::typeck::context::TypeContext;
use a16::typeck::error::{Span, TypeError};
use a16::typeck::operators::BinaryOp;
use a16::typeck::patterns::Pattern;
use a16::typeck::statements::AugOp;
use a16::typeck::types::Type;

fn sp() -> Span {
    Span { start: 1, end: 4 }
}

fn at(start: u32, end: u32) -> Span {
    Span { start, end }
}

fn ex(kind: ExprKind) -> Expr {
    Expr { kind, span: sp() }
}

fn int_lit() -> Expr {
    ex(ExprKind::Int)
}

fn float() -> Expr {
    ex(ExprKind::Float)
}

fn string() -> Expr {
    ex(ExprKind::Str)
}

fn var(n: &str) -> Expr {
    ex(ExprKind::Ident(n.to_string()))
}

fn bin(op: BinaryOp, a: Expr, b: Expr) -> Expr {
    ex(ExprKind::Binary(op, Box::new(a), Box::new(b)))
}

fn cmp(a: Expr, b: Expr) -> Expr {
    ex(ExprKind::Compare(Box::new(a), vec![b]))
}

fn call(f: &str, args: Vec<Expr>) -> Expr {
    ex(ExprKind::Call(Box::new(var(f)), args))
}

fn list(es: Vec<Expr>) -> Expr {
    ex(ExprKind::List(es))
}

fn ty(n: &str) -> TypeExpr {
    TypeExpr::Name(n.to_string())
}

fn let_(n: &str, value: Expr) -> Stmt {
    Stmt::Let(LetStmt {
        pattern: Pattern::Ident(n.to_string(), sp()),
        ty: None,
        value: Some(value),
        is_mutable: false,
        is_const: false,
        span: sp(),
    })
}

fn let_mut(n: &str, value: Expr) -> Stmt {
    Stmt::Let(LetStmt {
        pattern: Pattern::Ident(n.to_string(), sp()),
        ty: None,
        value: Some(value),
        is_mutable: true,
        is_const: false,
        span: sp(),
    })
}

fn top_let(n: &str, value: Expr) -> Item {
    Item::Stmt(let_(n, value))
}

fn print(e: Expr) -> Stmt {
    Stmt::Expr(call("print", vec![e]))
}

fn ret(e: Expr) -> Stmt {
    Stmt::Return { value: Some(e), span: sp() }
}

fn param(n: &str, t: Option<TypeExpr>) -> Param {
    Param { name: n.to_string(), span: sp(), ty: t }
}

fn func(n: &str, params: Vec<Param>, rt: Option<TypeExpr>, is_async: bool, body: Vec<Stmt>) -> FunctionDef {
    FunctionDef { name: n.to_string(), span: sp(), params, return_type: rt, is_async, body }
}

fn messages(items: Vec<Item>) -> Vec<String> {
    let errors = check(&Module { items });
    errors.iter().map(|e| e.to_string()).collect()
}

fn check_ok(items: Vec<Item>) {
    let errors = messages(items);
    assert!(errors.is_empty(), "Expected no errors, got: {:?}", errors);
}

fn check_err(items: Vec<Item>, expected_substr: &str) {
    let errors = messages(items);
    assert!(!errors.is_empty(), "Expected errors containing '{}', got none", expected_substr);
    let has_match = errors.iter().any(|e| e.contains(expected_substr));
    assert!(has_match, "Expected error containing '{}', got: {:?}", expected_substr, errors);
}

// let a = 42 / let b = 3.14 / let c = True / let d = "hello" / let e = None
#[test]
fn test_literal_types() {
    check_ok(vec![
        top_let("a", int_lit()),
        top_let("b", float()),
        top_let("c", ex(ExprKind::Bool)),
        top_let("d", string()),
        top_let("e", ex(ExprKind::NoneLit)),
    ]);
}

// let nums = [1, 2, 3] / let strs = ["a", "b", "c"]
#[test]
fn test_list_type_inference() {
    check_ok(vec![
        top_let("nums", list(vec![int_lit(), int_lit(), int_lit()])),
        top_let("strs", list(vec![string(), string(), string()])),
    ]);
}

// let scores = {"alice": 100, "bob": 85}
#[test]
fn test_dict_type_inference() {
    check_ok(vec![top_let("scores", ex(ExprKind::Dict(vec![(string(), int_lit()), (string(), int_lit())])))]);
}

// fn add(a: Int, b: Int) -> Int: return a + b
#[test]
fn test_simple_function() {
    check_ok(vec![Item::Function(func(
        "add",
        vec![param("a", Some(ty("Int"))), param("b", Some(ty("Int")))],
        Some(ty("Int")),
        false,
        vec![ret(bin(BinaryOp::Add, var("a"), var("b")))],
    ))]);
}

// fn double(x: Int) -> Int: return x * 2 / let result = double(21)
#[test]
fn test_function_call() {
    check_ok(vec![
        Item::Function(func(
            "double",
            vec![param("x", Some(ty("Int")))],
            Some(ty("Int")),
            false,
            vec![ret(bin(BinaryOp::Mul, var("x"), int_lit()))],
        )),
        top_let("result", call("double", vec![int_lit()])),
    ]);
}

// let a = 1 + 2 / let b = 3.0 - 1.5 / let c = 2 * 3 / let d = 10 / 3 /
// let e = 10 // 3 / let f = 10 % 3 / let g = 2 ** 8
#[test]
fn test_numeric_operators() {
    check_ok(vec![
        top_let("a", bin(BinaryOp::Add, int_lit(), int_lit())),
        top_let("b", bin(BinaryOp::Sub, float(), float())),
        top_let("c", bin(BinaryOp::Mul, int_lit(), int_lit())),
        top_let("d", bin(BinaryOp::Div, int_lit(), int_lit())),
        top_let("e", bin(BinaryOp::FloorDiv, int_lit(), int_lit())),
        top_let("f", bin(BinaryOp::Mod, int_lit(), int_lit())),
        top_let("g", bin(BinaryOp::Pow, int_lit(), int_lit())),
    ]);
}

// let s = "hello" + " " + "world"
#[test]
fn tests_test_string_concat() {
    check_ok(vec![top_let("s", bin(BinaryOp::Add, bin(BinaryOp::Add, string(), string()), string()))]);
}

// let x = 10 / if x > 5: print("big") elif x > 0: print("small") else: print(...)
#[test]
fn test_if_statement() {
    check_ok(vec![
        top_let("x", int_lit()),
        Item::Stmt(Stmt::If {
            condition: cmp(var("x"), int_lit()),
            then_block: vec![print(string())],
            elifs: vec![(cmp(var("x"), int_lit()), vec![print(string())])],
            else_block: Some(vec![print(string())]),
        }),
    ]);
}

// let items = [1, 2, 3] / for item in items: print(item)
#[test]
fn test_for_loop() {
    check_ok(vec![
        top_let("items", list(vec![int_lit(), int_lit(), int_lit()])),
        Item::Stmt(Stmt::For {
            target: Pattern::Ident("item".to_string(), sp()),
            iter: var("items"),
            body: vec![print(var("item"))],
            else_block: None,
        }),
    ]);
}

// let mut i = 0 / while i < 10: print(i); i += 1
#[test]
fn test_while_loop() {
    check_ok(vec![
        Item::Stmt(let_mut("i", int_lit())),
        Item::Stmt(Stmt::While {
            condition: cmp(var("i"), int_lit()),
            body: vec![
                print(var("i")),
                Stmt::AugAssign { target: var("i"), op: AugOp::Add, value: int_lit(), span: sp() },
            ],
            else_block: None,
        }),
    ]);
}

// struct Point: x: Float, y: Float
#[test]
fn test_struct() {
    check_ok(vec![Item::Struct(StructDef {
        name: "Point".to_string(),
        span: sp(),
        fields: vec![
            FieldDef { name: "x".to_string(), ty: ty("Float"), default: None },
            FieldDef { name: "y".to_string(), ty: ty("Float"), default: None },
        ],
    })]);
}

// class Counter: count: Int; fn get(self) -> Int: return 0
#[test]
fn test_class() {
    check_ok(vec![Item::Class(ClassDef {
        name: "Counter".to_string(),
        span: sp(),
        bases: vec![],
        body: vec![
            ClassMember::Field(FieldDef { name: "count".to_string(), ty: ty("Int"), default: None }),
            ClassMember::Method(func("get", vec![param("self", None)], Some(ty("Int")), false, vec![ret(int_lit())])),
        ],
    })]);
}

// agent MyAgent: model: "gpt-4"; tools: ["web_search"];
// task greet(name: Str) -> Str: return "Hello, " + name
#[test]
fn test_agent_basic() {
    check_ok(vec![Item::Agent(AgentDef {
        name: "MyAgent".to_string(),
        span: sp(),
        config: vec![AgentConfig::Model(string()), AgentConfig::Tools(vec![string()])],
        members: vec![AgentMember::Task(TaskDef {
            name: "greet".to_string(),
            params: vec![param("name", Some(ty("Str")))],
            return_type: Some(ty("Str")),
            body: vec![ret(bin(BinaryOp::Add, string(), var("name")))],
        })],
    })]);
}

// tool web_search: permissions: [network]; sandbox: light;
// fn execute(query: Str) -> List[Str]: return []
#[test]
fn test_tool_basic() {
    check_ok(vec![Item::Tool(ToolDef {
        name: "web_search".to_string(),
        span: sp(),
        members: vec![
            ToolMember::Permissions(vec!["network".to_string()]),
            ToolMember::Sandbox("light".to_string()),
            ToolMember::Method(func(
                "execute",
                vec![param("query", Some(ty("Str")))],
                Some(TypeExpr::Generic("List".to_string(), vec![ty("Str")])),
                false,
                vec![ret(list(vec![]))],
            )),
        ],
    })]);
}

// let x = undefined_var
#[test]
fn test_undefined_variable() {
    check_err(vec![top_let("x", var("undefined_var"))], "Undefined variable");
}

// let nums = [1, 2, 3, 4, 5] / let squares = [x * x for x in nums]
#[test]
fn test_list_comprehension() {
    check_ok(vec![
        top_let("nums", list(vec![int_lit(), int_lit(), int_lit(), int_lit(), int_lit()])),
        top_let(
            "squares",
            ex(ExprKind::ListComp(
                vec![Generator { target: Pattern::Ident("x".to_string(), sp()), iter: var("nums"), conditions: vec![] }],
                Box::new(bin(BinaryOp::Mul, var("x"), var("x"))),
            )),
        ),
    ]);
}

fn iname(n: &str) -> ImportName {
    ImportName { name: n.to_string(), span: sp() }
}

// import a16.ai.agent / from a16.ai.tools import web_search
#[test]
fn test_import() {
    check_ok(vec![
        Item::Import(Import::Module { path: vec![iname("a16"), iname("ai"), iname("agent")], alias: None }),
        Item::Import(Import::From { items: vec![(iname("web_search"), None)] }),
    ]);
}

// let x = 42 / match x: case 0: ...; case 1: ...; case _: ...
#[test]
fn test_match_statement() {
    let arm = |p: Pattern| MatchArm { pattern: p, guard: None, body: vec![print(string())] };
    check_ok(vec![
        top_let("x", int_lit()),
        Item::Stmt(Stmt::Match {
            subject: var("x"),
            arms: vec![arm(Pattern::Literal), arm(Pattern::Literal), arm(Pattern::Wildcard)],
        }),
    ]);
}

// async fn fetch_data(url: Str) -> Str: return "data"
#[test]
fn test_async_function() {
    check_ok(vec![Item::Function(func(
        "fetch_data",
        vec![param("url", Some(ty("Str")))],
        Some(ty("Str")),
        true,
        vec![ret(string())],
    ))]);
}

// fn process(x: Any) -> Any: return x / let a = process(42) / ... ("hello") / ... ([1, 2, 3])
#[test]
fn test_any_type_allows_anything() {
    check_ok(vec![
        Item::Function(func("process", vec![param("x", Some(ty("Any")))], Some(ty("Any")), false, vec![ret(var("x"))])),
        top_let("a", call("process", vec![int_lit()])),
        top_let("b", call("process", vec![string()])),
        top_let("c", call("process", vec![list(vec![int_lit(), int_lit(), int_lit()])])),
    ]);
}

// fn identity(x): return x / let a = identity(42)
#[test]
fn test_untyped_parameters() {
    check_ok(vec![
        Item::Function(func("identity", vec![param("x", None)], None, false, vec![ret(var("x"))])),
        top_let("a", call("identity", vec![int_lit()])),
    ]);
}

// ---------------------------------------------------------------------------
// Further checks of items and modules.
// ---------------------------------------------------------------------------

#[test]
fn agent_without_model_is_reported() {
    let errors = check(&Module {
        items: vec![Item::Agent(AgentDef {
            name: "Silent".to_string(),
            span: at(7, 13),
            config: vec![AgentConfig::Tools(vec![var("print")])],
            members: vec![AgentMember::OnEvent(OnEventDef {
                event: "start".to_string(),
                params: vec![param("evt", None)],
                body: vec![print(var("evt"))],
            })],
        })],
    });
    assert_eq!(errors.len(), 1);
    assert_eq!(errors[0].to_string(), "Agent `Silent` is missing required `model` clause");
    match &errors[0] {
        TypeError::AgentMissingClause { span, .. } => {
            assert_eq!(span.offset, 7);
            assert_eq!(span.len, 6);
        },
        _ => panic!("wrong error"),
    }
}

#[test]
fn agent_model_among_members_is_enough() {
    check_ok(vec![Item::Agent(AgentDef {
        name: "A".to_string(),
        span: sp(),
        config: vec![AgentConfig::Budget(vec![("tokens".to_string(), int_lit())])],
        members: vec![
            AgentMember::Config(AgentConfig::Model(string())),
            AgentMember::Method(func("helper", vec![], None, false, vec![Stmt::Pass])),
        ],
    })]);
}

#[test]
fn class_self_is_the_class() {
    // `self` in a class body is the class; a member it lacks is an error.
    let errors = messages(vec![Item::Class(ClassDef {
        name: "C".to_string(),
        span: sp(),
        bases: vec![],
        body: vec![
            ClassMember::Field(FieldDef { name: "n".to_string(), ty: ty("Int"), default: None }),
            ClassMember::Field(FieldDef {
                name: "m".to_string(),
                ty: ty("Int"),
                default: Some(ex(ExprKind::Attribute(Box::new(var("self")), "n".to_string()))),
            }),
            ClassMember::Field(FieldDef {
                name: "k".to_string(),
                ty: ty("Any"),
                default: Some(ex(ExprKind::Attribute(Box::new(var("self")), "nothing".to_string()))),
            }),
        ],
    })]);
    assert_eq!(errors, vec!["Type `C` has no member `nothing`".to_string()]);
}

#[test]
fn tool_without_execute_is_reported() {
    let errors = messages(vec![Item::Tool(ToolDef {
        name: "calc".to_string(),
        span: sp(),
        members: vec![
            ToolMember::RateLimit(int_lit()),
            ToolMember::Schema(ty("Str")),
            ToolMember::Method(func("run", vec![], None, false, vec![])),
        ],
    })]);
    assert_eq!(errors, vec!["Tool `calc` must have an `execute` function".to_string()]);
}

#[test]
fn field_defaults_are_checked_against_annotations() {
    let errors = messages(vec![
        Item::Class(ClassDef {
            name: "C".to_string(),
            span: sp(),
            bases: vec![],
            body: vec![
                ClassMember::Field(FieldDef { name: "n".to_string(), ty: ty("Int"), default: Some(string()) }),
                ClassMember::Class(ClassDef { name: "Inner".to_string(), span: sp(), bases: vec![], body: vec![] }),
            ],
        }),
        Item::Struct(StructDef {
            name: "S".to_string(),
            span: sp(),
            fields: vec![
                FieldDef { name: "ok".to_string(), ty: ty("Float"), default: Some(int_lit()) },
                FieldDef { name: "bad".to_string(), ty: ty("Bool"), default: Some(int_lit()) },
            ],
        }),
    ]);
    assert_eq!(errors.len(), 2);
    assert_eq!(errors[0], "Cannot unify types `Int` and `Str`");
    assert_eq!(errors[1], "Cannot unify types `Bool` and `Int`");
}

#[test]
fn functions_check_returns_and_see_later_items() {
    // `first` calls `second`, defined after it: registering comes first.
    let errors = messages(vec![
        Item::Function(func("first", vec![], Some(ty("Int")), false, vec![ret(call("second", vec![]))])),
        Item::Function(func("second", vec![], Some(ty("Int")), false, vec![ret(int_lit())])),
        Item::Function(func("wrong", vec![], Some(ty("Int")), false, vec![ret(string())])),
    ]);
    assert_eq!(errors, vec!["Cannot unify types `Int` and `Str`".to_string()]);
}

#[test]
fn constants_are_defined_with_their_types() {
    let module = Module {
        items: vec![
            Item::Const(ConstDef { name: "LIMIT".to_string(), span: sp(), ty: Some(ty("Float")), value: int_lit() }),
            Item::Const(ConstDef { name: "NAME".to_string(), span: sp(), ty: None, value: string() }),
            Item::Const(ConstDef { name: "BAD".to_string(), span: sp(), ty: Some(ty("Bool")), value: string() }),
            Item::Enum(EnumDef { name: "Color".to_string(), span: sp(), variants: vec!["Red".to_string()] }),
        ],
    };
    let (ctx, errors) = check_with_context(&module);
    assert_eq!(errors.len(), 1);
    let limit = ctx.lookup("LIMIT").unwrap();
    assert!(!limit.mutable);
    assert!(matches!(limit.ty, Type::Float));
    assert!(matches!(ctx.lookup("NAME").unwrap().ty, Type::Str));
    assert!(matches!(ctx.lookup("Color").unwrap().ty, Type::Enum(_)));
    assert!(!ctx.has_errors());
}

#[test]
fn memories_and_prompts() {
    let errors = messages(vec![
        Item::Memory(MemoryDef {
            name: "notes".to_string(),
            span: sp(),
            members: vec![
                MemoryMember::StorageType("vector".to_string()),
                MemoryMember::Capacity(int_lit()),
                MemoryMember::Retention(var("missing_days")),
                MemoryMember::Method(func("recall", vec![param("q", Some(ty("Str")))], None, false, vec![])),
            ],
        }),
        Item::Prompt(PromptDef {
            name: "greet".to_string(),
            span: sp(),
            params: vec![param("who", Some(ty("Str"))), param("extra", None)],
            sections: vec![
                PromptSection::Text("Hello".to_string()),
                PromptSection::Block(vec![
                    let_("a", bin(BinaryOp::Add, var("who"), string())),
                    let_("b", bin(BinaryOp::Mul, var("extra"), int_lit())),
                ]),
            ],
        }),
    ]);
    assert_eq!(errors.len(), 1);
    assert!(errors[0].contains("Undefined variable `missing_days`"), "{:?}", errors);
}

#[test]
fn item_scopes_are_left_behind() {
    // The parameters and `self` of items are gone once the items are checked.
    let module = Module {
        items: vec![
            Item::Function(func("f", vec![param("p", None)], None, false, vec![Stmt::Pass])),
            Item::Class(ClassDef { name: "K".to_string(), span: sp(), bases: vec![], body: vec![] }),
            Item::Stmt(Stmt::Expr(var("p"))),
            Item::Stmt(Stmt::Expr(var("self"))),
        ],
    };
    let (ctx, errors) = check_with_context(&module);
    assert_eq!(errors.len(), 2);
    assert!(ctx.lookup("p").is_none());
    assert!(ctx.lookup("f").is_some());
}

#[test]
fn check_item_in_an_existing_context() {
    let mut ctx = TypeContext::new();
    let item = Item::Function(func("g", vec![param("x", Some(ty("Int")))], Some(ty("Int")), false, vec![ret(var("x"))]));
    ctx.check_item(&item);
    assert!(!ctx.has_errors());
    // Checking does not define the function itself: registering does.
    assert!(ctx.lookup("g").is_none());
    ctx.check_module(&Module { items: vec![item] });
    assert!(ctx.lookup("g").is_some());
    assert!(!ctx.has_errors());
}

#[test]
fn statements_report_their_errors() {
    let errors = messages(vec![
        Item::Stmt(let_("fixed", int_lit())),
        Item::Stmt(Stmt::Assign { target: var("fixed"), value: int_lit(), span: sp() }),
        Item::Stmt(Stmt::For {
            target: Pattern::Ident("k".to_string(), sp()),
            iter: int_lit(),
            body: vec![],
            else_block: None,
        }),
        Item::Stmt(Stmt::Expr(bin(BinaryOp::Sub, string(), int_lit()))),
    ]);
    assert_eq!(errors.len(), 3, "{:?}", errors);
    assert!(errors[0].contains("Cannot assign to immutable variable `fixed`"), "{:?}", errors);
    assert!(errors[1].contains("is not iterable"), "{:?}", errors);
    assert!(errors[2].contains("Operator"), "{:?}", errors);
}

#[test]
fn block_bindings_do_not_leak() {
    // A `let` inside an `if` block or a loop body, a loop target, and a lambda's
    // parameter are all gone after their statements.
    let errors = messages(vec![
        Item::Stmt(Stmt::If {
            condition: ex(ExprKind::Bool),
            then_block: vec![let_("inner", int_lit())],
            elifs: vec![],
            else_block: None,
        }),
        Item::Stmt(Stmt::For {
            target: Pattern::Ident("each".to_string(), sp()),
            iter: list(vec![int_lit()]),
            body: vec![let_("in_loop", var("each"))],
            else_block: None,
        }),
        top_let("f", ex(ExprKind::Lambda(vec![param("arg", None)], Box::new(var("arg"))))),
        top_let("outer", int_lit()),
        Item::Stmt(Stmt::Expr(var("inner"))),
        Item::Stmt(Stmt::Expr(var("each"))),
        Item::Stmt(Stmt::Expr(var("in_loop"))),
        Item::Stmt(Stmt::Expr(var("arg"))),
        Item::Stmt(Stmt::Expr(var("outer"))),
    ]);
    assert_eq!(
        errors,
        vec![
            "Undefined variable `inner`".to_string(),
            "Undefined variable `each`".to_string(),
            "Undefined variable `in_loop`".to_string(),
            "Undefined variable `arg`".to_string(),
        ]
    );
}
