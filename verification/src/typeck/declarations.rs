//! Top-level declarations as the first pass of checking reads them, and what
//! registering one does to the context: functions, classes, structs, agents and
//! tools become known by name before any body is checked.

use vstd::prelude::*;
use crate::stdlib::text::same_text;
use crate::typeck::annotations::{denoted, lemma_denoted_closed, TypeExpr};
use crate::typeck::ast::{
    AgentConfig, AgentDef, AgentMember, ClassDef, ClassMember, Expr, ExprKind, FieldDef, FunctionDef, Item, ToolDef,
    ToolMember,
};
use crate::typeck::bodies::{param_annotations, param_types, Param};
use crate::typeck::context::{define_in, ScopeModel, SymbolModel, TypeContext};
use crate::typeck::types::{
    field_views, named_views, opt_ty, views_of, AgentInfo, AgentModel, ClassInfo, ClassModel, FieldInfo, FieldModel,
    StructInfo, StructModel, ToolInfo, ToolModel, Ty, Type,
};
use crate::typeck::unify::{lemma_occurs_list_elem, lemma_occurs_list_none, lemma_views_of_push, occurs_in, occurs_in_list};

verus! {

/// The names that give a plain type name its meaning.
pub struct TypeNames {
    pub structs: Set<Seq<char>>,
    pub classes: Set<Seq<char>>,
    pub agents: Set<Seq<char>>,
}

impl TypeContext {
    /// The names of the registered structs, classes and agents.
    pub open spec fn type_names(&self) -> TypeNames {
        TypeNames {
            structs: self.struct_table().dom(),
            classes: self.class_table().dom(),
            agents: self.agent_table().dom(),
        }
    }

    /// `self` is `other` with the type-variable counter moved on by `n`.
    pub open spec fn counter_moved(&self, other: &Self, n: nat) -> bool {
        &&& self.wf()
        &&& self.next_var() == other.next_var() + n
        &&& self.scope_stack() == other.scope_stack()
        &&& self.subst() == other.subst()
        &&& self.struct_table() == other.struct_table()
        &&& self.class_table() == other.class_table()
        &&& self.agent_table() == other.agent_table()
        &&& self.tool_table() == other.tool_table()
        &&& self.error_list() == other.error_list()
    }
}

/// What an annotation denotes under the given names.
pub open spec fn denotes(te: TypeExpr, names: TypeNames) -> Ty {
    denoted(te, names.structs, names.classes, names.agents)
}

/// The type of a slot: its annotation's, or the type variable `next` when it has none.
pub open spec fn slot(ann: Option<TypeExpr>, next: int, names: TypeNames) -> Ty {
    match ann {
        Some(te) => denotes(te, names),
        None => Ty::TypeVar(next as u32),
    }
}

/// One for a missing annotation, none for a present one.
pub open spec fn missing(ann: Option<TypeExpr>) -> nat {
    if ann is None {
        1
    } else {
        0
    }
}

/// How many annotations are missing.
pub open spec fn missing_count(anns: Seq<Option<TypeExpr>>) -> nat
    decreases anns.len(),
{
    if anns.len() == 0 {
        0
    } else {
        missing_count(anns.drop_last()) + missing(anns.last())
    }
}

/// The types of a row of slots, the missing ones read as fresh type variables
/// numbered from `next` on, in order.
pub open spec fn slot_types(anns: Seq<Option<TypeExpr>>, next: int, names: TypeNames) -> Seq<Ty>
    decreases anns.len(),
{
    if anns.len() == 0 {
        Seq::empty()
    } else {
        slot_types(anns.drop_last(), next, names).push(
            slot(anns.last(), next + missing_count(anns.drop_last()), names),
        )
    }
}

/// How many fresh type variables a signature uses: one per missing annotation.
pub open spec fn fn_fresh(params: Seq<Param>, ret: Option<TypeExpr>) -> nat {
    missing_count(param_annotations(params)) + missing(ret)
}

/// The type of a callable with these parameters and result annotation, its
/// missing annotations read as fresh type variables numbered from `next` on
/// (parameters first, then the result).
pub open spec fn fn_type(params: Seq<Param>, ret: Option<TypeExpr>, next: int, names: TypeNames, is_async: bool) -> Ty {
    let ptys = slot_types(param_annotations(params), next, names);
    let rty = Box::new(slot(ret, next + missing_count(param_annotations(params)), names));
    if is_async {
        Ty::AsyncFunction { params: ptys, ret: rty }
    } else {
        Ty::Function { params: ptys, ret: rty }
    }
}

/// A row of slots has one type per slot.
pub proof fn lemma_slot_types_len(anns: Seq<Option<TypeExpr>>, next: int, names: TypeNames)
    ensures
        slot_types(anns, next, names).len() == anns.len(),
    decreases anns.len(),
{
    if anns.len() > 0 {
        lemma_slot_types_len(anns.drop_last(), next, names);
    }
}

/// The type of one slot, taking a fresh type variable when it has no annotation.
pub(crate) fn slot_type(ctx: &mut TypeContext, ann: &Option<TypeExpr>) -> (r: Type)
    requires
        old(ctx).wf(),
        old(ctx).next_var() + missing(*ann) <= u32::MAX,
    ensures
        final(ctx).counter_moved(old(ctx), missing(*ann)),
        r.view_ty() == slot(*ann, old(ctx).next_var() as int, old(ctx).type_names()),
{
    match ann {
        Some(te) => ctx.resolve_type_expr(te),
        None => ctx.fresh_type_var(),
    }
}

/// The type of a callable with these parameters and result annotation.
fn signature_type(ctx: &mut TypeContext, params: &Vec<Param>, ret: &Option<TypeExpr>, is_async: bool) -> (r: Type)
    requires
        old(ctx).wf(),
        old(ctx).next_var() + fn_fresh(params@, *ret) <= u32::MAX,
    ensures
        final(ctx).counter_moved(old(ctx), fn_fresh(params@, *ret)),
        r.view_ty() == fn_type(params@, *ret, old(ctx).next_var() as int, old(ctx).type_names(), is_async),
{
    let ptys = param_types(ctx, params);
    let rty = slot_type(ctx, ret);
    if is_async {
        Type::AsyncFunction { params: ptys, ret: Box::new(rty) }
    } else {
        Type::Function { params: ptys, ret: Box::new(rty) }
    }
}

/// The models of declared fields.
pub open spec fn field_models(fs: Seq<FieldDef>, names: TypeNames) -> Seq<FieldModel> {
    fs.map_values(|f: FieldDef| FieldModel { name: f.name@, ty: denotes(f.ty, names), has_default: f.default is Some })
}

/// The fields of a class body, in order.
pub open spec fn class_fields(body: Seq<ClassMember>, names: TypeNames) -> Seq<FieldModel>
    decreases body.len(),
{
    if body.len() == 0 {
        Seq::empty()
    } else {
        let init = class_fields(body.drop_last(), names);
        match body.last() {
            ClassMember::Field(f) => init.push(
                FieldModel { name: f.name@, ty: denotes(f.ty, names), has_default: f.default is Some },
            ),
            _ => init,
        }
    }
}

/// How many fresh type variables the methods of a class body use.
pub open spec fn methods_fresh(body: Seq<ClassMember>) -> nat
    decreases body.len(),
{
    if body.len() == 0 {
        0
    } else {
        methods_fresh(body.drop_last()) + match body.last() {
            ClassMember::Method(m) => fn_fresh(m.params@, m.return_type),
            _ => 0,
        }
    }
}

/// The methods of a class body with their types, in order, numbering fresh type
/// variables from `next` on.
pub open spec fn class_methods(body: Seq<ClassMember>, next: int, names: TypeNames) -> Seq<(Seq<char>, Ty)>
    decreases body.len(),
{
    if body.len() == 0 {
        Seq::empty()
    } else {
        let init = class_methods(body.drop_last(), next, names);
        match body.last() {
            ClassMember::Method(m) => init.push(
                (m.name@, fn_type(m.params@, m.return_type, next + methods_fresh(body.drop_last()), names, false)),
            ),
            _ => init,
        }
    }
}

/// The first base of a class, when it is a plain name.
pub open spec fn first_base(bases: Seq<Expr>) -> Option<Seq<char>> {
    if bases.len() == 0 {
        None
    } else {
        match bases[0].kind {
            ExprKind::Ident(b) => Some(b@),
            _ => None,
        }
    }
}

/// The names among listed expressions (those that are plain identifiers), in order.
pub open spec fn ident_names(es: Seq<Expr>) -> Seq<Seq<char>>
    decreases es.len(),
{
    if es.len() == 0 {
        Seq::empty()
    } else {
        let init = ident_names(es.drop_last());
        match es.last().kind {
            ExprKind::Ident(n) => init.push(n@),
            _ => init,
        }
    }
}

/// The tools named in an agent's configuration, in order.
pub open spec fn config_tools(cs: Seq<AgentConfig>) -> Seq<Seq<char>>
    decreases cs.len(),
{
    if cs.len() == 0 {
        Seq::empty()
    } else {
        config_tools(cs.drop_last()) + match cs.last() {
            AgentConfig::Tools(es) => ident_names(es@),
            _ => Seq::empty(),
        }
    }
}

/// The tools named in an agent body's configuration members, in order.
pub open spec fn member_tools(ms: Seq<AgentMember>) -> Seq<Seq<char>>
    decreases ms.len(),
{
    if ms.len() == 0 {
        Seq::empty()
    } else {
        member_tools(ms.drop_last()) + match ms.last() {
            AgentMember::Config(AgentConfig::Tools(es)) => ident_names(es@),
            _ => Seq::empty(),
        }
    }
}

/// How many fresh type variables the tasks of an agent body use.
pub open spec fn tasks_fresh(ms: Seq<AgentMember>) -> nat
    decreases ms.len(),
{
    if ms.len() == 0 {
        0
    } else {
        tasks_fresh(ms.drop_last()) + match ms.last() {
            AgentMember::Task(t) => fn_fresh(t.params@, t.return_type),
            _ => 0,
        }
    }
}

/// The tasks of an agent body with their (asynchronous) types, in order, numbering
/// fresh type variables from `next` on.
pub open spec fn agent_tasks(ms: Seq<AgentMember>, next: int, names: TypeNames) -> Seq<(Seq<char>, Ty)>
    decreases ms.len(),
{
    if ms.len() == 0 {
        Seq::empty()
    } else {
        let init = agent_tasks(ms.drop_last(), next, names);
        match ms.last() {
            AgentMember::Task(t) => init.push(
                (t.name@, fn_type(t.params@, t.return_type, next + tasks_fresh(ms.drop_last()), names, true)),
            ),
            _ => init,
        }
    }
}

/// The permissions a tool body asks for, in order.
pub open spec fn tool_permissions(ms: Seq<ToolMember>) -> Seq<Seq<char>>
    decreases ms.len(),
{
    if ms.len() == 0 {
        Seq::empty()
    } else {
        tool_permissions(ms.drop_last()) + match ms.last() {
            ToolMember::Permissions(ps) => ps@.map_values(|p: String| p@),
            _ => Seq::empty(),
        }
    }
}

/// The type of a slot of a tool's `execute`: its annotation's, or `Any`.
pub open spec fn any_slot(ann: Option<TypeExpr>, names: TypeNames) -> Ty {
    match ann {
        Some(te) => denotes(te, names),
        None => Ty::Any,
    }
}

/// The type of a tool's `execute` method with these parameters and result annotation.
pub open spec fn execute_type(params: Seq<Param>, ret: Option<TypeExpr>, names: TypeNames) -> Ty {
    Ty::Function {
        params: params.map_values(|p: Param| any_slot(p.ty, names)),
        ret: Box::new(any_slot(ret, names)),
    }
}

/// The type of the last `execute` method of a tool body, if it has one.
pub open spec fn tool_execute(ms: Seq<ToolMember>, names: TypeNames) -> Option<Ty>
    decreases ms.len(),
{
    if ms.len() == 0 {
        None
    } else {
        match ms.last() {
            ToolMember::Method(m) => if m.name@ == "execute"@ {
                Some(execute_type(m.params@, m.return_type, names))
            } else {
                tool_execute(ms.drop_last(), names)
            },
            _ => tool_execute(ms.drop_last(), names),
        }
    }
}

/// A prefix of a class body never uses more fresh type variables than the whole.
proof fn lemma_methods_fresh_prefix(s: Seq<ClassMember>, i: int)
    requires
        0 <= i <= s.len(),
    ensures
        methods_fresh(s.take(i)) <= methods_fresh(s),
    decreases s.len(),
{
    if i < s.len() {
        lemma_methods_fresh_prefix(s.drop_last(), i);
        assert(s.drop_last().take(i) =~= s.take(i));
    } else {
        assert(s.take(i) =~= s);
    }
}

/// A prefix of an agent body never uses more fresh type variables than the whole.
proof fn lemma_tasks_fresh_prefix(s: Seq<AgentMember>, i: int)
    requires
        0 <= i <= s.len(),
    ensures
        tasks_fresh(s.take(i)) <= tasks_fresh(s),
    decreases s.len(),
{
    if i < s.len() {
        lemma_tasks_fresh_prefix(s.drop_last(), i);
        assert(s.drop_last().take(i) =~= s.take(i));
    } else {
        assert(s.take(i) =~= s);
    }
}

/// The fields of a struct, their annotations resolved.
fn field_infos(ctx: &mut TypeContext, fs: &Vec<FieldDef>) -> (r: Vec<FieldInfo>)
    ensures
        *final(ctx) == *old(ctx),
        field_views(r@) == field_models(fs@, old(ctx).type_names()),
{
    let ghost c0 = *ctx;
    let mut out: Vec<FieldInfo> = Vec::new();
    let mut i: usize = 0;
    while i < fs.len()
        invariant
            i <= fs.len(),
            *ctx == c0,
            field_views(out@) == field_models(fs@.take(i as int), c0.type_names()),
        decreases fs.len() - i,
    {
        let f = &fs[i];
        let ty = ctx.resolve_type_expr(&f.ty);
        let info = FieldInfo { name: f.name.clone(), ty, has_default: f.default.is_some() };
        let ghost before = out@;
        out.push(info);
        assert(field_views(out@) =~= field_views(before).push(info@));
        assert(fs@.take(i + 1) =~= fs@.take(i as int).push(fs@[i as int]));
        assert(field_models(fs@.take(i + 1), c0.type_names()) =~= field_models(
            fs@.take(i as int),
            c0.type_names(),
        ).push(info@));
        i += 1;
    }
    assert(fs@.take(fs.len() as int) =~= fs@);
    out
}

/// The names among listed expressions, in order.
fn identifier_names(es: &Vec<Expr>) -> (r: Vec<String>)
    ensures
        r@.map_values(|n: String| n@) == ident_names(es@),
{
    let mut out: Vec<String> = Vec::new();
    let mut i: usize = 0;
    while i < es.len()
        invariant
            i <= es.len(),
            out@.map_values(|n: String| n@) == ident_names(es@.take(i as int)),
        decreases es.len() - i,
    {
        assert(es@.take(i + 1).drop_last() =~= es@.take(i as int));
        match &es[i].kind {
            ExprKind::Ident(n) => {
                let ghost before = out@;
                out.push(n.clone());
                assert(out@.map_values(|n: String| n@) =~= before.map_values(|n: String| n@).push(n@));
            },
            _ => {},
        }
        i += 1;
    }
    assert(es@.take(es.len() as int) =~= es@);
    out
}

/// Add `more` names at the end of `names`.
fn append_names(names: &mut Vec<String>, more: Vec<String>)
    ensures
        final(names)@.map_values(|n: String| n@) == old(names)@.map_values(|n: String| n@)
            + more@.map_values(|n: String| n@),
{
    let mut more = more;
    let ghost m = more@;
    names.append(&mut more);
    assert(names@.map_values(|n: String| n@) =~= old(names)@.map_values(|n: String| n@)
        + m.map_values(|n: String| n@));
}

/// The model of a class as registering records it.
pub open spec fn class_model(
    name: Seq<char>,
    bases: Seq<Expr>,
    body: Seq<ClassMember>,
    next: int,
    names: TypeNames,
) -> ClassModel {
    ClassModel {
        name,
        fields: class_fields(body, names),
        methods: class_methods(body, next, names),
        base: first_base(bases),
    }
}

/// The class a class declaration describes: its fields and methods in order, and
/// its first base when that is a plain name.
fn class_info(ctx: &mut TypeContext, c: &ClassDef) -> (r: ClassInfo)
    requires
        old(ctx).wf(),
        old(ctx).next_var() + methods_fresh(c.body@) <= u32::MAX,
    ensures
        final(ctx).counter_moved(old(ctx), methods_fresh(c.body@)),
        r@ == class_model(c.name@, c.bases@, c.body@, old(ctx).next_var() as int, old(ctx).type_names()),
{
    let body = &c.body;
    let bases = &c.bases;
    let ghost c0 = *ctx;
    let ghost n0 = ctx.next_var() as int;
    let ghost names = ctx.type_names();
    let mut fields: Vec<FieldInfo> = Vec::new();
    let mut methods: Vec<(String, Type)> = Vec::new();
    let mut i: usize = 0;
    while i < body.len()
        invariant
            i <= body.len(),
            c0.wf(),
            n0 == c0.next_var(),
            names == c0.type_names(),
            n0 + methods_fresh(body@) <= u32::MAX,
            ctx.counter_moved(&c0, methods_fresh(body@.take(i as int))),
            field_views(fields@) == class_fields(body@.take(i as int), names),
            named_views(methods@) == class_methods(body@.take(i as int), n0, names),
        decreases body.len() - i,
    {
        proof {
            assert(body@.take(i + 1).drop_last() =~= body@.take(i as int));
            lemma_methods_fresh_prefix(body@, i + 1);
        }
        match &body[i] {
            ClassMember::Field(f) => {
                let ty = ctx.resolve_type_expr(&f.ty);
                let info = FieldInfo { name: f.name.clone(), ty, has_default: f.default.is_some() };
                let ghost before = fields@;
                fields.push(info);
                assert(field_views(fields@) =~= field_views(before).push(info@));
            },
            ClassMember::Method(m) => {
                let ty = signature_type(ctx, &m.params, &m.return_type, false);
                let ghost before = methods@;
                let entry = (m.name.clone(), ty);
                methods.push(entry);
                assert(named_views(methods@) =~= named_views(before).push((entry.0@, entry.1.view_ty())));
            },
            ClassMember::Class(_) => {},
        }
        i += 1;
    }
    assert(body@.take(body.len() as int) =~= body@);
    let base = if bases.len() > 0 {
        match &bases[0].kind {
            ExprKind::Ident(b) => Some(b.clone()),
            _ => None,
        }
    } else {
        None
    };
    ClassInfo { name: c.name.clone(), fields, methods, base }
}

/// The model of an agent as registering records it: no model type, the tools named
/// in its configuration and then in its body, and its tasks.
pub open spec fn agent_model(
    name: Seq<char>,
    config: Seq<AgentConfig>,
    members: Seq<AgentMember>,
    next: int,
    names: TypeNames,
) -> AgentModel {
    AgentModel {
        name,
        model_type: None,
        tools: config_tools(config) + member_tools(members),
        tasks: agent_tasks(members, next, names),
    }
}

/// The agent an agent declaration describes.
fn agent_info(ctx: &mut TypeContext, a: &AgentDef) -> (r: AgentInfo)
    requires
        old(ctx).wf(),
        old(ctx).next_var() + tasks_fresh(a.members@) <= u32::MAX,
    ensures
        final(ctx).counter_moved(old(ctx), tasks_fresh(a.members@)),
        r@ == agent_model(a.name@, a.config@, a.members@, old(ctx).next_var() as int, old(ctx).type_names()),
{
    let config = &a.config;
    let members = &a.members;
    let ghost c0 = *ctx;
    let ghost n0 = ctx.next_var() as int;
    let ghost names = ctx.type_names();
    let mut tools: Vec<String> = Vec::new();
    let mut j: usize = 0;
    while j < config.len()
        invariant
            j <= config.len(),
            tools@.map_values(|n: String| n@) == config_tools(config@.take(j as int)),
        decreases config.len() - j,
    {
        assert(config@.take(j + 1).drop_last() =~= config@.take(j as int));
        match &config[j] {
            AgentConfig::Tools(es) => {
                let more = identifier_names(es);
                append_names(&mut tools, more);
            },
            _ => {
                assert(tools@.map_values(|n: String| n@) =~= tools@.map_values(|n: String| n@)
                    + Seq::<Seq<char>>::empty());
            },
        }
        j += 1;
    }
    assert(config@.take(config.len() as int) =~= config@);
    let ghost from_config = tools@.map_values(|n: String| n@);
    let mut tasks: Vec<(String, Type)> = Vec::new();
    let mut i: usize = 0;
    assert(from_config =~= from_config + member_tools(members@.take(0)));
    while i < members.len()
        invariant
            i <= members.len(),
            c0.wf(),
            n0 == c0.next_var(),
            names == c0.type_names(),
            n0 + tasks_fresh(members@) <= u32::MAX,
            ctx.counter_moved(&c0, tasks_fresh(members@.take(i as int))),
            tools@.map_values(|n: String| n@) == from_config + member_tools(members@.take(i as int)),
            named_views(tasks@) == agent_tasks(members@.take(i as int), n0, names),
        decreases members.len() - i,
    {
        proof {
            assert(members@.take(i + 1).drop_last() =~= members@.take(i as int));
            lemma_tasks_fresh_prefix(members@, i + 1);
        }
        match &members[i] {
            AgentMember::Config(AgentConfig::Tools(es)) => {
                let more = identifier_names(es);
                append_names(&mut tools, more);
                assert(tools@.map_values(|n: String| n@) =~= from_config + member_tools(
                    members@.take(i + 1),
                ));
            },
            AgentMember::Task(t) => {
                let ty = signature_type(ctx, &t.params, &t.return_type, true);
                let ghost before = tasks@;
                let entry = (t.name.clone(), ty);
                tasks.push(entry);
                assert(named_views(tasks@) =~= named_views(before).push((entry.0@, entry.1.view_ty())));
                assert(tools@.map_values(|n: String| n@) =~= from_config + member_tools(
                    members@.take(i + 1),
                ));
            },
            _ => {
                assert(tools@.map_values(|n: String| n@) =~= from_config + member_tools(
                    members@.take(i + 1),
                ));
            },
        }
        i += 1;
    }
    assert(members@.take(members.len() as int) =~= members@);
    AgentInfo { name: a.name.clone(), model_type: None, tools, tasks }
}

/// The type of a tool's `execute` method: a missing annotation reads as `Any`.
fn execute_signature(ctx: &mut TypeContext, m: &FunctionDef) -> (r: Type)
    ensures
        *final(ctx) == *old(ctx),
        r.view_ty() == execute_type(m.params@, m.return_type, old(ctx).type_names()),
{
    let ps = &m.params;
    let ghost c0 = *ctx;
    let ghost names = ctx.type_names();
    let mut params: Vec<Type> = Vec::new();
    let mut i: usize = 0;
    while i < ps.len()
        invariant
            i <= ps.len(),
            *ctx == c0,
            names == c0.type_names(),
            views_of(params@) == ps@.take(i as int).map_values(|p: Param| any_slot(p.ty, names)),
        decreases ps.len() - i,
    {
        let t = match &ps[i].ty {
            Some(te) => ctx.resolve_type_expr(te),
            None => Type::Any,
        };
        proof {
            lemma_views_of_push(params@, t);
            assert(ps@.take(i + 1).map_values(|p: Param| any_slot(p.ty, names))
                =~= ps@.take(i as int).map_values(|p: Param| any_slot(p.ty, names)).push(
                t.view_ty(),
            ));
        }
        params.push(t);
        i += 1;
    }
    assert(ps@.take(ps.len() as int) =~= ps@);
    let ret = match &m.return_type {
        Some(te) => ctx.resolve_type_expr(te),
        None => Type::Any,
    };
    Type::Function { params, ret: Box::new(ret) }
}

/// The model of a tool as registering records it.
pub open spec fn tool_model(name: Seq<char>, members: Seq<ToolMember>, names: TypeNames) -> ToolModel {
    ToolModel {
        name,
        permissions: tool_permissions(members),
        execute_type: tool_execute(members, names),
    }
}

/// The tool a tool declaration describes: the permissions it asks for, and the type
/// of its (last) `execute` method.
fn tool_info(ctx: &mut TypeContext, t: &ToolDef) -> (r: ToolInfo)
    ensures
        *final(ctx) == *old(ctx),
        r@ == tool_model(t.name@, t.members@, old(ctx).type_names()),
{
    let members = &t.members;
    let ghost c0 = *ctx;
    let ghost names = ctx.type_names();
    let mut permissions: Vec<String> = Vec::new();
    let mut execute: Option<Type> = None;
    let mut i: usize = 0;
    while i < members.len()
        invariant
            i <= members.len(),
            *ctx == c0,
            names == c0.type_names(),
            permissions@.map_values(|n: String| n@) == tool_permissions(members@.take(i as int)),
            opt_ty(execute) == tool_execute(members@.take(i as int), names),
        decreases members.len() - i,
    {
        assert(members@.take(i + 1).drop_last() =~= members@.take(i as int));
        assert(members@.take(i + 1).last() == members@[i as int]);
        match &members[i] {
            ToolMember::Permissions(ps) => {
                let mut copy: Vec<String> = Vec::new();
                let mut k: usize = 0;
                while k < ps.len()
                    invariant
                        k <= ps.len(),
                        copy@.map_values(|n: String| n@) == ps@.take(k as int).map_values(|p: String| p@),
                    decreases ps.len() - k,
                {
                    let ghost before = copy@;
                    copy.push(ps[k].clone());
                    assert(copy@.map_values(|n: String| n@) =~= before.map_values(|n: String| n@).push(
                        ps@[k as int]@,
                    ));
                    assert(ps@.take(k + 1).map_values(|p: String| p@) =~= ps@.take(k as int).map_values(
                        |p: String| p@,
                    ).push(ps@[k as int]@));
                    k += 1;
                }
                assert(ps@.take(ps.len() as int) =~= ps@);
                append_names(&mut permissions, copy);
            },
            ToolMember::Method(m) => {
                if same_text(m.name.as_str(), "execute") {
                    let ty = execute_signature(ctx, m);
                    execute = Some(ty);
                }
                assert(permissions@.map_values(|n: String| n@) =~= tool_permissions(members@.take(i + 1)));
            },
            _ => {
                assert(permissions@.map_values(|n: String| n@) =~= tool_permissions(members@.take(i + 1)));
            },
        }
        i += 1;
    }
    assert(members@.take(members.len() as int) =~= members@);
    ToolInfo { name: t.name.clone(), permissions, execute_type: execute }
}

/// The name an item declares (empty for an unnamed one).
pub open spec fn item_name(item: Item) -> Seq<char> {
    match item {
        Item::Function(f) => f.name@,
        Item::Class(c) => c.name@,
        Item::Struct(d) => d.name@,
        Item::Agent(a) => a.name@,
        Item::Tool(t) => t.name@,
        Item::Memory(m) => m.name@,
        Item::Prompt(p) => p.name@,
        Item::Enum(e) => e.name@,
        _ => Seq::empty(),
    }
}

/// How many fresh type variables registering an item uses: one for each missing
/// annotation of a function, of a class's methods, or of an agent's tasks.
pub open spec fn item_fresh(item: Item) -> nat {
    match item {
        Item::Function(f) => fn_fresh(f.params@, f.return_type),
        Item::Class(c) => methods_fresh(c.body@),
        Item::Agent(a) => tasks_fresh(a.members@),
        _ => 0,
    }
}

/// The constant symbol an item defines: a function with its signature's type,
/// any other named item with the nominal type of its kind.
pub open spec fn item_symbol(item: Item, next: int, names: TypeNames) -> Option<SymbolModel> {
    match item {
        Item::Function(f) => Some(
            SymbolModel {
                name: f.name@,
                ty: fn_type(f.params@, f.return_type, next, names, f.is_async),
                mutable: false,
                span: f.span,
            },
        ),
        Item::Class(c) => Some(SymbolModel { name: c.name@, ty: Ty::Class(c.name@), mutable: false, span: c.span }),
        Item::Struct(d) => Some(SymbolModel { name: d.name@, ty: Ty::Struct(d.name@), mutable: false, span: d.span }),
        Item::Agent(a) => Some(SymbolModel { name: a.name@, ty: Ty::Agent(a.name@), mutable: false, span: a.span }),
        Item::Tool(t) => Some(SymbolModel { name: t.name@, ty: Ty::Tool(t.name@), mutable: false, span: t.span }),
        Item::Memory(m) => Some(SymbolModel { name: m.name@, ty: Ty::Memory(m.name@), mutable: false, span: m.span }),
        Item::Prompt(p) => Some(SymbolModel { name: p.name@, ty: Ty::Prompt(p.name@), mutable: false, span: p.span }),
        Item::Enum(e) => Some(SymbolModel { name: e.name@, ty: Ty::Enum(e.name@), mutable: false, span: e.span }),
        _ => None,
    }
}

/// The struct an item registers, if it is a struct.
pub open spec fn item_struct(item: Item, names: TypeNames) -> Option<StructModel> {
    match item {
        Item::Struct(d) => Some(StructModel { name: d.name@, fields: field_models(d.fields@, names) }),
        _ => None,
    }
}

/// The class an item registers, if it is a class.
pub open spec fn item_class(item: Item, next: int, names: TypeNames) -> Option<ClassModel> {
    match item {
        Item::Class(c) => Some(class_model(c.name@, c.bases@, c.body@, next, names)),
        _ => None,
    }
}

/// The agent an item registers, if it is an agent.
pub open spec fn item_agent(item: Item, next: int, names: TypeNames) -> Option<AgentModel> {
    match item {
        Item::Agent(a) => Some(agent_model(a.name@, a.config@, a.members@, next, names)),
        _ => None,
    }
}

/// The tool an item registers, if it is a tool.
pub open spec fn item_tool(item: Item, names: TypeNames) -> Option<ToolModel> {
    match item {
        Item::Tool(t) => Some(tool_model(t.name@, t.members@, names)),
        _ => None,
    }
}

/// A table with `entry` recorded under `key`, when there is one.
pub open spec fn with_entry<V>(table: Map<Seq<char>, V>, key: Seq<char>, entry: Option<V>) -> Map<Seq<char>, V> {
    match entry {
        Some(v) => table.insert(key, v),
        None => table,
    }
}

/// The scopes with `sym` defined in the innermost one, when there is a symbol.
pub open spec fn with_symbol(scopes: Seq<ScopeModel>, sym: Option<SymbolModel>) -> Seq<ScopeModel> {
    match sym {
        Some(s) => define_in(scopes, s.name, s),
        None => scopes,
    }
}

/// `new` is `old` after registering `item`, as `register_item_type` does.
pub open spec fn item_registered(old: TypeContext, new: TypeContext, item: Item) -> bool {
    let next = old.next_var() as int;
    let names = old.type_names();
    &&& new.wf()
    &&& new.next_var() == old.next_var() + item_fresh(item)
    &&& new.scope_stack() == with_symbol(old.scope_stack(), item_symbol(item, next, names))
    &&& new.struct_table() == with_entry(old.struct_table(), item_name(item), item_struct(item, names))
    &&& new.class_table() == with_entry(old.class_table(), item_name(item), item_class(item, next, names))
    &&& new.agent_table() == with_entry(old.agent_table(), item_name(item), item_agent(item, next, names))
    &&& new.tool_table() == with_entry(old.tool_table(), item_name(item), item_tool(item, names))
    &&& new.subst() == old.subst()
    &&& new.error_list() == old.error_list()
}

/// Register an item's type ahead of checking bodies (the first pass over a
/// module): a function becomes a constant of its signature's type; a class,
/// struct, agent or tool is recorded in its registry and becomes a constant of its
/// nominal type; a memory, prompt or enum becomes a constant of its nominal type;
/// a constant, an import or a statement is left to the checking pass. Missing
/// annotations take fresh type variables (for a tool's `execute`, `Any`). (Each
/// fresh variable must fit in the `u32` counter; the increment panics otherwise.)
pub fn register_item_type(ctx: &mut TypeContext, item: &Item)
    requires
        old(ctx).wf(),
        old(ctx).next_var() + item_fresh(*item) <= u32::MAX,
    ensures
        item_registered(*old(ctx), *final(ctx), *item),
{
    match item {
        Item::Function(f) => {
            let ty = signature_type(ctx, &f.params, &f.return_type, f.is_async);
            ctx.define_const(f.name.clone(), ty, f.span);
        },
        Item::Class(c) => {
            let info = class_info(ctx, c);
            ctx.register_class(info);
            ctx.define_const(c.name.clone(), Type::Class(c.name.clone()), c.span);
        },
        Item::Struct(d) => {
            let fields = field_infos(ctx, &d.fields);
            ctx.register_struct(StructInfo { name: d.name.clone(), fields });
            ctx.define_const(d.name.clone(), Type::Struct(d.name.clone()), d.span);
        },
        Item::Agent(a) => {
            let info = agent_info(ctx, a);
            ctx.register_agent(info);
            ctx.define_const(a.name.clone(), Type::Agent(a.name.clone()), a.span);
        },
        Item::Tool(t) => {
            let info = tool_info(ctx, t);
            ctx.register_tool(info);
            ctx.define_const(t.name.clone(), Type::Tool(t.name.clone()), t.span);
        },
        Item::Memory(m) => {
            ctx.define_const(m.name.clone(), Type::Memory(m.name.clone()), m.span);
        },
        Item::Prompt(p) => {
            ctx.define_const(p.name.clone(), Type::Prompt(p.name.clone()), p.span);
        },
        Item::Enum(e) => {
            ctx.define_const(e.name.clone(), Type::Enum(e.name.clone()), e.span);
        },
        _ => {},
    }
}

/// A row of slots mentions no type variable outside the fresh ones it numbers.
proof fn lemma_slot_types_vars(anns: Seq<Option<TypeExpr>>, next: int, names: TypeNames, id: u32)
    requires
        0 <= next,
        next + missing_count(anns) <= u32::MAX,
        id < next || id >= next + missing_count(anns),
    ensures
        !occurs_in_list(id, slot_types(anns, next, names)),
    decreases anns.len(),
{
    if anns.len() > 0 {
        let init = slot_types(anns.drop_last(), next, names);
        let x = slot(anns.last(), next + missing_count(anns.drop_last()), names);
        lemma_slot_types_vars(anns.drop_last(), next, names, id);
        if let Some(te) = anns.last() {
            lemma_denoted_closed(te, names.structs, names.classes, names.agents, id);
        }
        let s = init.push(x);
        assert forall|k: int| 0 <= k < s.len() implies !#[trigger] occurs_in(id, s[k]) by {
            if k < init.len() {
                if occurs_in(id, init[k]) {
                    lemma_occurs_list_elem(id, init, k);
                }
            }
        }
        lemma_occurs_list_none(id, s);
    }
}

/// Registering a signature brings in only fresh type variables: every type
/// variable in its type is one of those numbered from `next` on, below
/// `next + fn_fresh(params, ret)`, which the counter then moves past.
pub proof fn lemma_signature_vars_fresh(
    params: Seq<Param>,
    ret: Option<TypeExpr>,
    next: int,
    names: TypeNames,
    is_async: bool,
    id: u32,
)
    requires
        0 <= next,
        next + fn_fresh(params, ret) <= u32::MAX,
        occurs_in(id, fn_type(params, ret, next, names, is_async)),
    ensures
        next <= id < next + fn_fresh(params, ret),
{
    let anns = param_annotations(params);
    if id < next || id >= next + fn_fresh(params, ret) {
        lemma_slot_types_vars(anns, next, names, id);
        let m = next + missing_count(anns);
        match ret {
            Some(te) => {
                lemma_denoted_closed(te, names.structs, names.classes, names.agents, id);
            },
            None => {
                assert(0 <= m < u32::MAX);
                assert((m as u32) as int == m);
                assert(!occurs_in(id, Ty::TypeVar(m as u32)));
            },
        }
        assert(!occurs_in(id, slot(ret, m, names)));
    }
}

} // verus!
