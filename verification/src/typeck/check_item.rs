//! Checking top-level items: function, method, task and handler bodies in scopes
//! of their own; class and struct fields against their defaults; agents, which
//! need a model, and tools, which need an `execute` method; memories, prompts,
//! constants, imports and top-level statements; and whole modules, whose items
//! are all registered before any of them is checked.

use vstd::prelude::*;
use crate::stdlib::text::{owned, same_text};
use crate::typeck::annotations::TypeExpr;
use crate::typeck::ast::{
    AgentConfig, AgentDef, AgentMember, ClassDef, ClassMember, ConstDef, Expr, FieldDef, Item, MemoryDef,
    MemoryMember, Module, PromptDef, PromptSection, Stmt, StructDef, ToolDef, ToolMember,
};
use crate::typeck::bodies::{
    body_entered, handler_entered, import_symbols, param_annotations, param_symbols, Import, Param,
};
use crate::typeck::check_expr::{
    entered, expr_checked, expr_fresh, exited, exprs_checked, exprs_fresh, lemma_exprs_checked_step,
    lemma_exprs_fresh_prefix, via1, via2, via3, via4,
};
use crate::typeck::check_stmt::{block_checked, block_fresh, opt_expr_fresh, stmt_checked, stmt_fresh};
use crate::typeck::context::{define_in, plain_scope, SymbolModel, TypeContext};
use crate::typeck::declarations::{
    any_slot, denotes, fn_fresh, item_fresh, item_name, item_registered, item_symbol, missing_count,
    register_item_type, TypeNames,
};
use crate::typeck::error::{Span, TypeError, source_of, to_source_span};
use crate::typeck::patterns::define_all;
use crate::typeck::statements::{let_typed, one_error_more};
use crate::typeck::types::{views_of, Ty, Type};
use crate::typeck::unify::{lemma_views_of_push, outcome, unify_spec};

verus! {

/// `new` is `old` with `name` defined in the innermost scope as a constant of type
/// `ty`, at `span`.
pub open spec fn defined_const(old: TypeContext, new: TypeContext, name: Seq<char>, ty: Ty, span: Span) -> bool {
    &&& new.wf()
    &&& new.scope_stack() == define_in(old.scope_stack(), name, SymbolModel { name, ty, mutable: false, span })
    &&& new.same_but_scopes(&old)
}

/// Checking a function (or method, or task) body: the body is checked in the scope
/// `body_entered` describes, which is then left.
pub open spec fn function_checked(
    old: TypeContext,
    new: TypeContext,
    params: Seq<Param>,
    ret: Option<TypeExpr>,
    is_async: bool,
    body: Seq<Stmt>,
) -> bool {
    exists|s1: TypeContext, s2: TypeContext|
        #![trigger via2(s1, s2)]
        via2(s1, s2) && body_entered(old, s1, params, ret, is_async) && block_checked(s1, s2, body) && exited(s2, new)
}

/// The most fresh type variables checking a function body can take.
pub open spec fn function_fresh(params: Seq<Param>, ret: Option<TypeExpr>, body: Seq<Stmt>) -> nat {
    fn_fresh(params, ret) + block_fresh(body)
}

/// Checking an event handler: its body is checked in the scope `handler_entered`
/// describes, which is then left.
pub open spec fn on_event_checked(old: TypeContext, new: TypeContext, params: Seq<Param>, body: Seq<Stmt>) -> bool {
    exists|s1: TypeContext, s2: TypeContext|
        #![trigger via2(s1, s2)]
        via2(s1, s2) && handler_entered(old, s1, params) && block_checked(s1, s2, body) && exited(s2, new)
}

/// Checking a field's default `d` against the field's annotation `te`: the default
/// is checked and then unified with the annotation's type at the default's span.
/// The annotation is resolved before the default is checked, or after it when
/// `late`.
pub open spec fn default_checked(old: TypeContext, new: TypeContext, d: Expr, te: TypeExpr, late: bool) -> bool {
    exists|s1: TypeContext, t: Ty|
        #![trigger via2(s1, t)]
        {
            let declared = denotes(te, if late { s1.type_names() } else { old.type_names() });
            let u = unify_spec(s1.subst(), declared, t);
            &&& via2(s1, t)
            &&& expr_checked(old, s1, d, t)
            &&& outcome(s1, new, u, u.ty, source_of(d.span))
        }
}

/// Checking a field: its default, when it has one (see `default_checked`).
pub open spec fn field_checked(old: TypeContext, new: TypeContext, f: FieldDef, late: bool) -> bool {
    match f.default {
        Some(d) => default_checked(old, new, d, f.ty, late),
        None => new == old,
    }
}

/// The most fresh type variables checking a field can take.
pub open spec fn field_fresh(f: FieldDef) -> nat {
    opt_expr_fresh(f.default)
}

/// Checking a class: in a plain scope of its own, `self` is defined as a constant
/// of the class's type (at the class name's span), then the members are checked
/// in order; the scope is then left.
pub open spec fn class_checked(old: TypeContext, new: TypeContext, c: ClassDef) -> bool
    decreases c,
{
    exists|s1: TypeContext, s2: TypeContext, s3: TypeContext|
        #![trigger via3(s1, s2, s3)]
        {
            &&& via3(s1, s2, s3)
            &&& entered(old, s1, plain_scope(None, false, false))
            &&& defined_const(s1, s2, "self"@, Ty::Class(c.name@), c.span)
            &&& members_checked(s2, s3, c.body@)
            &&& exited(s3, new)
        }
}

/// Checking class members in order.
pub open spec fn members_checked(old: TypeContext, new: TypeContext, ms: Seq<ClassMember>) -> bool
    decreases ms,
{
    if ms.len() == 0 {
        new == old
    } else {
        exists|mid: TypeContext|
            #![trigger via1(mid)]
            via1(mid) && members_checked(old, mid, ms.drop_last()) && class_member_checked(mid, new, ms.last())
    }
}

/// Checking a class member: a field's default against its annotation (resolved
/// first), a method's body, or a nested class.
pub open spec fn class_member_checked(old: TypeContext, new: TypeContext, m: ClassMember) -> bool
    decreases m,
{
    match m {
        ClassMember::Field(f) => field_checked(old, new, f, false),
        ClassMember::Method(f) => function_checked(old, new, f.params@, f.return_type, f.is_async, f.body@),
        ClassMember::Class(c) => class_checked(old, new, c),
    }
}

/// The most fresh type variables checking a class can take.
pub open spec fn class_fresh(c: ClassDef) -> nat
    decreases c,
{
    members_fresh(c.body@)
}

/// The most fresh type variables checking class members can take.
pub open spec fn members_fresh(ms: Seq<ClassMember>) -> nat
    decreases ms,
{
    if ms.len() == 0 {
        0
    } else {
        members_fresh(ms.drop_last()) + member_fresh(ms.last())
    }
}

/// The most fresh type variables checking a class member can take.
pub open spec fn member_fresh(m: ClassMember) -> nat
    decreases m,
{
    match m {
        ClassMember::Field(f) => field_fresh(f),
        ClassMember::Method(f) => function_fresh(f.params@, f.return_type, f.body@),
        ClassMember::Class(c) => class_fresh(c),
    }
}

/// The values of a budget's entries, in order.
pub open spec fn budget_values(items: Seq<(String, Expr)>) -> Seq<Expr> {
    items.map_values(|p: (String, Expr)| p.1)
}

/// Checking an agent configuration entry: its expressions, in order, whatever
/// their types (for a budget, the entries' values).
pub open spec fn config_checked(old: TypeContext, new: TypeContext, c: AgentConfig) -> bool {
    match c {
        AgentConfig::Model(e) => exists|t: Ty| #![trigger via1(t)] via1(t) && expr_checked(old, new, e, t),
        AgentConfig::Memory(es) => exprs_checked(old, new, es@),
        AgentConfig::Tools(es) => exprs_checked(old, new, es@),
        AgentConfig::Budget(items) => exprs_checked(old, new, budget_values(items@)),
        AgentConfig::Policy(es) => exprs_checked(old, new, es@),
    }
}

/// The most fresh type variables checking a configuration entry can take.
pub open spec fn config_fresh(c: AgentConfig) -> nat {
    match c {
        AgentConfig::Model(e) => expr_fresh(e),
        AgentConfig::Memory(es) => exprs_fresh(es@),
        AgentConfig::Tools(es) => exprs_fresh(es@),
        AgentConfig::Budget(items) => exprs_fresh(budget_values(items@)),
        AgentConfig::Policy(es) => exprs_fresh(es@),
    }
}

/// Checking configuration entries in order.
pub open spec fn configs_checked(old: TypeContext, new: TypeContext, cs: Seq<AgentConfig>) -> bool
    decreases cs.len(),
{
    if cs.len() == 0 {
        new == old
    } else {
        exists|mid: TypeContext|
            #![trigger via1(mid)]
            via1(mid) && configs_checked(old, mid, cs.drop_last()) && config_checked(mid, new, cs.last())
    }
}

/// The most fresh type variables checking configuration entries can take.
pub open spec fn configs_fresh(cs: Seq<AgentConfig>) -> nat
    decreases cs.len(),
{
    if cs.len() == 0 {
        0
    } else {
        configs_fresh(cs.drop_last()) + config_fresh(cs.last())
    }
}

/// Checking an agent member: a configuration entry's expressions, a task's body
/// (always asynchronous), a method's body, or an event handler's body.
pub open spec fn agent_member_checked(old: TypeContext, new: TypeContext, m: AgentMember) -> bool {
    match m {
        AgentMember::Config(c) => config_checked(old, new, c),
        AgentMember::Task(t) => function_checked(old, new, t.params@, t.return_type, true, t.body@),
        AgentMember::Method(f) => function_checked(old, new, f.params@, f.return_type, f.is_async, f.body@),
        AgentMember::OnEvent(h) => on_event_checked(old, new, h.params@, h.body@),
    }
}

/// The most fresh type variables checking an agent member can take.
pub open spec fn agent_member_fresh(m: AgentMember) -> nat {
    match m {
        AgentMember::Config(c) => config_fresh(c),
        AgentMember::Task(t) => function_fresh(t.params@, t.return_type, t.body@),
        AgentMember::Method(f) => function_fresh(f.params@, f.return_type, f.body@),
        AgentMember::OnEvent(h) => missing_count(param_annotations(h.params@)) + block_fresh(h.body@),
    }
}

/// Checking agent members in order.
pub open spec fn agent_members_checked(old: TypeContext, new: TypeContext, ms: Seq<AgentMember>) -> bool
    decreases ms.len(),
{
    if ms.len() == 0 {
        new == old
    } else {
        exists|mid: TypeContext|
            #![trigger via1(mid)]
            via1(mid) && agent_members_checked(old, mid, ms.drop_last()) && agent_member_checked(mid, new, ms.last())
    }
}

/// The most fresh type variables checking agent members can take.
pub open spec fn agent_members_fresh(ms: Seq<AgentMember>) -> nat
    decreases ms.len(),
{
    if ms.len() == 0 {
        0
    } else {
        agent_members_fresh(ms.drop_last()) + agent_member_fresh(ms.last())
    }
}

/// Some configuration entry names the model.
pub open spec fn configs_have_model(cs: Seq<AgentConfig>) -> bool {
    exists|k: int| 0 <= k < cs.len() && #[trigger] cs[k] is Model
}

/// Some member is a configuration entry naming the model.
pub open spec fn members_have_model(ms: Seq<AgentMember>) -> bool {
    exists|k: int| 0 <= k < ms.len() && (#[trigger] ms[k] matches AgentMember::Config(AgentConfig::Model(_)))
}

/// An agent names its model, in its configuration or among its members.
pub open spec fn has_model(a: AgentDef) -> bool {
    configs_have_model(a.config@) || members_have_model(a.members@)
}

/// `new` is `old` with one more error, reporting that agent `a` has no `model`
/// clause (at the agent name's span).
pub open spec fn reported_missing_model(old: TypeContext, new: TypeContext, a: AgentDef) -> bool {
    &&& one_error_more(old, new)
    &&& new.error_list().last() matches TypeError::AgentMissingClause { name, missing, span }
    &&& name@ == a.name@
    &&& missing@ == "model"@
    &&& span == source_of(a.span)
}

/// Checking an agent: in a plain scope of its own, `self` is defined as a constant
/// of the agent's type, the configuration entries and then the members are checked
/// in order, an agent that names no model is reported, and the scope is left.
pub open spec fn agent_checked(old: TypeContext, new: TypeContext, a: AgentDef) -> bool {
    exists|s1: TypeContext, s2: TypeContext, s3: TypeContext|
        #![trigger via3(s1, s2, s3)]
        {
            &&& via3(s1, s2, s3)
            &&& entered(old, s1, plain_scope(None, false, false))
            &&& defined_const(s1, s2, "self"@, Ty::Agent(a.name@), a.span)
            &&& configs_checked(s2, s3, a.config@)
            &&& exists|s4: TypeContext, s5: TypeContext|
                #![trigger via2(s4, s5)]
                {
                    &&& via2(s4, s5)
                    &&& agent_members_checked(s3, s4, a.members@)
                    &&& if has_model(a) {
                        s5 == s4
                    } else {
                        reported_missing_model(s4, s5, a)
                    }
                    &&& exited(s5, new)
                }
        }
}

/// The most fresh type variables checking an agent can take.
pub open spec fn agent_fresh(a: AgentDef) -> nat {
    configs_fresh(a.config@) + agent_members_fresh(a.members@)
}

/// Checking a tool member: a rate limit's expression or a method's body; the
/// other members are not checked.
pub open spec fn tool_member_checked(old: TypeContext, new: TypeContext, m: ToolMember) -> bool {
    match m {
        ToolMember::RateLimit(e) => exists|t: Ty| #![trigger via1(t)] via1(t) && expr_checked(old, new, e, t),
        ToolMember::Method(f) => function_checked(old, new, f.params@, f.return_type, f.is_async, f.body@),
        _ => new == old,
    }
}

/// The most fresh type variables checking a tool member can take.
pub open spec fn tool_member_fresh(m: ToolMember) -> nat {
    match m {
        ToolMember::RateLimit(e) => expr_fresh(e),
        ToolMember::Method(f) => function_fresh(f.params@, f.return_type, f.body@),
        _ => 0,
    }
}

/// Checking tool members in order.
pub open spec fn tool_members_checked(old: TypeContext, new: TypeContext, ms: Seq<ToolMember>) -> bool
    decreases ms.len(),
{
    if ms.len() == 0 {
        new == old
    } else {
        exists|mid: TypeContext|
            #![trigger via1(mid)]
            via1(mid) && tool_members_checked(old, mid, ms.drop_last()) && tool_member_checked(mid, new, ms.last())
    }
}

/// The most fresh type variables checking tool members can take.
pub open spec fn tool_members_fresh(ms: Seq<ToolMember>) -> nat
    decreases ms.len(),
{
    if ms.len() == 0 {
        0
    } else {
        tool_members_fresh(ms.drop_last()) + tool_member_fresh(ms.last())
    }
}

/// A tool member is a method named `execute`.
pub open spec fn is_execute(m: ToolMember) -> bool {
    match m {
        ToolMember::Method(f) => f.name@ == "execute"@,
        _ => false,
    }
}

/// Some member is a method named `execute`.
pub open spec fn has_execute(ms: Seq<ToolMember>) -> bool {
    exists|k: int| 0 <= k < ms.len() && is_execute(#[trigger] ms[k])
}

/// `new` is `old` with one more error, reporting that tool `t` has no `execute`
/// method (at the tool name's span).
pub open spec fn reported_no_execute(old: TypeContext, new: TypeContext, t: ToolDef) -> bool {
    &&& one_error_more(old, new)
    &&& new.error_list().last() matches TypeError::ToolNoExecute { name, span }
    &&& name@ == t.name@
    &&& span == source_of(t.span)
}

/// Checking a tool: in a plain scope of its own, the members are checked in order,
/// a tool without an `execute` method is reported, and the scope is left.
pub open spec fn tool_checked(old: TypeContext, new: TypeContext, t: ToolDef) -> bool {
    exists|s1: TypeContext, s2: TypeContext, s3: TypeContext|
        #![trigger via3(s1, s2, s3)]
        {
            &&& via3(s1, s2, s3)
            &&& entered(old, s1, plain_scope(None, false, false))
            &&& tool_members_checked(s1, s2, t.members@)
            &&& if has_execute(t.members@) {
                s3 == s2
            } else {
                reported_no_execute(s2, s3, t)
            }
            &&& exited(s3, new)
        }
}

/// Checking a memory member: a capacity's or retention's expression, or a
/// method's body; the other members are not checked.
pub open spec fn memory_member_checked(old: TypeContext, new: TypeContext, m: MemoryMember) -> bool {
    match m {
        MemoryMember::Capacity(e) => exists|t: Ty| #![trigger via1(t)] via1(t) && expr_checked(old, new, e, t),
        MemoryMember::Retention(e) => exists|t: Ty| #![trigger via1(t)] via1(t) && expr_checked(old, new, e, t),
        MemoryMember::Method(f) => function_checked(old, new, f.params@, f.return_type, f.is_async, f.body@),
        _ => new == old,
    }
}

/// The most fresh type variables checking a memory member can take.
pub open spec fn memory_member_fresh(m: MemoryMember) -> nat {
    match m {
        MemoryMember::Capacity(e) => expr_fresh(e),
        MemoryMember::Retention(e) => expr_fresh(e),
        MemoryMember::Method(f) => function_fresh(f.params@, f.return_type, f.body@),
        _ => 0,
    }
}

/// Checking memory members in order.
pub open spec fn memory_members_checked(old: TypeContext, new: TypeContext, ms: Seq<MemoryMember>) -> bool
    decreases ms.len(),
{
    if ms.len() == 0 {
        new == old
    } else {
        exists|mid: TypeContext|
            #![trigger via1(mid)]
            via1(mid) && memory_members_checked(old, mid, ms.drop_last()) && memory_member_checked(mid, new, ms.last())
    }
}

/// The most fresh type variables checking memory members can take.
pub open spec fn memory_members_fresh(ms: Seq<MemoryMember>) -> nat
    decreases ms.len(),
{
    if ms.len() == 0 {
        0
    } else {
        memory_members_fresh(ms.drop_last()) + memory_member_fresh(ms.last())
    }
}

/// Checking a memory: its members in order, in a plain scope of its own.
pub open spec fn memory_checked(old: TypeContext, new: TypeContext, m: MemoryDef) -> bool {
    exists|s1: TypeContext, s2: TypeContext|
        #![trigger via2(s1, s2)]
        via2(s1, s2) && entered(old, s1, plain_scope(None, false, false)) && memory_members_checked(
            s1,
            s2,
            m.members@,
        ) && exited(s2, new)
}

/// The types of a prompt's parameters: their annotations', or `Any`.
pub open spec fn prompt_param_types(ps: Seq<Param>, names: TypeNames) -> Seq<Ty> {
    ps.map_values(|p: Param| any_slot(p.ty, names))
}

/// Checking prompt sections in order: a block is checked (in the prompt's scope),
/// text is not.
pub open spec fn sections_checked(old: TypeContext, new: TypeContext, ss: Seq<PromptSection>) -> bool
    decreases ss.len(),
{
    if ss.len() == 0 {
        new == old
    } else {
        exists|mid: TypeContext|
            #![trigger via1(mid)]
            {
                &&& via1(mid)
                &&& sections_checked(old, mid, ss.drop_last())
                &&& match ss.last() {
                    PromptSection::Text(_) => new == mid,
                    PromptSection::Block(b) => block_checked(mid, new, b@),
                }
            }
    }
}

/// The most fresh type variables checking prompt sections can take.
pub open spec fn sections_fresh(ss: Seq<PromptSection>) -> nat
    decreases ss.len(),
{
    if ss.len() == 0 {
        0
    } else {
        sections_fresh(ss.drop_last()) + match ss.last() {
            PromptSection::Text(_) => 0,
            PromptSection::Block(b) => block_fresh(b@),
        }
    }
}

/// Checking a prompt: in a plain scope of its own, its parameters are bound as
/// mutable variables to their annotations' types (or `Any`), then its sections
/// are checked; the scope is then left.
pub open spec fn prompt_checked(old: TypeContext, new: TypeContext, p: PromptDef) -> bool {
    exists|s1: TypeContext, s2: TypeContext, s3: TypeContext|
        #![trigger via3(s1, s2, s3)]
        {
            &&& via3(s1, s2, s3)
            &&& entered(old, s1, plain_scope(None, false, false))
            &&& s2.bound_as(&s1, param_symbols(p.params@, prompt_param_types(p.params@, old.type_names())))
            &&& sections_checked(s2, s3, p.sections@)
            &&& exited(s3, new)
        }
}

/// Checking a struct's fields in order, each default against its annotation
/// (resolved after the default is checked).
pub open spec fn struct_fields_checked(old: TypeContext, new: TypeContext, fs: Seq<FieldDef>) -> bool
    decreases fs.len(),
{
    if fs.len() == 0 {
        new == old
    } else {
        exists|mid: TypeContext|
            #![trigger via1(mid)]
            via1(mid) && struct_fields_checked(old, mid, fs.drop_last()) && field_checked(mid, new, fs.last(), true)
    }
}

/// The most fresh type variables checking fields can take.
pub open spec fn fields_fresh(fs: Seq<FieldDef>) -> nat
    decreases fs.len(),
{
    if fs.len() == 0 {
        0
    } else {
        fields_fresh(fs.drop_last()) + field_fresh(fs.last())
    }
}

/// Checking a constant: its value is checked; with an annotation, the annotation's
/// type is unified with the value's (at the value's span) and the result is the
/// constant's type, else the value's type is; the constant is then defined.
pub open spec fn const_checked(old: TypeContext, new: TypeContext, c: ConstDef) -> bool {
    exists|s1: TypeContext, t: Ty, mid: TypeContext, ct: Ty|
        #![trigger via4(s1, t, mid, ct)]
        {
            &&& via4(s1, t, mid, ct)
            &&& expr_checked(old, s1, c.value, t)
            &&& mid.wf()
            &&& let_typed(s1, mid, t, true, c.ty, source_of(c.value.span), ct)
            &&& new.wf()
            &&& new.scope_stack() == define_in(
                mid.scope_stack(),
                c.name@,
                SymbolModel { name: c.name@, ty: ct, mutable: false, span: c.span },
            )
            &&& new.same_but_scopes(&mid)
        }
}

/// An import that can be checked: a module import without an alias has a path.
pub open spec fn import_ok(i: Import) -> bool {
    i matches Import::Module { path, alias } ==> alias is Some || path.len() > 0
}

/// An item that can be checked (see `import_ok`).
pub open spec fn item_ok(item: Item) -> bool {
    item matches Item::Import(i) ==> import_ok(i)
}

/// Checking `item` from `old` leaves `new`: a function's body, a class, agent,
/// tool, memory or prompt as the relations above say, a struct's fields, an
/// import's names (each an immutable `Any`), a constant, or a statement; an enum
/// changes nothing.
pub open spec fn item_checked(old: TypeContext, new: TypeContext, item: Item) -> bool {
    match item {
        Item::Function(f) => function_checked(old, new, f.params@, f.return_type, f.is_async, f.body@),
        Item::Class(c) => class_checked(old, new, c),
        Item::Agent(a) => agent_checked(old, new, a),
        Item::Tool(t) => tool_checked(old, new, t),
        Item::Memory(m) => memory_checked(old, new, m),
        Item::Prompt(p) => prompt_checked(old, new, p),
        Item::Struct(d) => struct_fields_checked(old, new, d.fields@),
        Item::Enum(_) => new == old,
        Item::Import(i) => {
            &&& new.wf()
            &&& new.scope_stack() == define_all(old.scope_stack(), import_symbols(i))
            &&& new.same_but_scopes(&old)
        },
        Item::Const(c) => const_checked(old, new, c),
        Item::Stmt(s) => stmt_checked(old, new, s),
    }
}

/// The most fresh type variables checking an item can take.
pub open spec fn item_check_fresh(item: Item) -> nat {
    match item {
        Item::Function(f) => function_fresh(f.params@, f.return_type, f.body@),
        Item::Class(c) => class_fresh(c),
        Item::Agent(a) => agent_fresh(a),
        Item::Tool(t) => tool_members_fresh(t.members@),
        Item::Memory(m) => memory_members_fresh(m.members@),
        Item::Prompt(p) => sections_fresh(p.sections@),
        Item::Struct(d) => fields_fresh(d.fields@),
        Item::Const(c) => expr_fresh(c.value),
        Item::Stmt(s) => stmt_fresh(s),
        _ => 0,
    }
}

/// A prefix of class members never takes more fresh variables than the whole.
proof fn lemma_members_fresh_prefix(ms: Seq<ClassMember>, i: int)
    requires
        0 <= i <= ms.len(),
    ensures
        members_fresh(ms.take(i)) <= members_fresh(ms),
    decreases ms.len(),
{
    if i < ms.len() {
        lemma_members_fresh_prefix(ms.drop_last(), i);
        assert(ms.drop_last().take(i) =~= ms.take(i));
    } else {
        assert(ms.take(i) =~= ms);
    }
}

impl TypeContext {
    /// Check a function (or method, or task) body: enter its scope with the
    /// parameters bound, check the body, and leave the scope.
    fn check_function_body(&mut self, params: &Vec<Param>, ret: &Option<TypeExpr>, is_async: bool, body: &Vec<Stmt>)
        requires
            old(self).wf(),
            old(self).next_var() + function_fresh(params@, *ret, body@) <= u32::MAX,
        ensures
            final(self).advanced_within(old(self), function_fresh(params@, *ret, body@)),
            function_checked(*old(self), *final(self), params@, *ret, is_async, body@),
    {
        self.enter_function_body(params, ret, is_async);
        let ghost s1 = *self;
        self.check_block(body);
        let ghost s2 = *self;
        self.exit_scope();
        assert(via2(s1, s2));
    }

    /// Check a field's default against the field's annotation.
    fn check_field(&mut self, f: &FieldDef, late: bool)
        requires
            old(self).wf(),
            old(self).next_var() + field_fresh(*f) <= u32::MAX,
        ensures
            final(self).advanced_within(old(self), field_fresh(*f)),
            field_checked(*old(self), *final(self), *f, late),
    {
        if let Some(d) = &f.default {
            let early = self.resolve_type_expr(&f.ty);
            let t = self.check_expr(d);
            let ghost s1 = *self;
            let declared = if late {
                self.resolve_type_expr(&f.ty)
            } else {
                early
            };
            self.unify(&declared, &t, d.span);
            assert(via2(s1, t.view_ty()));
        }
    }

    /// Check a class, as `class_checked` says.
    fn check_class(&mut self, c: &ClassDef)
        requires
            old(self).wf(),
            old(self).next_var() + class_fresh(*c) <= u32::MAX,
        ensures
            final(self).advanced_within(old(self), class_fresh(*c)),
            class_checked(*old(self), *final(self), *c),
        decreases *c,
    {
        self.enter_scope();
        let ghost s1 = *self;
        self.define_const(owned("self"), Type::Class(c.name.clone()), c.span);
        let ghost s2 = *self;
        assert(decreases_to!(*c => c.body@));
        self.check_class_members(&c.body);
        let ghost s3 = *self;
        self.exit_scope();
        assert(via3(s1, s2, s3));
    }

    /// Check class members in order.
    fn check_class_members(&mut self, ms: &Vec<ClassMember>)
        requires
            old(self).wf(),
            old(self).next_var() + members_fresh(ms@) <= u32::MAX,
        ensures
            final(self).advanced_within(old(self), members_fresh(ms@)),
            members_checked(*old(self), *final(self), ms@),
        decreases ms@,
    {
        let ghost s0 = *self;
        assert(ms@.take(0) =~= Seq::<ClassMember>::empty());
        let mut i: usize = 0;
        while i < ms.len()
            invariant
                i <= ms.len(),
                s0.wf(),
                s0.next_var() + members_fresh(ms@) <= u32::MAX,
                self.advanced_within(&s0, members_fresh(ms@.take(i as int))),
                members_checked(s0, *self, ms@.take(i as int)),
            decreases ms.len() - i,
        {
            proof {
                assert(ms@.take(i + 1).drop_last() =~= ms@.take(i as int));
                assert(ms@.take(i + 1).last() == ms@[i as int]);
                lemma_members_fresh_prefix(ms@, i + 1);
                assert(members_fresh(ms@.take(i + 1)) == members_fresh(ms@.take(i as int)) + member_fresh(
                    ms@[i as int],
                ));
            }
            let ghost mid = *self;
            assert(decreases_to!(ms@ => ms@[i as int]));
            match &ms[i] {
                ClassMember::Field(f) => self.check_field(f, false),
                ClassMember::Method(f) => self.check_function_body(&f.params, &f.return_type, f.is_async, &f.body),
                ClassMember::Class(c) => {
                    assert(decreases_to!(ms@[i as int] => *c));
                    self.check_class(c);
                },
            }
            assert(class_member_checked(mid, *self, ms@[i as int]));
            assert(via1(mid));
            i += 1;
        }
        assert(ms@.take(ms.len() as int) =~= ms@);
    }
}

/// A prefix of configuration entries never takes more fresh variables than the whole.
proof fn lemma_configs_fresh_prefix(cs: Seq<AgentConfig>, i: int)
    requires
        0 <= i <= cs.len(),
    ensures
        configs_fresh(cs.take(i)) <= configs_fresh(cs),
    decreases cs.len(),
{
    if i < cs.len() {
        lemma_configs_fresh_prefix(cs.drop_last(), i);
        assert(cs.drop_last().take(i) =~= cs.take(i));
    } else {
        assert(cs.take(i) =~= cs);
    }
}

/// A prefix of agent members never takes more fresh variables than the whole.
proof fn lemma_agent_members_fresh_prefix(ms: Seq<AgentMember>, i: int)
    requires
        0 <= i <= ms.len(),
    ensures
        agent_members_fresh(ms.take(i)) <= agent_members_fresh(ms),
    decreases ms.len(),
{
    if i < ms.len() {
        lemma_agent_members_fresh_prefix(ms.drop_last(), i);
        assert(ms.drop_last().take(i) =~= ms.take(i));
    } else {
        assert(ms.take(i) =~= ms);
    }
}

/// A prefix of tool members never takes more fresh variables than the whole.
proof fn lemma_tool_members_fresh_prefix(ms: Seq<ToolMember>, i: int)
    requires
        0 <= i <= ms.len(),
    ensures
        tool_members_fresh(ms.take(i)) <= tool_members_fresh(ms),
    decreases ms.len(),
{
    if i < ms.len() {
        lemma_tool_members_fresh_prefix(ms.drop_last(), i);
        assert(ms.drop_last().take(i) =~= ms.take(i));
    } else {
        assert(ms.take(i) =~= ms);
    }
}

/// A prefix of memory members never takes more fresh variables than the whole.
proof fn lemma_memory_members_fresh_prefix(ms: Seq<MemoryMember>, i: int)
    requires
        0 <= i <= ms.len(),
    ensures
        memory_members_fresh(ms.take(i)) <= memory_members_fresh(ms),
    decreases ms.len(),
{
    if i < ms.len() {
        lemma_memory_members_fresh_prefix(ms.drop_last(), i);
        assert(ms.drop_last().take(i) =~= ms.take(i));
    } else {
        assert(ms.take(i) =~= ms);
    }
}

/// A prefix of prompt sections never takes more fresh variables than the whole.
proof fn lemma_sections_fresh_prefix(ss: Seq<PromptSection>, i: int)
    requires
        0 <= i <= ss.len(),
    ensures
        sections_fresh(ss.take(i)) <= sections_fresh(ss),
    decreases ss.len(),
{
    if i < ss.len() {
        lemma_sections_fresh_prefix(ss.drop_last(), i);
        assert(ss.drop_last().take(i) =~= ss.take(i));
    } else {
        assert(ss.take(i) =~= ss);
    }
}

/// A prefix of fields never takes more fresh variables than the whole.
proof fn lemma_fields_fresh_prefix(fs: Seq<FieldDef>, i: int)
    requires
        0 <= i <= fs.len(),
    ensures
        fields_fresh(fs.take(i)) <= fields_fresh(fs),
    decreases fs.len(),
{
    if i < fs.len() {
        lemma_fields_fresh_prefix(fs.drop_last(), i);
        assert(fs.drop_last().take(i) =~= fs.take(i));
    } else {
        assert(fs.take(i) =~= fs);
    }
}

impl TypeContext {
    /// Check the values of a budget's entries in order.
    fn check_budget(&mut self, items: &Vec<(String, Expr)>)
        requires
            old(self).wf(),
            old(self).next_var() + exprs_fresh(budget_values(items@)) <= u32::MAX,
        ensures
            final(self).advanced_within(old(self), exprs_fresh(budget_values(items@))),
            exprs_checked(*old(self), *final(self), budget_values(items@)),
    {
        let ghost s0 = *self;
        let ghost vs = budget_values(items@);
        assert(vs.take(0) =~= Seq::<Expr>::empty());
        let mut i: usize = 0;
        while i < items.len()
            invariant
                i <= items.len(),
                vs == budget_values(items@),
                vs.len() == items.len(),
                s0.wf(),
                s0.next_var() + exprs_fresh(vs) <= u32::MAX,
                self.advanced_within(&s0, exprs_fresh(vs.take(i as int))),
                exprs_checked(s0, *self, vs.take(i as int)),
            decreases items.len() - i,
        {
            proof {
                assert(vs.take(i + 1).drop_last() =~= vs.take(i as int));
                assert(vs.take(i + 1).last() == items@[i as int].1);
                lemma_exprs_fresh_prefix(vs, i + 1);
            }
            let ghost mid = *self;
            let t = self.check_expr(&items[i].1);
            proof {
                lemma_exprs_checked_step(s0, mid, *self, vs.take(i + 1), t.view_ty());
            }
            i += 1;
        }
        assert(vs.take(items.len() as int) =~= vs);
    }

    /// Check an agent configuration entry; tells whether it names the model.
    fn check_config(&mut self, c: &AgentConfig) -> (r: bool)
        requires
            old(self).wf(),
            old(self).next_var() + config_fresh(*c) <= u32::MAX,
        ensures
            final(self).advanced_within(old(self), config_fresh(*c)),
            config_checked(*old(self), *final(self), *c),
            r == c is Model,
    {
        match c {
            AgentConfig::Model(e) => {
                let t = self.check_expr(e);
                assert(via1(t.view_ty()));
                true
            },
            AgentConfig::Memory(es) => {
                self.check_exprs(es);
                false
            },
            AgentConfig::Tools(es) => {
                self.check_exprs(es);
                false
            },
            AgentConfig::Budget(items) => {
                self.check_budget(items);
                false
            },
            AgentConfig::Policy(es) => {
                self.check_exprs(es);
                false
            },
        }
    }

    /// Check configuration entries in order; tells whether one names the model.
    fn check_configs(&mut self, cs: &Vec<AgentConfig>) -> (r: bool)
        requires
            old(self).wf(),
            old(self).next_var() + configs_fresh(cs@) <= u32::MAX,
        ensures
            final(self).advanced_within(old(self), configs_fresh(cs@)),
            configs_checked(*old(self), *final(self), cs@),
            r == configs_have_model(cs@),
    {
        let ghost s0 = *self;
        assert(cs@.take(0) =~= Seq::<AgentConfig>::empty());
        let mut found = false;
        let mut i: usize = 0;
        while i < cs.len()
            invariant
                i <= cs.len(),
                s0.wf(),
                s0.next_var() + configs_fresh(cs@) <= u32::MAX,
                self.advanced_within(&s0, configs_fresh(cs@.take(i as int))),
                configs_checked(s0, *self, cs@.take(i as int)),
                found == exists|k: int| 0 <= k < i && #[trigger] cs@[k] is Model,
            decreases cs.len() - i,
        {
            proof {
                assert(cs@.take(i + 1).drop_last() =~= cs@.take(i as int));
                assert(cs@.take(i + 1).last() == cs@[i as int]);
                lemma_configs_fresh_prefix(cs@, i + 1);
            }
            let ghost mid = *self;
            let m = self.check_config(&cs[i]);
            assert(via1(mid));
            found = found || m;
            i += 1;
        }
        assert(cs@.take(cs.len() as int) =~= cs@);
        found
    }

    /// Check agent members in order; tells whether one names the model.
    fn check_agent_members(&mut self, ms: &Vec<AgentMember>) -> (r: bool)
        requires
            old(self).wf(),
            old(self).next_var() + agent_members_fresh(ms@) <= u32::MAX,
        ensures
            final(self).advanced_within(old(self), agent_members_fresh(ms@)),
            agent_members_checked(*old(self), *final(self), ms@),
            r == members_have_model(ms@),
    {
        let ghost s0 = *self;
        assert(ms@.take(0) =~= Seq::<AgentMember>::empty());
        let mut found = false;
        let mut i: usize = 0;
        while i < ms.len()
            invariant
                i <= ms.len(),
                s0.wf(),
                s0.next_var() + agent_members_fresh(ms@) <= u32::MAX,
                self.advanced_within(&s0, agent_members_fresh(ms@.take(i as int))),
                agent_members_checked(s0, *self, ms@.take(i as int)),
                found == exists|k: int| 0 <= k < i && (#[trigger] ms@[k] matches AgentMember::Config(AgentConfig::Model(_))),
            decreases ms.len() - i,
        {
            proof {
                assert(ms@.take(i + 1).drop_last() =~= ms@.take(i as int));
                assert(ms@.take(i + 1).last() == ms@[i as int]);
                lemma_agent_members_fresh_prefix(ms@, i + 1);
                assert(agent_members_fresh(ms@.take(i + 1)) == agent_members_fresh(ms@.take(i as int))
                    + agent_member_fresh(ms@[i as int]));
            }
            let ghost mid = *self;
            let m = match &ms[i] {
                AgentMember::Config(c) => self.check_config(c),
                AgentMember::Task(t) => {
                    self.check_function_body(&t.params, &t.return_type, true, &t.body);
                    false
                },
                AgentMember::Method(f) => {
                    self.check_function_body(&f.params, &f.return_type, f.is_async, &f.body);
                    false
                },
                AgentMember::OnEvent(h) => {
                    self.check_on_event(&h.params, &h.body);
                    false
                },
            };
            assert(agent_member_checked(mid, *self, ms@[i as int]));
            assert(via1(mid));
            found = found || m;
            i += 1;
        }
        assert(ms@.take(ms.len() as int) =~= ms@);
        found
    }

    /// Check an event handler: enter its scope with the parameters bound, check
    /// the body, and leave the scope.
    fn check_on_event(&mut self, params: &Vec<Param>, body: &Vec<Stmt>)
        requires
            old(self).wf(),
            old(self).next_var() + missing_count(param_annotations(params@)) + block_fresh(body@) <= u32::MAX,
        ensures
            final(self).advanced_within(old(self), missing_count(param_annotations(params@)) + block_fresh(body@)),
            on_event_checked(*old(self), *final(self), params@, body@),
    {
        self.enter_handler_body(params);
        let ghost s1 = *self;
        self.check_block(body);
        let ghost s2 = *self;
        self.exit_scope();
        assert(via2(s1, s2));
    }

    /// Check an agent, as `agent_checked` says.
    fn check_agent(&mut self, a: &AgentDef)
        requires
            old(self).wf(),
            old(self).next_var() + agent_fresh(*a) <= u32::MAX,
        ensures
            final(self).advanced_within(old(self), agent_fresh(*a)),
            agent_checked(*old(self), *final(self), *a),
    {
        self.enter_scope();
        let ghost s1 = *self;
        self.define_const(owned("self"), Type::Agent(a.name.clone()), a.span);
        let ghost s2 = *self;
        let in_config = self.check_configs(&a.config);
        let ghost s3 = *self;
        let in_members = self.check_agent_members(&a.members);
        let ghost s4 = *self;
        if !(in_config || in_members) {
            self.error(
                TypeError::AgentMissingClause {
                    name: a.name.clone(),
                    missing: owned("model"),
                    span: to_source_span(a.span),
                },
            );
            assert(self.error_list().drop_last() =~= s4.error_list());
        }
        let ghost s5 = *self;
        self.exit_scope();
        assert(via2(s4, s5));
        assert(via3(s1, s2, s3));
    }

    /// Check tool members in order; tells whether one is a method named `execute`.
    fn check_tool_members(&mut self, ms: &Vec<ToolMember>) -> (r: bool)
        requires
            old(self).wf(),
            old(self).next_var() + tool_members_fresh(ms@) <= u32::MAX,
        ensures
            final(self).advanced_within(old(self), tool_members_fresh(ms@)),
            tool_members_checked(*old(self), *final(self), ms@),
            r == has_execute(ms@),
    {
        let ghost s0 = *self;
        assert(ms@.take(0) =~= Seq::<ToolMember>::empty());
        let mut found = false;
        let mut i: usize = 0;
        while i < ms.len()
            invariant
                i <= ms.len(),
                s0.wf(),
                s0.next_var() + tool_members_fresh(ms@) <= u32::MAX,
                self.advanced_within(&s0, tool_members_fresh(ms@.take(i as int))),
                tool_members_checked(s0, *self, ms@.take(i as int)),
                found == exists|k: int| 0 <= k < i && is_execute(#[trigger] ms@[k]),
            decreases ms.len() - i,
        {
            proof {
                assert(ms@.take(i + 1).drop_last() =~= ms@.take(i as int));
                assert(ms@.take(i + 1).last() == ms@[i as int]);
                lemma_tool_members_fresh_prefix(ms@, i + 1);
                assert(tool_members_fresh(ms@.take(i + 1)) == tool_members_fresh(ms@.take(i as int))
                    + tool_member_fresh(ms@[i as int]));
            }
            let ghost mid = *self;
            let m = match &ms[i] {
                ToolMember::RateLimit(e) => {
                    let t = self.check_expr(e);
                    assert(via1(t.view_ty()));
                    false
                },
                ToolMember::Schema(te) => {
                    let _ = self.resolve_type_expr(te);
                    false
                },
                ToolMember::Method(f) => {
                    let named = same_text(f.name.as_str(), "execute");
                    self.check_function_body(&f.params, &f.return_type, f.is_async, &f.body);
                    named
                },
                _ => false,
            };
            assert(tool_member_checked(mid, *self, ms@[i as int]));
            assert(via1(mid));
            found = found || m;
            i += 1;
        }
        assert(ms@.take(ms.len() as int) =~= ms@);
        found
    }

    /// Check a tool, as `tool_checked` says.
    fn check_tool(&mut self, t: &ToolDef)
        requires
            old(self).wf(),
            old(self).next_var() + tool_members_fresh(t.members@) <= u32::MAX,
        ensures
            final(self).advanced_within(old(self), tool_members_fresh(t.members@)),
            tool_checked(*old(self), *final(self), *t),
    {
        self.enter_scope();
        let ghost s1 = *self;
        let with_execute = self.check_tool_members(&t.members);
        let ghost s2 = *self;
        if !with_execute {
            self.error(TypeError::ToolNoExecute { name: t.name.clone(), span: to_source_span(t.span) });
            assert(self.error_list().drop_last() =~= s2.error_list());
        }
        let ghost s3 = *self;
        self.exit_scope();
        assert(via3(s1, s2, s3));
    }

    /// Check a memory, as `memory_checked` says.
    fn check_memory(&mut self, m: &MemoryDef)
        requires
            old(self).wf(),
            old(self).next_var() + memory_members_fresh(m.members@) <= u32::MAX,
        ensures
            final(self).advanced_within(old(self), memory_members_fresh(m.members@)),
            memory_checked(*old(self), *final(self), *m),
    {
        self.enter_scope();
        let ghost s1 = *self;
        let ms = &m.members;
        let ghost s0 = *self;
        assert(ms@.take(0) =~= Seq::<MemoryMember>::empty());
        let mut i: usize = 0;
        while i < ms.len()
            invariant
                i <= ms.len(),
                ms == &m.members,
                s0.wf(),
                s0.next_var() + memory_members_fresh(ms@) <= u32::MAX,
                self.advanced_within(&s0, memory_members_fresh(ms@.take(i as int))),
                memory_members_checked(s0, *self, ms@.take(i as int)),
            decreases ms.len() - i,
        {
            proof {
                assert(ms@.take(i + 1).drop_last() =~= ms@.take(i as int));
                assert(ms@.take(i + 1).last() == ms@[i as int]);
                lemma_memory_members_fresh_prefix(ms@, i + 1);
                assert(memory_members_fresh(ms@.take(i + 1)) == memory_members_fresh(ms@.take(i as int))
                    + memory_member_fresh(ms@[i as int]));
            }
            let ghost mid = *self;
            match &ms[i] {
                MemoryMember::Capacity(e) => {
                    let t = self.check_expr(e);
                    assert(via1(t.view_ty()));
                },
                MemoryMember::Retention(e) => {
                    let t = self.check_expr(e);
                    assert(via1(t.view_ty()));
                },
                MemoryMember::Method(f) => {
                    self.check_function_body(&f.params, &f.return_type, f.is_async, &f.body);
                },
                _ => {},
            }
            assert(memory_member_checked(mid, *self, ms@[i as int]));
            assert(via1(mid));
            i += 1;
        }
        assert(ms@.take(ms.len() as int) =~= ms@);
        let ghost s2 = *self;
        self.exit_scope();
        assert(via2(s1, s2));
    }

    /// The types of a prompt's parameters: their annotations', or `Any`.
    fn prompt_params(&mut self, ps: &Vec<Param>) -> (r: Vec<Type>)
        ensures
            *final(self) == *old(self),
            views_of(r@) == prompt_param_types(ps@, old(self).type_names()),
            r.len() == ps.len(),
    {
        let ghost names = self.type_names();
        let ghost c0 = *self;
        let mut out: Vec<Type> = Vec::new();
        let mut i: usize = 0;
        while i < ps.len()
            invariant
                i <= ps.len(),
                *self == c0,
                names == c0.type_names(),
                out.len() == i,
                views_of(out@) == ps@.take(i as int).map_values(|p: Param| any_slot(p.ty, names)),
            decreases ps.len() - i,
        {
            let t = match &ps[i].ty {
                Some(te) => self.resolve_type_expr(te),
                None => Type::Any,
            };
            proof {
                lemma_views_of_push(out@, t);
                assert(ps@.take(i + 1).map_values(|p: Param| any_slot(p.ty, names)) =~= ps@.take(
                    i as int,
                ).map_values(|p: Param| any_slot(p.ty, names)).push(t.view_ty()));
            }
            out.push(t);
            i += 1;
        }
        assert(ps@.take(ps.len() as int) =~= ps@);
        out
    }

    /// Check a prompt, as `prompt_checked` says.
    fn check_prompt(&mut self, p: &PromptDef)
        requires
            old(self).wf(),
            old(self).next_var() + sections_fresh(p.sections@) <= u32::MAX,
        ensures
            final(self).advanced_within(old(self), sections_fresh(p.sections@)),
            prompt_checked(*old(self), *final(self), *p),
    {
        self.enter_scope();
        let ghost s1 = *self;
        let tys = self.prompt_params(&p.params);
        self.define_params(&p.params, tys);
        let ghost s2 = *self;
        let ss = &p.sections;
        assert(ss@.take(0) =~= Seq::<PromptSection>::empty());
        let mut i: usize = 0;
        while i < ss.len()
            invariant
                i <= ss.len(),
                ss == &p.sections,
                s2.wf(),
                s2.next_var() + sections_fresh(ss@) <= u32::MAX,
                self.advanced_within(&s2, sections_fresh(ss@.take(i as int))),
                sections_checked(s2, *self, ss@.take(i as int)),
            decreases ss.len() - i,
        {
            proof {
                assert(ss@.take(i + 1).drop_last() =~= ss@.take(i as int));
                assert(ss@.take(i + 1).last() == ss@[i as int]);
                lemma_sections_fresh_prefix(ss@, i + 1);
            }
            let ghost mid = *self;
            match &ss[i] {
                PromptSection::Text(_) => {},
                PromptSection::Block(b) => self.check_block(b),
            }
            assert(via1(mid));
            i += 1;
        }
        assert(ss@.take(ss.len() as int) =~= ss@);
        let ghost s3 = *self;
        self.exit_scope();
        assert(via3(s1, s2, s3));
    }

    /// Check a struct: its fields in order, as `struct_fields_checked` says.
    fn check_struct(&mut self, d: &StructDef)
        requires
            old(self).wf(),
            old(self).next_var() + fields_fresh(d.fields@) <= u32::MAX,
        ensures
            final(self).advanced_within(old(self), fields_fresh(d.fields@)),
            struct_fields_checked(*old(self), *final(self), d.fields@),
    {
        let fs = &d.fields;
        let ghost s0 = *self;
        assert(fs@.take(0) =~= Seq::<FieldDef>::empty());
        let mut i: usize = 0;
        while i < fs.len()
            invariant
                i <= fs.len(),
                fs == &d.fields,
                s0.wf(),
                s0.next_var() + fields_fresh(fs@) <= u32::MAX,
                self.advanced_within(&s0, fields_fresh(fs@.take(i as int))),
                struct_fields_checked(s0, *self, fs@.take(i as int)),
            decreases fs.len() - i,
        {
            proof {
                assert(fs@.take(i + 1).drop_last() =~= fs@.take(i as int));
                assert(fs@.take(i + 1).last() == fs@[i as int]);
                lemma_fields_fresh_prefix(fs@, i + 1);
            }
            let ghost mid = *self;
            self.check_field(&fs[i], true);
            assert(via1(mid));
            i += 1;
        }
        assert(fs@.take(fs.len() as int) =~= fs@);
    }

    /// Check a constant, as `const_checked` says.
    fn check_const(&mut self, c: &ConstDef)
        requires
            old(self).wf(),
            old(self).next_var() + expr_fresh(c.value) <= u32::MAX,
        ensures
            final(self).advanced_within(old(self), expr_fresh(c.value)),
            const_checked(*old(self), *final(self), *c),
    {
        let t = self.check_expr(&c.value);
        let ghost s1 = *self;
        let ann = match &c.ty {
            Some(te) => Some(te),
            None => None,
        };
        self.check_const_types(c.name.as_str(), c.span, ann, &t, c.value.span);
        proof {
            let (mid, ct) = choose|mid: TypeContext, ct: Ty|
                {
                    &&& mid.wf()
                    &&& #[trigger] let_typed(
                        s1,
                        mid,
                        t.view_ty(),
                        true,
                        crate::typeck::statements::annotation_of(ann),
                        source_of(c.value.span),
                        ct,
                    )
                    &&& self.wf()
                    &&& self.scope_stack() == define_in(
                        mid.scope_stack(),
                        c.name@,
                        SymbolModel { name: c.name@, ty: ct, mutable: false, span: c.span },
                    )
                    &&& self.same_but_scopes(&mid)
                };
            assert(via4(s1, t.view_ty(), mid, ct));
        }
    }

    /// Check an item, as `item_checked` says. (Each fresh type variable it takes
    /// must fit in the `u32` counter; a module import without an alias needs a
    /// path.)
    pub fn check_item(&mut self, item: &Item)
        requires
            old(self).wf(),
            old(self).next_var() + item_check_fresh(*item) <= u32::MAX,
            item_ok(*item),
        ensures
            final(self).advanced_within(old(self), item_check_fresh(*item)),
            item_checked(*old(self), *final(self), *item),
    {
        match item {
            Item::Function(f) => self.check_function_body(&f.params, &f.return_type, f.is_async, &f.body),
            Item::Class(c) => self.check_class(c),
            Item::Agent(a) => self.check_agent(a),
            Item::Tool(t) => self.check_tool(t),
            Item::Memory(m) => self.check_memory(m),
            Item::Prompt(p) => self.check_prompt(p),
            Item::Struct(d) => self.check_struct(d),
            Item::Enum(_) => {},
            Item::Import(i) => self.check_import(i),
            Item::Const(c) => self.check_const(c),
            Item::Stmt(s) => self.check_stmt(s),
        }
    }
}

/// Registering `items` in order (the first pass over a module).
pub open spec fn registered_all(old: TypeContext, new: TypeContext, items: Seq<Item>) -> bool
    decreases items.len(),
{
    if items.len() == 0 {
        new == old
    } else {
        exists|mid: TypeContext|
            #![trigger via1(mid)]
            via1(mid) && registered_all(old, mid, items.drop_last()) && item_registered(mid, new, items.last())
    }
}

/// Checking `items` in order (the second pass over a module).
pub open spec fn checked_all(old: TypeContext, new: TypeContext, items: Seq<Item>) -> bool
    decreases items.len(),
{
    if items.len() == 0 {
        new == old
    } else {
        exists|mid: TypeContext|
            #![trigger via1(mid)]
            via1(mid) && checked_all(old, mid, items.drop_last()) && item_checked(mid, new, items.last())
    }
}

/// How many fresh type variables registering `items` takes.
pub open spec fn registered_fresh(items: Seq<Item>) -> nat
    decreases items.len(),
{
    if items.len() == 0 {
        0
    } else {
        registered_fresh(items.drop_last()) + item_fresh(items.last())
    }
}

/// The most fresh type variables checking `items` can take.
pub open spec fn checked_fresh(items: Seq<Item>) -> nat
    decreases items.len(),
{
    if items.len() == 0 {
        0
    } else {
        checked_fresh(items.drop_last()) + item_check_fresh(items.last())
    }
}

/// The most fresh type variables checking a module can take.
pub open spec fn module_fresh(items: Seq<Item>) -> nat {
    registered_fresh(items) + checked_fresh(items)
}

/// Every item can be checked (see `item_ok`).
pub open spec fn items_ok(items: Seq<Item>) -> bool {
    forall|k: int| 0 <= k < items.len() ==> item_ok(#[trigger] items[k])
}

/// Checking a module from `old` leaves `new`: all its items are registered in
/// order, and then all are checked in order.
pub open spec fn module_checked(old: TypeContext, new: TypeContext, items: Seq<Item>) -> bool {
    exists|mid: TypeContext| #![trigger via1(mid)] via1(mid) && registered_all(old, mid, items) && checked_all(mid, new, items)
}

/// An item that the first pass defines by name: a function, or a class, struct,
/// agent, tool, memory, prompt or enum (not a constant, an import or a statement).
pub open spec fn item_defines(item: Item) -> bool {
    !(item is Import || item is Const || item is Stmt)
}

/// Registering items keeps the number of scopes.
proof fn lemma_registered_depth(old: TypeContext, new: TypeContext, items: Seq<Item>)
    requires
        old.scope_stack().len() >= 1,
        registered_all(old, new, items),
    ensures
        new.scope_stack().len() == old.scope_stack().len(),
    decreases items.len(),
{
    if items.len() > 0 {
        let mid = choose|mid: TypeContext|
            #![trigger via1(mid)]
            via1(mid) && registered_all(old, mid, items.drop_last()) && item_registered(mid, new, items.last());
        lemma_registered_depth(old, mid, items.drop_last());
        let sym = item_symbol(items.last(), mid.next_var() as int, mid.type_names());
        if let Some(x) = sym {
            assert(define_in(mid.scope_stack(), x.name, x).len() == mid.scope_stack().len());
        }
    }
}

/// Forward references: after the first pass over a module's items (from a context
/// with only the global scope), every item that defines a name is visible in the
/// global scope, wherever it stands among the items; so the second pass, which
/// checks the items in order, can refer to items defined after the referring one.
pub proof fn lemma_forward_references(old: TypeContext, new: TypeContext, items: Seq<Item>, k: int)
    requires
        old.scope_stack().len() == 1,
        registered_all(old, new, items),
        0 <= k < items.len(),
        item_defines(items[k]),
    ensures
        new.scope_stack().len() == 1,
        new.scope_stack()[0].symbols.contains_key(item_name(items[k])),
    decreases items.len(),
{
    let mid = choose|mid: TypeContext|
        #![trigger via1(mid)]
        via1(mid) && registered_all(old, mid, items.drop_last()) && item_registered(mid, new, items.last());
    lemma_registered_depth(old, mid, items.drop_last());
    if k < items.len() - 1 {
        lemma_forward_references(old, mid, items.drop_last(), k);
        assert(items.drop_last()[k] == items[k]);
    }
}

/// A prefix of items never takes more fresh variables to register than the whole.
proof fn lemma_registered_fresh_prefix(items: Seq<Item>, i: int)
    requires
        0 <= i <= items.len(),
    ensures
        registered_fresh(items.take(i)) <= registered_fresh(items),
    decreases items.len(),
{
    if i < items.len() {
        lemma_registered_fresh_prefix(items.drop_last(), i);
        assert(items.drop_last().take(i) =~= items.take(i));
    } else {
        assert(items.take(i) =~= items);
    }
}

/// A prefix of items never takes more fresh variables to check than the whole.
proof fn lemma_checked_fresh_prefix(items: Seq<Item>, i: int)
    requires
        0 <= i <= items.len(),
    ensures
        checked_fresh(items.take(i)) <= checked_fresh(items),
    decreases items.len(),
{
    if i < items.len() {
        lemma_checked_fresh_prefix(items.drop_last(), i);
        assert(items.drop_last().take(i) =~= items.take(i));
    } else {
        assert(items.take(i) =~= items);
    }
}

impl TypeContext {
    /// Type check a module: register every item (so that items can refer to one
    /// another in any order), then check every item. (Each fresh type variable
    /// must fit in the `u32` counter; a module import without an alias needs a
    /// path.)
    pub fn check_module(&mut self, module: &Module)
        requires
            old(self).wf(),
            old(self).next_var() + module_fresh(module.items@) <= u32::MAX,
            items_ok(module.items@),
        ensures
            final(self).advanced_within(old(self), module_fresh(module.items@)),
            module_checked(*old(self), *final(self), module.items@),
    {
        let items = &module.items;
        let ghost s0 = *self;
        assert(items@.take(0) =~= Seq::<Item>::empty());
        let mut i: usize = 0;
        while i < items.len()
            invariant
                i <= items.len(),
                items == &module.items,
                s0.wf(),
                s0.next_var() + module_fresh(items@) <= u32::MAX,
                self.wf(),
                self.next_var() == s0.next_var() + registered_fresh(items@.take(i as int)),
                registered_all(s0, *self, items@.take(i as int)),
            decreases items.len() - i,
        {
            proof {
                assert(items@.take(i + 1).drop_last() =~= items@.take(i as int));
                assert(items@.take(i + 1).last() == items@[i as int]);
                lemma_registered_fresh_prefix(items@, i + 1);
            }
            let ghost mid = *self;
            register_item_type(self, &items[i]);
            assert(via1(mid));
            i += 1;
        }
        assert(items@.take(items.len() as int) =~= items@);
        let ghost s1 = *self;
        assert(items@.take(0) =~= Seq::<Item>::empty());
        let mut j: usize = 0;
        while j < items.len()
            invariant
                j <= items.len(),
                items == &module.items,
                s0.wf(),
                s1.next_var() == s0.next_var() + registered_fresh(items@),
                s0.next_var() + module_fresh(items@) <= u32::MAX,
                items_ok(items@),
                s1.wf(),
                self.advanced_within(&s1, checked_fresh(items@.take(j as int))),
                checked_all(s1, *self, items@.take(j as int)),
            decreases items.len() - j,
        {
            proof {
                assert(items@.take(j + 1).drop_last() =~= items@.take(j as int));
                assert(items@.take(j + 1).last() == items@[j as int]);
                lemma_checked_fresh_prefix(items@, j + 1);
                assert(item_ok(items@[j as int]));
            }
            let ghost mid = *self;
            self.check_item(&items[j]);
            assert(via1(mid));
            j += 1;
        }
        assert(items@.take(items.len() as int) =~= items@);
        assert(via1(s1));
    }
}

} // verus!
