//! The insertion-ordered maps the type checker keeps its tables in, and what
//! each kind of table holds.

use vstd::prelude::*;
use indexmap::IndexMap;
use crate::typeck::context::{Symbol, SymbolModel};
use crate::typeck::types::{
    AgentInfo, AgentModel, ClassInfo, ClassModel, StructInfo, StructModel, ToolInfo, ToolModel,
    Ty, Type,
};

verus! {

#[verifier::external_type_specification]
#[verifier::external_body]
#[verifier::reject_recursive_types(K)]
#[verifier::reject_recursive_types(V)]
#[verifier::reject_recursive_types(S)]
pub struct ExIndexMap<K, V, S>(IndexMap<K, V, S>);

/// Symbols by name, in the order they were defined.
pub type SymbolTable = IndexMap<String, Symbol>;

/// Type-variable bindings, in the order they were made.
pub type SubstitutionTable = IndexMap<u32, Type>;

/// Registered structs by name.
pub type StructTable = IndexMap<String, StructInfo>;

/// Registered classes by name.
pub type ClassTable = IndexMap<String, ClassInfo>;

/// Registered agents by name.
pub type AgentTable = IndexMap<String, AgentInfo>;

/// Registered tools by name.
pub type ToolTable = IndexMap<String, ToolInfo>;

/// What a symbol table holds: each name with the model of its symbol.
pub uninterp spec fn symbol_entries(m: SymbolTable) -> Map<Seq<char>, SymbolModel>;

/// What a substitution table holds: each bound type variable with the model of its type.
pub uninterp spec fn substitution_entries(m: SubstitutionTable) -> Map<u32, Ty>;

/// What a struct registry holds.
pub uninterp spec fn struct_entries(m: StructTable) -> Map<Seq<char>, StructModel>;

/// What a class registry holds.
pub uninterp spec fn class_entries(m: ClassTable) -> Map<Seq<char>, ClassModel>;

/// What an agent registry holds.
pub uninterp spec fn agent_entries(m: AgentTable) -> Map<Seq<char>, AgentModel>;

/// What a tool registry holds.
pub uninterp spec fn tool_entries(m: ToolTable) -> Map<Seq<char>, ToolModel>;

/// `IndexMap::new`: a map with no entries.
#[verifier::external_body]
pub(crate) fn symbols_new() -> (r: SymbolTable)
    ensures
        (symbol_entries(r) == Map::<Seq<char>, SymbolModel>::empty()),
{
    IndexMap::new()
}

/// `IndexMap::insert`: the key is bound to the new value, replacing any earlier one;
/// every other entry stays.
#[verifier::external_body]
pub(crate) fn symbols_insert(m: &mut SymbolTable, key: String, value: Symbol)
    ensures
        symbol_entries(*final(m)) == symbol_entries(*old(m)).insert(key@, value@),
{
    m.insert(key, value);
}

/// `IndexMap::get`: the value stored under the key, if there is one.
#[verifier::external_body]
pub(crate) fn symbols_get<'a>(m: &'a SymbolTable, key: &str) -> (r: Option<&'a Symbol>)
    ensures
        match r {
            Some(s) => symbol_entries(*m).contains_key(key@) && s@ == symbol_entries(*m)[key@],
            None => !symbol_entries(*m).contains_key(key@),
        },
{
    m.get(key)
}

/// `IndexMap::contains_key`: whether the key has an entry.
#[verifier::external_body]
pub(crate) fn symbols_contains(m: &SymbolTable, key: &str) -> (r: bool)
    ensures
        r == symbol_entries(*m).contains_key(key@),
{
    m.contains_key(key)
}

/// `IndexMap::new` for substitutions.
#[verifier::external_body]
pub(crate) fn substitutions_new() -> (r: SubstitutionTable)
    ensures
        (substitution_entries(r) == Map::<u32, Ty>::empty()),
{
    IndexMap::new()
}

/// `IndexMap::insert` for substitutions.
#[verifier::external_body]
pub(crate) fn substitutions_insert(m: &mut SubstitutionTable, key: u32, value: Type)
    ensures
        substitution_entries(*final(m)) == substitution_entries(*old(m)).insert(key, value.view_ty()),
{
    m.insert(key, value);
}

/// `IndexMap::get` for substitutions.
#[verifier::external_body]
pub(crate) fn substitutions_get<'a>(m: &'a SubstitutionTable, key: u32) -> (r: Option<&'a Type>)
    ensures
        match r {
            Some(t) => substitution_entries(*m).contains_key(key) && t.view_ty()
                == substitution_entries(*m)[key],
            None => !substitution_entries(*m).contains_key(key),
        },
{
    m.get(&key)
}

/// `IndexMap::new` for the struct registry.
#[verifier::external_body]
pub(crate) fn structs_new() -> (r: StructTable)
    ensures
        (struct_entries(r) == Map::<Seq<char>, StructModel>::empty()),
{
    IndexMap::new()
}

/// `IndexMap::insert` for the struct registry.
#[verifier::external_body]
pub(crate) fn structs_insert(m: &mut StructTable, key: String, value: StructInfo)
    ensures
        struct_entries(*final(m)) == struct_entries(*old(m)).insert(key@, value@),
{
    m.insert(key, value);
}

/// `IndexMap::get` for the struct registry.
#[verifier::external_body]
pub(crate) fn structs_get<'a>(m: &'a StructTable, key: &str) -> (r: Option<
    &'a StructInfo,
>)
    ensures
        match r {
            Some(s) => struct_entries(*m).contains_key(key@) && s@ == struct_entries(*m)[key@],
            None => !struct_entries(*m).contains_key(key@),
        },
{
    m.get(key)
}

/// `IndexMap::new` for the class registry.
#[verifier::external_body]
pub(crate) fn classes_new() -> (r: ClassTable)
    ensures
        (class_entries(r) == Map::<Seq<char>, ClassModel>::empty()),
{
    IndexMap::new()
}

/// `IndexMap::insert` for the class registry.
#[verifier::external_body]
pub(crate) fn classes_insert(m: &mut ClassTable, key: String, value: ClassInfo)
    ensures
        class_entries(*final(m)) == class_entries(*old(m)).insert(key@, value@),
{
    m.insert(key, value);
}

/// `IndexMap::get` for the class registry.
#[verifier::external_body]
pub(crate) fn classes_get<'a>(m: &'a ClassTable, key: &str) -> (r: Option<
    &'a ClassInfo,
>)
    ensures
        match r {
            Some(s) => class_entries(*m).contains_key(key@) && s@ == class_entries(*m)[key@],
            None => !class_entries(*m).contains_key(key@),
        },
{
    m.get(key)
}

/// `IndexMap::new` for the agent registry.
#[verifier::external_body]
pub(crate) fn agents_new() -> (r: AgentTable)
    ensures
        (agent_entries(r) == Map::<Seq<char>, AgentModel>::empty()),
{
    IndexMap::new()
}

/// `IndexMap::insert` for the agent registry.
#[verifier::external_body]
pub(crate) fn agents_insert(m: &mut AgentTable, key: String, value: AgentInfo)
    ensures
        agent_entries(*final(m)) == agent_entries(*old(m)).insert(key@, value@),
{
    m.insert(key, value);
}

/// `IndexMap::get` for the agent registry.
#[verifier::external_body]
pub(crate) fn agents_get<'a>(m: &'a AgentTable, key: &str) -> (r: Option<
    &'a AgentInfo,
>)
    ensures
        match r {
            Some(s) => agent_entries(*m).contains_key(key@) && s@ == agent_entries(*m)[key@],
            None => !agent_entries(*m).contains_key(key@),
        },
{
    m.get(key)
}

/// `IndexMap::new` for the tool registry.
#[verifier::external_body]
pub(crate) fn tools_new() -> (r: ToolTable)
    ensures
        (tool_entries(r) == Map::<Seq<char>, ToolModel>::empty()),
{
    IndexMap::new()
}

/// `IndexMap::insert` for the tool registry.
#[verifier::external_body]
pub(crate) fn tools_insert(m: &mut ToolTable, key: String, value: ToolInfo)
    ensures
        tool_entries(*final(m)) == tool_entries(*old(m)).insert(key@, value@),
{
    m.insert(key, value);
}

/// `IndexMap::get` for the tool registry.
#[verifier::external_body]
pub(crate) fn tools_get<'a>(m: &'a ToolTable, key: &str) -> (r: Option<
    &'a ToolInfo,
>)
    ensures
        match r {
            Some(s) => tool_entries(*m).contains_key(key@) && s@ == tool_entries(*m)[key@],
            None => !tool_entries(*m).contains_key(key@),
        },
{
    m.get(key)
}

} // verus!
