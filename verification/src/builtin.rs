//! The registry of the builtin callables.

use crate::builtins::add_two::AddTwo;
use crate::builtins::builtin::BuiltinFunction;
use crate::builtins::datetime::{DateTimeFormat, DateTimeOffset};
use crate::builtins::lua_utils::{JsonToTable, TableToJson};
use crate::builtins::random::{RandomInt, RandomString};
use crate::builtins::render::Render;
use crate::builtins::s::ShiftJis;
use vstd::prelude::*;

verus! {

/// The builtin callables of a sandbox.
pub struct Builtins;

/// One entry of the registry: a builtin callable that works on values
/// alone.
#[derive(Debug, PartialEq, Eq, Structural, Clone, Copy)]
pub enum Builtin {
    AddTwo,
    ShiftJis,
    RandomInt,
    RandomString,
    DateTimeFormat,
    DateTimeOffset,
    TableToJson,
    JsonToTable,
    Render,
}

/// The registry: every entry once, in the order of installation.
pub open spec fn registered() -> Seq<Builtin> {
    seq![
        Builtin::AddTwo,
        Builtin::ShiftJis,
        Builtin::RandomInt,
        Builtin::RandomString,
        Builtin::DateTimeFormat,
        Builtin::DateTimeOffset,
        Builtin::TableToJson,
        Builtin::JsonToTable,
        Builtin::Render,
    ]
}

/// The name under which an entry is installed.
pub open spec fn name_of(entry: Builtin) -> Seq<char> {
    match entry {
        Builtin::AddTwo => "add_two"@,
        Builtin::ShiftJis => "s"@,
        Builtin::RandomInt => "random_int"@,
        Builtin::RandomString => "random_string"@,
        Builtin::DateTimeFormat => "datetime_format"@,
        Builtin::DateTimeOffset => "datetime_offset"@,
        Builtin::TableToJson => "table_to_json"@,
        Builtin::JsonToTable => "json_to_table"@,
        Builtin::Render => "render"@,
    }
}

impl Builtin {
    /// The name under which the entry is installed.
    pub fn name(&self) -> (name: &'static str)
        ensures
            name@ == name_of(*self),
    {
        match self {
            Builtin::AddTwo => "add_two",
            Builtin::ShiftJis => "s",
            Builtin::RandomInt => "random_int",
            Builtin::RandomString => "random_string",
            Builtin::DateTimeFormat => "datetime_format",
            Builtin::DateTimeOffset => "datetime_offset",
            Builtin::TableToJson => "table_to_json",
            Builtin::JsonToTable => "json_to_table",
            Builtin::Render => "render",
        }
    }

    /// Installs the callable of the entry into the global namespace of
    /// `lua`.
    pub fn install(&self, lua: &mlua::Lua) -> Result<(), String> {
        match self {
            Builtin::AddTwo => AddTwo {  }.set_function(lua),
            Builtin::ShiftJis => ShiftJis {  }.set_function(lua),
            Builtin::RandomInt => RandomInt {  }.set_function(lua),
            Builtin::RandomString => RandomString {  }.set_function(lua),
            Builtin::DateTimeFormat => DateTimeFormat {  }.set_function(lua),
            Builtin::DateTimeOffset => DateTimeOffset {  }.set_function(lua),
            Builtin::TableToJson => TableToJson {  }.set_function(lua),
            Builtin::JsonToTable => JsonToTable {  }.set_function(lua),
            Builtin::Render => Render {  }.set_function(lua),
        }
    }
}

impl Builtins {
    /// The registry: every entry once, in the order of installation.
    pub fn registry() -> (entries: Vec<Builtin>)
        ensures
            entries@ == registered(),
    {
        let mut entries: Vec<Builtin> = Vec::new();
        entries.push(Builtin::AddTwo);
        entries.push(Builtin::ShiftJis);
        entries.push(Builtin::RandomInt);
        entries.push(Builtin::RandomString);
        entries.push(Builtin::DateTimeFormat);
        entries.push(Builtin::DateTimeOffset);
        entries.push(Builtin::TableToJson);
        entries.push(Builtin::JsonToTable);
        entries.push(Builtin::Render);
        assert(entries@ =~= registered());
        entries
    }

    /// The names of the registry, in the order of installation.
    pub fn names() -> (names: Vec<&'static str>)
        ensures
            names@.len() == registered().len(),
            forall|i: int|
                0 <= i < names@.len() ==> (#[trigger] names@[i])@ == name_of(registered()[i]),
    {
        let entries = Builtins::registry();
        let mut names: Vec<&'static str> = Vec::new();
        let mut i: usize = 0;
        while i < entries.len()
            invariant
                i <= entries@.len(),
                entries@ == registered(),
                names@.len() == i,
                forall|j: int| 0 <= j < i ==> (#[trigger] names@[j])@ == name_of(registered()[j]),
            decreases entries@.len() - i,
        {
            names.push(entries[i].name());
            i = i + 1;
        }
        names
    }

    /// Installs every entry of the registry, in order, into the global
    /// namespace of `lua`. An entry that could not be installed is left
    /// out.
    pub fn init(lua: &mlua::Lua) -> (done: Result<(), String>)
        ensures
            done is Ok,
    {
        let entries = Builtins::registry();
        let mut i: usize = 0;
        while i < entries.len()
            invariant
                i <= entries@.len(),
            decreases entries@.len() - i,
        {
            let _ = entries[i].install(lua);
            i = i + 1;
        }
        Ok(())
    }
}

} // verus!
