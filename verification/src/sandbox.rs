//! The scripting sandbox: an interpreter of its own for one run of script
//! text, discarded after use.

use crate::builtin::Builtins;
use crate::value_source::GetValueByName;
use vstd::prelude::*;

verus! {

/// `mlua::Lua`, an interpreter state; nothing inside it is modelled.
#[verifier::external_type_specification]
#[verifier::external_body]
pub struct ExLua(mlua::Lua);

/// `mlua::Table`, a handle to a table of an interpreter.
#[verifier::external_type_specification]
#[verifier::external_body]
pub struct ExTable(mlua::Table);

/// `mlua::Function`, a handle to a function of an interpreter.
#[verifier::external_type_specification]
#[verifier::external_body]
pub struct ExFunction(mlua::Function);

/// Calls `mlua::Lua::new`: a new interpreter state with the safe subset of
/// the standard libraries. Nothing is claimed of it.
#[verifier::external_body]
fn new_state() -> mlua::Lua {
    mlua::Lua::new()
}

/// Calls `mlua::Lua::load` on `script` and `mlua::Chunk::exec` on the chunk:
/// runs the script in the global scope of `lua`. An error of the interpreter
/// is handed out as its message. Whether the script succeeds depends on the
/// state of the interpreter and on what the script reaches, so nothing is
/// claimed of the result.
#[verifier::external_body]
fn run_chunk(lua: &mlua::Lua, script: &str) -> Result<(), String> {
    match lua.load(script).exec() {
        Ok(()) => Ok(()),
        Err(e) => Err(e.to_string()),
    }
}

/// A value of an interpreter, held together with the interpreter. A handle
/// to a table or a string can only be used while its interpreter lives; the
/// interpreter held here lives as long as the value does.
pub struct LuaValue {
    pub(crate) lua: mlua::Lua,
    pub(crate) value: mlua::Value,
}

/// Calls `mlua::Lua::globals` and holds the table of the global variables
/// of `lua` together with a clone of `lua`.
#[verifier::external_body]
fn global_table(lua: &mlua::Lua) -> LuaValue {
    LuaValue { lua: lua.clone(), value: mlua::Value::Table(lua.globals()) }
}

/// Calls `mlua::Table::get` on the table of globals of `lua` and holds the
/// value of the global `name`, nil where there is none, together with a
/// clone of `lua`.
#[verifier::external_body]
fn global_value(lua: &mlua::Lua, name: &str) -> LuaValue {
    LuaValue { lua: lua.clone(), value: lua.globals().get(name).unwrap_or(mlua::Value::Nil) }
}

/// Calls `mlua::Table::get` for a `String` under the key `name`, where the
/// value held is a table. The state of the interpreter may change, and the
/// lookup may run a metamethod, so nothing is claimed of the result.
#[verifier::external_body]
fn table_text(source: &LuaValue, name: &str) -> Option<String> {
    source.value.as_table()?.get::<String>(name).ok()
}

/// Calls `mlua::Table::get` for a 64-bit integer under the key `name`,
/// where the value held is a table; nothing where the table holds no
/// integer there. Nothing is claimed of the result.
#[verifier::external_body]
pub(crate) fn table_integer(source: &LuaValue, name: &str) -> Option<i64> {
    source.value.as_table()?.get::<i64>(name).ok()
}

/// Calls `mlua::Table::set` on the table of globals of `lua`: binds
/// `function` to the global `name`. An error of the interpreter is handed
/// out as its message.
#[verifier::external_body]
pub(crate) fn install(lua: &mlua::Lua, name: &str, function: mlua::Function) -> Result<(), String> {
    match lua.globals().set(name, function) {
        Ok(()) => Ok(()),
        Err(e) => Err(e.to_string()),
    }
}

/// An isolated interpreter instance with its own global namespace.
pub struct Internal {
    lua: mlua::Lua,
}

impl Internal {
    /// A fresh sandbox, with the builtin callables installed.
    pub fn new() -> Internal {
        let lua = new_state();
        let _ = Builtins::init(&lua);
        Internal { lua }
    }

    /// Runs `script` to completion in the sandbox's global scope. What the
    /// script assigned to globals stays for the sandbox's lifetime. A syntax
    /// or runtime error of the script is reported by its message.
    pub fn load_script(&self, script: &str) -> Result<(), String> {
        run_chunk(&self.lua, script)
    }

    /// The interpreter of this sandbox, for installing further callables.
    pub fn lua(&self) -> (lua: &mlua::Lua)
        ensures
            *lua == self.interpreter(),
    {
        &self.lua
    }

    /// The global namespace of the sandbox, as a value source.
    pub fn globals(&self) -> LuaValue {
        global_table(&self.lua)
    }

    /// The value of the global `name` of the sandbox, nil where there is
    /// none.
    pub fn global(&self, name: &str) -> LuaValue {
        global_value(&self.lua, name)
    }

    /// The interpreter that this sandbox owns.
    pub closed spec fn interpreter(&self) -> mlua::Lua {
        self.lua
    }
}

impl GetValueByName<String> for LuaValue {
    open spec fn is_fixed(&self) -> bool {
        false
    }

    open spec fn value_of(&self, name: Seq<char>) -> Option<String> {
        None
    }

    fn get_by_name(&self, name: &str) -> (value: Option<String>) {
        table_text(self, name)
    }
}

} // verus!
