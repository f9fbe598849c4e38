//! The value marshaller as callables: `json_to_table` and `table_to_json`.

use crate::builtins::builtin::BuiltinFunction;
use crate::errors::BuiltinExecutionError;
use crate::sandbox::LuaValue;
use crate::utils::{json_str_to_lua_table, lua_table_to_json_str};
use vstd::prelude::*;

verus! {

/// The callable `table_to_json`: the JSON text of a table.
pub struct TableToJson;

/// The callable `json_to_table`: the table of a JSON text.
pub struct JsonToTable;

/// Calls `mlua::Lua::create_function` on a closure that holds the table it
/// is handed together with its interpreter, hands it to
/// [`lua_table_to_json_str`] and gives back the text, or the error by its
/// message.
#[verifier::external_body]
fn table_to_json_function(lua: &mlua::Lua) -> mlua::Function {
    lua.create_function(|lua, table: mlua::Table| {
        let held = LuaValue { lua: lua.clone(), value: mlua::Value::Table(table) };
        lua_table_to_json_str(&held)
            .map_err(|e| mlua::Error::RuntimeError(BuiltinExecutionError::Marshal(e).message()))
    }).unwrap()
}

/// Calls `mlua::Lua::create_function` on a closure that hands a text to
/// [`json_str_to_lua_table`] and gives back the table, or the error by its
/// message.
#[verifier::external_body]
fn json_to_table_function(lua: &mlua::Lua) -> mlua::Function {
    lua.create_function(|lua, text: String| {
        json_str_to_lua_table(lua, &text)
            .map_err(|e| mlua::Error::RuntimeError(BuiltinExecutionError::Marshal(e).message()))
    }).unwrap()
}

impl BuiltinFunction for TableToJson {
    fn get_name(&self) -> (name: &str)
        ensures
            name@ == "table_to_json"@,
    {
        "table_to_json"
    }

    fn get_function(&self, lua: &mlua::Lua) -> mlua::Function {
        table_to_json_function(lua)
    }
}

impl BuiltinFunction for JsonToTable {
    fn get_name(&self) -> (name: &str)
        ensures
            name@ == "json_to_table"@,
    {
        "json_to_table"
    }

    fn get_function(&self, lua: &mlua::Lua) -> mlua::Function {
        json_to_table_function(lua)
    }
}

} // verus!
