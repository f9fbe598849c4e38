//! Conversions between JSON text, JSON trees and the values of the
//! interpreter.

use crate::json_text::{
    fits, parse_json, parsed, print_json, printed, reading, stored, within, JSON_DEPTH,
};
use crate::builtins::s::{shift_jis, SHIFT_JIS_LIMIT};
use crate::errors::BuiltinExecutionError;
use crate::lua_values::{
    bytes_string, from_lua, into_lua, shaped, value_table, within_depth, Shape, MARSHAL_DEPTH,
};
use crate::sandbox::LuaValue;
use crate::marshal::{
    convertible, dynamic_of, json_of, keys_fit, to_dynamic, to_json, DynamicValue, DynamicView,
    JsonValue, JsonView, MarshalError,
};
use crate::marshal_laws::lemma_json_of_printable;
use vstd::prelude::*;

verus! {

/// The table that a JSON tree stands for. Only an array or an object stands
/// for a table; any other tree is refused, and so is a tree with an array too
/// long for integer keys.
pub fn table_of_json(json: &JsonValue) -> (table: Result<DynamicValue, MarshalError>)
    ensures
        match table {
            Ok(value) => (json@ is Array || json@ is Object) && keys_fit(json@) && value@
                == dynamic_of(json@),
            Err(e) => !((json@ is Array || json@ is Object) && keys_fit(json@)) && e
                == MarshalError::ParseFailure,
        },
{
    let is_table = match json {
        JsonValue::Array(_) => true,
        JsonValue::Object(_) => true,
        _ => false,
    };
    if is_table && fits(json) {
        Ok(to_dynamic(json))
    } else {
        Err(MarshalError::ParseFailure)
    }
}

/// Whether a parsed tree stands for a table that can be built: it is an
/// array or an object, nests at most [`JSON_DEPTH`] levels deep, and none of
/// its arrays is too long for integer keys.
pub open spec fn is_table_tree(tree: Option<JsonView>) -> bool {
    &&& tree is Some
    &&& within(tree->Some_0, JSON_DEPTH as nat)
    &&& reading(tree->Some_0) is Array || reading(tree->Some_0) is Object
    &&& keys_fit(reading(tree->Some_0))
}

/// Parses a JSON text and converts it to the table that it stands for. A
/// text that is not JSON, or is no array and no object, is refused.
pub fn json_str_to_table(json_str: &str) -> (table: Result<DynamicValue, MarshalError>)
    ensures
        match table {
            Ok(value) => is_table_tree(parsed(json_str@)) && value@ == dynamic_of(
                reading(parsed(json_str@)->Some_0),
            ),
            Err(e) => !is_table_tree(parsed(json_str@)) && e == MarshalError::ParseFailure,
        },
{
    match parse_json(json_str) {
        Ok(json) => table_of_json(&json),
        Err(e) => Err(e),
    }
}

/// Converts a dynamic value to JSON text. A value without JSON form is
/// refused as unsupported.
pub fn table_to_json_str(value: &DynamicValue) -> (text: Result<String, MarshalError>)
    ensures
        match text {
            Ok(written) => convertible(value@) && written@ == printed(stored(json_of(value@))),
            Err(e) => !convertible(value@) && e == MarshalError::Unsupported,
        },
{
    match to_json(value) {
        Ok(json) => {
            proof {
                lemma_json_of_printable(value@);
            }
            print_json(&json)
        },
        Err(e) => Err(e),
    }
}

/// Builds the value of a JSON tree in the interpreter.
pub fn json_to_lua(lua: &mlua::Lua, json: &JsonValue) -> (value: Result<mlua::Value, MarshalError>)
    ensures
        json@ is Null || json@ is Bool || json@ is Integer || json@ is Float ==> value is Ok,
        !keys_fit(json@) ==> value is Err,
        value is Err ==> value->Err_0 == MarshalError::Unsupported,
{
    if fits(json) {
        into_lua(lua, &to_dynamic(json))
    } else {
        Err(MarshalError::Unsupported)
    }
}

/// Reads a value of the interpreter, at most [`MARSHAL_DEPTH`] levels deep,
/// as a JSON tree: the result is that of [`to_json`] on what was read, so a
/// function, an opaque handle or a number that is not finite is unsupported.
pub fn lua_to_json(value: &LuaValue) -> (json: Result<JsonValue, MarshalError>)
    ensures
        exists|shape: Shape|
            within_depth(#[trigger] shaped(shape, MARSHAL_DEPTH as nat), MARSHAL_DEPTH as nat)
                && match json {
                Ok(tree) => convertible(shaped(shape, MARSHAL_DEPTH as nat)) && tree@ == json_of(
                    shaped(shape, MARSHAL_DEPTH as nat),
                ),
                Err(e) => !convertible(shaped(shape, MARSHAL_DEPTH as nat)) && e
                    == MarshalError::Unsupported,
            },
{
    let read = from_lua(value, MARSHAL_DEPTH);
    let json = to_json(&read);
    proof {
        let shape = choose|shape: Shape| read@ == #[trigger] shaped(shape, MARSHAL_DEPTH as nat);
        assert(within_depth(shaped(shape, MARSHAL_DEPTH as nat), MARSHAL_DEPTH as nat));
    }
    json
}

/// Parses a JSON text and builds the table that it stands for in the
/// interpreter. A text that is not JSON, or is no array and no object, is
/// refused as a parse failure; any other failure is the interpreter's, which
/// could not hold the table, and is reported as unsupported.
pub fn json_str_to_lua_table(lua: &mlua::Lua, json_str: &str) -> (table: Result<
    mlua::Table,
    MarshalError,
>)
    ensures
        !is_table_tree(parsed(json_str@)) ==> table is Err && table->Err_0
            == MarshalError::ParseFailure,
        is_table_tree(parsed(json_str@)) && table is Err ==> table->Err_0
            == MarshalError::Unsupported,
{
    let value = match json_str_to_table(json_str) {
        Ok(value) => value,
        Err(e) => {
            return Err(e);
        },
    };
    match into_lua(lua, &value) {
        Ok(built) => match value_table(built) {
            Some(table) => Ok(table),
            None => Err(MarshalError::Unsupported),
        },
        Err(e) => Err(e),
    }
}

/// Reads a table of the interpreter, at most [`MARSHAL_DEPTH`] levels deep,
/// and writes it as JSON text: the result is that of [`table_to_json_str`]
/// on what was read.
pub fn lua_table_to_json_str(table: &LuaValue) -> (text: Result<String, MarshalError>)
    ensures
        exists|shape: Shape|
            within_depth(#[trigger] shaped(shape, MARSHAL_DEPTH as nat), MARSHAL_DEPTH as nat)
                && match text {
                Ok(written) => convertible(shaped(shape, MARSHAL_DEPTH as nat)) && written@
                    == printed(stored(json_of(shaped(shape, MARSHAL_DEPTH as nat)))),
                Err(e) => !convertible(shaped(shape, MARSHAL_DEPTH as nat)) && e
                    == MarshalError::Unsupported,
            },
{
    let value = from_lua(table, MARSHAL_DEPTH);
    let text = table_to_json_str(&value);
    proof {
        let shape = choose|shape: Shape| value@ == #[trigger] shaped(shape, MARSHAL_DEPTH as nat);
        assert(within_depth(shaped(shape, MARSHAL_DEPTH as nat), MARSHAL_DEPTH as nat));
    }
    text
}

/// Converts `text` to Shift_JIS and makes a string of the interpreter of the
/// bytes. A text of more than [`SHIFT_JIS_LIMIT`] bytes is refused.
pub fn lua_string_to_shift_jis(lua: &mlua::Lua, text: &str) -> (string: Result<
    mlua::String,
    BuiltinExecutionError,
>)
    ensures
        text.len() > SHIFT_JIS_LIMIT ==> string is Err,
        string is Err ==> string->Err_0 == BuiltinExecutionError::Overflow,
{
    match shift_jis(text) {
        Ok(bytes) => match bytes_string(lua, &bytes) {
            Some(string) => Ok(string),
            None => Err(BuiltinExecutionError::Overflow),
        },
        Err(e) => Err(e),
    }
}

} // verus!
