//! Conversion of text to Shift_JIS bytes.

use crate::errors::BuiltinExecutionError;
use crate::builtins::builtin::BuiltinFunction;
use crate::utils::lua_string_to_shift_jis;
use vstd::prelude::*;
use vstd::string::*;

verus! {

/// The longest text, in bytes, that is converted.
pub const SHIFT_JIS_LIMIT: usize = 0x3fff_0000;

/// The Shift_JIS bytes of `text`, a character without Shift_JIS form being
/// written as a decimal numeric character reference.
pub uninterp spec fn shift_jis_bytes(text: Seq<char>) -> Seq<u8>;

/// Calls `encoding_rs::Encoding::encode` of `encoding_rs::SHIFT_JIS` on
/// `text` and hands out the bytes. It panics where the size of its buffer,
/// the length of the text and a few bytes more, rounded up to a power of two,
/// overflows, which the precondition leaves out. The result is named
/// [`shift_jis_bytes`].
#[verifier::external_body]
fn encode(text: &str) -> (bytes: Vec<u8>)
    requires
        text.len() <= SHIFT_JIS_LIMIT,
    ensures
        bytes@ == shift_jis_bytes(text@),
{
    let (bytes, _, _) = encoding_rs::SHIFT_JIS.encode(text);
    bytes.into_owned()
}

/// The Shift_JIS bytes of `text`. A text of more than [`SHIFT_JIS_LIMIT`]
/// bytes is refused.
pub fn shift_jis(text: &str) -> (bytes: Result<Vec<u8>, BuiltinExecutionError>)
    ensures
        text.len() <= SHIFT_JIS_LIMIT ==> bytes is Ok && bytes->Ok_0@
            == shift_jis_bytes(text@),
        text.len() > SHIFT_JIS_LIMIT ==> bytes == Err::<
            Vec<u8>,
            BuiltinExecutionError,
        >(BuiltinExecutionError::Overflow),
{
    if text.len() <= SHIFT_JIS_LIMIT {
        Ok(encode(text))
    } else {
        Err(BuiltinExecutionError::Overflow)
    }
}

/// The callable `s`.
pub struct ShiftJis;

/// Calls `mlua::Lua::create_function` on a closure that hands a text to
/// [`lua_string_to_shift_jis`] and gives back the string, or the error by
/// its message.
#[verifier::external_body]
fn shift_jis_function(lua: &mlua::Lua) -> mlua::Function {
    lua.create_function(|lua, text: String| {
        lua_string_to_shift_jis(lua, &text).map_err(|e| mlua::Error::RuntimeError(e.message()))
    }).unwrap()
}

impl BuiltinFunction for ShiftJis {
    fn get_name(&self) -> (name: &str)
        ensures
            name@ == "s"@,
    {
        "s"
    }

    fn get_function(&self, lua: &mlua::Lua) -> mlua::Function {
        shift_jis_function(lua)
    }
}

} // verus!
