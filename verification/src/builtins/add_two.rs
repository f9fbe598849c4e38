//! A trivial arithmetic probe.

use crate::errors::BuiltinExecutionError;
use crate::builtins::builtin::BuiltinFunction;
use vstd::prelude::*;

verus! {

/// `value + 2`, where that fits 32 bits.
pub fn add_two(value: i32) -> (sum: Result<i32, BuiltinExecutionError>)
    ensures
        value + 2 <= i32::MAX ==> sum == Ok::<i32, BuiltinExecutionError>((value + 2) as i32),
        value + 2 > i32::MAX ==> sum == Err::<i32, BuiltinExecutionError>(
            BuiltinExecutionError::Overflow,
        ),
{
    match value.checked_add(2) {
        Some(sum) => Ok(sum),
        None => Err(BuiltinExecutionError::Overflow),
    }
}

/// The callable `add_two`.
pub struct AddTwo;

/// Calls `mlua::Lua::create_function` on a closure that hands an integer to
/// [`add_two`] and gives back the sum, or the error by its message.
#[verifier::external_body]
fn add_two_function(lua: &mlua::Lua) -> mlua::Function {
    lua.create_function(|_, value: i32| add_two(value).map_err(|e| mlua::Error::RuntimeError(e.message())))
        .unwrap()
}

impl BuiltinFunction for AddTwo {
    fn get_name(&self) -> (name: &str)
        ensures
            name@ == "add_two"@,
    {
        "add_two"
    }

    fn get_function(&self, lua: &mlua::Lua) -> mlua::Function {
        add_two_function(lua)
    }
}

} // verus!
