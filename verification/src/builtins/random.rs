//! Random integers and random alphanumeric strings.

use crate::errors::BuiltinExecutionError;
use rand::Rng;
use crate::builtins::builtin::BuiltinFunction;
use vstd::prelude::*;

verus! {

/// Whether `c` is an ASCII letter or digit.
pub open spec fn is_alphanumeric(c: char) -> bool {
    ('0' <= c && c <= '9') || ('a' <= c && c <= 'z') || ('A' <= c && c <= 'Z')
}

/// Calls `rand::Rng::random_range` on the half-open range from `minimum` to
/// `maximum`, with the generator of `rand::rng`. It panics on an empty range,
/// which the precondition leaves out. The value lies in the range; which one
/// it is, is random.
#[verifier::external_body]
fn pick_int(minimum: i32, maximum: i32) -> (value: i32)
    requires
        minimum < maximum,
    ensures
        minimum <= value < maximum,
{
    rand::rng().random_range(minimum..maximum)
}

/// Takes `length` samples of `rand::distr::Alphanumeric` from the generator
/// of `rand::rng`, each an ASCII letter or digit, as a string. Which
/// characters they are, is random.
#[verifier::external_body]
fn pick_string(length: usize) -> (text: String)
    ensures
        text@.len() == length,
        forall|i: int| 0 <= i < text@.len() ==> is_alphanumeric(#[trigger] text@[i]),
{
    rand::rng().sample_iter(rand::distr::Alphanumeric).take(length).map(char::from).collect()
}

/// A random integer that is at least `minimum` and less than `maximum`.
/// There is none where `minimum` is not less than `maximum`.
pub fn random_int(minimum: i32, maximum: i32) -> (value: Result<i32, BuiltinExecutionError>)
    ensures
        minimum < maximum ==> value is Ok && minimum <= value->Ok_0 < maximum,
        minimum >= maximum ==> value == Err::<i32, BuiltinExecutionError>(
            BuiltinExecutionError::EmptyRange,
        ),
{
    if minimum < maximum {
        Ok(pick_int(minimum, maximum))
    } else {
        Err(BuiltinExecutionError::EmptyRange)
    }
}

/// A random string of exactly `length` ASCII letters and digits.
pub fn random_string(length: usize) -> (text: String)
    ensures
        text@.len() == length,
        forall|i: int| 0 <= i < text@.len() ==> is_alphanumeric(#[trigger] text@[i]),
{
    pick_string(length)
}

/// The callable `random_int`.
pub struct RandomInt;

/// The callable `random_string`.
pub struct RandomString;

/// Calls `mlua::Lua::create_function` on a closure that hands two integers
/// to [`random_int`] and gives back the value, or the error by its message.
#[verifier::external_body]
fn random_int_function(lua: &mlua::Lua) -> mlua::Function {
    lua.create_function(|_, (minimum, maximum): (i32, i32)| {
        random_int(minimum, maximum).map_err(|e| mlua::Error::RuntimeError(e.message()))
    }).unwrap()
}

/// Calls `mlua::Lua::create_function` on a closure that hands a length to
/// [`random_string`] and gives back the string.
#[verifier::external_body]
fn random_string_function(lua: &mlua::Lua) -> mlua::Function {
    lua.create_function(|_, length: usize| Ok(random_string(length))).unwrap()
}

impl BuiltinFunction for RandomInt {
    fn get_name(&self) -> (name: &str)
        ensures
            name@ == "random_int"@,
    {
        "random_int"
    }

    fn get_function(&self, lua: &mlua::Lua) -> mlua::Function {
        random_int_function(lua)
    }
}

impl BuiltinFunction for RandomString {
    fn get_name(&self) -> (name: &str)
        ensures
            name@ == "random_string"@,
    {
        "random_string"
    }

    fn get_function(&self, lua: &mlua::Lua) -> mlua::Function {
        random_string_function(lua)
    }
}

} // verus!
