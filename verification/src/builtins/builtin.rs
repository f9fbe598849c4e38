//! The interface of a builtin callable.

use crate::sandbox::install;
use vstd::prelude::*;

verus! {

/// A named callable that can be installed into a sandbox.
pub trait BuiltinFunction {
    /// The name under which the callable is installed.
    fn get_name(&self) -> &str;

    /// The callable, bound to the interpreter `lua`. Making it fails only
    /// where the interpreter has no memory left for it.
    fn get_function(&self, lua: &mlua::Lua) -> mlua::Function;

    /// Installs the callable into the global namespace of `lua`.
    fn set_function(&self, lua: &mlua::Lua) -> Result<(), String> {
        install(lua, self.get_name(), self.get_function(lua))
    }
}

} // verus!
