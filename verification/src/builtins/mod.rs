//! The builtin callables.

pub mod add_two;
pub mod builtin;
pub mod datetime;
pub mod exec;
pub mod lua_utils;
pub mod random;
pub mod render;
pub mod s;
pub mod simple_http;
pub mod sql;
