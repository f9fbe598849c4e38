//! Template rendering with placeholder tags resolved from a value source.

pub mod args;
pub mod bridge;
pub mod builtin;
pub mod builtins;
pub mod errors;
pub mod include_tag;
pub mod json_text;
pub mod lua_values;
pub mod marshal;
pub mod marshal_laws;
pub mod sandbox;
pub mod scanner;
pub mod session;
pub mod session_laws;
pub mod utils;
pub mod value_source;

pub use session::Mll;
pub use value_source::GetValueByName;
