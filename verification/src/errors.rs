//! Errors of the builtin callables.

use crate::marshal::MarshalError;
use vstd::prelude::*;

verus! {

/// Why a builtin call failed.
#[derive(Debug, PartialEq, Eq, Structural, Clone, Copy)]
pub enum BuiltinExecutionError {
    /// An integer result does not fit its type.
    Overflow,
    /// A range of random integers without a member.
    EmptyRange,
    /// The fields name no date and time, or the shifted moment lies outside
    /// the dates that can be held.
    InvalidMoment,
    /// The format pattern holds an unknown specifier.
    InvalidPattern,
    /// The method of a request is none of GET, POST, PUT and DELETE.
    UnsupportedMethod,
    /// No connection configuration is stored under the session token.
    UnknownSession,
    /// The process could not be started, or ended without an exit code.
    LaunchFailure,
    /// The output of the process is not UTF-8.
    NonUtf8Output,
    /// A blocking wait was started from within another one.
    NestedBridge,
    /// A value could not be converted.
    Marshal(MarshalError),
}

/// The description of an error.
pub open spec fn message_text(error: BuiltinExecutionError) -> Seq<char> {
    match error {
        BuiltinExecutionError::Overflow => "integer overflow"@,
        BuiltinExecutionError::EmptyRange => "empty range"@,
        BuiltinExecutionError::InvalidMoment => "invalid date or time"@,
        BuiltinExecutionError::InvalidPattern => "invalid format pattern"@,
        BuiltinExecutionError::UnsupportedMethod => "Unknown http method"@,
        BuiltinExecutionError::UnknownSession => "unknown session token"@,
        BuiltinExecutionError::LaunchFailure => "failed to execute process"@,
        BuiltinExecutionError::NonUtf8Output => "output is not UTF-8"@,
        BuiltinExecutionError::NestedBridge => "blocking wait within a blocking wait"@,
        BuiltinExecutionError::Marshal(MarshalError::Unsupported) => "Unsupported Lua value"@,
        BuiltinExecutionError::Marshal(MarshalError::ParseFailure) => "JSON parse error"@,
    }
}

impl BuiltinExecutionError {
    /// A short description of the error, for the script that made the call.
    pub fn message(&self) -> (text: String)
        ensures
            text@ == message_text(*self),
    {
        match self {
            BuiltinExecutionError::Overflow => "integer overflow".to_owned(),
            BuiltinExecutionError::EmptyRange => "empty range".to_owned(),
            BuiltinExecutionError::InvalidMoment => "invalid date or time".to_owned(),
            BuiltinExecutionError::InvalidPattern => "invalid format pattern".to_owned(),
            BuiltinExecutionError::UnsupportedMethod => "Unknown http method".to_owned(),
            BuiltinExecutionError::UnknownSession => "unknown session token".to_owned(),
            BuiltinExecutionError::LaunchFailure => "failed to execute process".to_owned(),
            BuiltinExecutionError::NonUtf8Output => "output is not UTF-8".to_owned(),
            BuiltinExecutionError::NestedBridge => {
                "blocking wait within a blocking wait".to_owned()
            },
            BuiltinExecutionError::Marshal(MarshalError::Unsupported) => {
                "Unsupported Lua value".to_owned()
            },
            BuiltinExecutionError::Marshal(MarshalError::ParseFailure) => {
                "JSON parse error".to_owned()
            },
        }
    }
}

} // verus!
