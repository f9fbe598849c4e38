//! Process execution: the result of a finished process.

use crate::errors::BuiltinExecutionError;
use vstd::prelude::*;
use vstd::string::*;
use vstd::utf8::*;

verus! {

/// The callable `exec`.
pub struct Exec;

impl Exec {
    /// The name under which the callable is installed.
    pub fn get_name(&self) -> (name: &'static str)
        ensures
            name@ == "exec"@,
    {
        "exec"
    }
}

/// What a finished process left.
#[derive(Debug, Clone, PartialEq)]
pub struct ExecResult {
    /// The exit code.
    pub code: i32,
    /// The standard output, without trailing whitespace.
    pub stdout: String,
    /// The standard error, without trailing whitespace.
    pub stderr: String,
}

/// Whether `c` has the Unicode property White_Space.
pub open spec fn is_whitespace(c: char) -> bool {
    let n = c as u32;
    (0x09 <= n && n <= 0x0d) || n == 0x20 || n == 0x85 || n == 0xa0 || n == 0x1680 || (0x2000 <= n
        && n <= 0x200a) || n == 0x2028 || n == 0x2029 || n == 0x202f || n == 0x205f || n == 0x3000
}

/// `text` without the whitespace at its end.
pub open spec fn trimmed_end(text: Seq<char>) -> Seq<char>
    decreases text.len(),
{
    if text.len() > 0 && is_whitespace(text.last()) {
        trimmed_end(text.drop_last())
    } else {
        text
    }
}

/// Whether `c` has the Unicode property White_Space.
pub fn is_space(c: char) -> (r: bool)
    ensures
        r == is_whitespace(c),
{
    let n: u32 = c as u32;
    (0x09 <= n && n <= 0x0d) || n == 0x20 || n == 0x85 || n == 0xa0 || n == 0x1680 || (0x2000 <= n
        && n <= 0x200a) || n == 0x2028 || n == 0x2029 || n == 0x202f || n == 0x205f || n == 0x3000
}

/// `text` without the whitespace at its end.
pub fn trim_end(text: &str) -> (trimmed: String)
    ensures
        trimmed@ == trimmed_end(text@),
{
    let mut end: usize = text.unicode_len();
    proof {
        assert(text@.take(end as int) == text@);
    }
    while end > 0 && is_space(text.get_char(end - 1))
        invariant
            end <= text@.len(),
            trimmed_end(text@) == trimmed_end(text@.take(end as int)),
        decreases end,
    {
        proof {
            assert(text@.take(end as int).drop_last() == text@.take(end as int - 1));
        }
        end = end - 1;
    }
    text.substring_char(0, end).to_owned()
}

/// Calls `String::from_utf8`: the text that the bytes encode, where they
/// are valid UTF-8, and nothing where they are not.
#[verifier::external_body]
fn decode(bytes: Vec<u8>) -> (text: Option<String>)
    ensures
        text is Some <==> valid_utf8(bytes@),
        text is Some ==> text->Some_0@ == decode_utf8(bytes@),
{
    String::from_utf8(bytes).ok()
}

impl ExecResult {
    /// The result of a process that ended with `code` and wrote `stdout` and
    /// `stderr`. A process without exit code counts as not launched; output
    /// that is not UTF-8 is refused, the standard output being looked at
    /// first.
    pub fn from_output(code: Option<i32>, stdout: Vec<u8>, stderr: Vec<u8>) -> (result: Result<
        ExecResult,
        BuiltinExecutionError,
    >)
        ensures
            code is None ==> result is Err && result->Err_0
                == BuiltinExecutionError::LaunchFailure,
            code is Some && !(valid_utf8(stdout@) && valid_utf8(stderr@)) ==> result is Err
                && result->Err_0 == BuiltinExecutionError::NonUtf8Output,
            code is Some && valid_utf8(stdout@) && valid_utf8(stderr@) ==> result is Ok
                && result->Ok_0.code == code->Some_0 && result->Ok_0.stdout@ == trimmed_end(
                decode_utf8(stdout@),
            ) && result->Ok_0.stderr@ == trimmed_end(decode_utf8(stderr@)),
    {
        let code = match code {
            Some(code) => code,
            None => {
                return Err(BuiltinExecutionError::LaunchFailure);
            },
        };
        let out = match decode(stdout) {
            Some(text) => text,
            None => {
                return Err(BuiltinExecutionError::NonUtf8Output);
            },
        };
        let err = match decode(stderr) {
            Some(text) => text,
            None => {
                return Err(BuiltinExecutionError::NonUtf8Output);
            },
        };
        Ok(ExecResult { code, stdout: trim_end(out.as_str()), stderr: trim_end(err.as_str()) })
    }
}

} // verus!
