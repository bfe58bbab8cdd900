//! The tool handlers' logic: what each call validates, builds, and answers.
pub mod doc;
pub mod glob;
pub mod global;
pub mod info;
pub mod scm;
pub mod search;
pub mod symbols_local;
pub mod syntax;

use vstd::prelude::*;

verus! {

/// A tool call answered with `{"success": false, "error_code", "error"}`.
#[derive(Debug)]
pub struct ToolError {
    pub error_code: String,
    pub error: String,
}

/// An error answer with the given code and message.
pub fn tool_error(code: &str, msg: &str) -> (r: ToolError)
    ensures
        r.error_code@ == code@,
        r.error@ == msg@,
{
    ToolError { error_code: String::from_str(code), error: String::from_str(msg) }
}

/// The namespace tools use when none is given.
pub fn default_namespace() -> (r: String)
    ensures
        r@ == "USER"@,
{
    String::from_str("USER")
}

} // verus!
