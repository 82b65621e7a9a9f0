use vstd::prelude::*;

use crate::error::{sandbox_error_text, SandboxError};

verus! {

/// What a tool produced, as the model will see it.
#[derive(Debug, Clone, PartialEq, Eq)]
pub struct ToolOutput {
    /// Text handed back to the model.
    pub content: String,
}

/// The tools an agent may call.
///
/// Dispatch is a closed enum rather than trait objects: the set is fixed and
/// there is no plugin system.
#[derive(Debug, Clone, Copy, PartialEq, Eq)]
pub enum BuiltinTool {
    /// Read a file.
    Read,
    /// Create or replace a file.
    Write,
    /// Replace one exact occurrence of a text in a file.
    Edit,
    /// Find files beneath a directory by name.
    Find,
    /// Search file contents beneath a directory for a literal text.
    Grep,
}

/// The name the model calls a tool by.
pub open spec fn tool_name(t: BuiltinTool) -> Seq<char> {
    match t {
        BuiltinTool::Read => "read"@,
        BuiltinTool::Write => "write"@,
        BuiltinTool::Edit => "edit"@,
        BuiltinTool::Find => "find"@,
        BuiltinTool::Grep => "grep"@,
    }
}

impl BuiltinTool {
    /// The name the model calls this tool by.
    pub fn name(&self) -> (r: &'static str)
        ensures
            r@ == tool_name(*self),
    {
        match self {
            BuiltinTool::Read => "read",
            BuiltinTool::Write => "write",
            BuiltinTool::Edit => "edit",
            BuiltinTool::Find => "find",
            BuiltinTool::Grep => "grep",
        }
    }
}

/// Why a tool call did not produce output.
#[derive(Debug, Clone, PartialEq, Eq)]
pub enum ToolError {
    /// The sandbox refused the path.
    Denied { subject: String, reason: String },
    /// The operation was allowed but did not succeed.
    Failed { subject: String, detail: String },
    /// The arguments do not match the tool's schema.
    BadInput { detail: String },
}

/// Arguments for the `read` tool.
#[derive(Debug, Clone, PartialEq, Eq)]
pub struct ReadInput {
    /// Absolute path of the file to read.
    pub path: String,
}

/// Arguments for the `write` tool.
#[derive(Debug, Clone, PartialEq, Eq)]
pub struct WriteInput {
    /// Absolute path of the file to create or replace.
    pub path: String,
    /// The file's new content.
    pub content: String,
}

/// Arguments for the `edit` tool.
#[derive(Debug, Clone, PartialEq, Eq)]
pub struct EditInput {
    /// Absolute path of the file to edit.
    pub path: String,
    /// Exact text to replace. Must appear exactly once.
    pub old: String,
    /// Text to put in its place.
    pub new: String,
}

/// Arguments for the `find` tool.
#[derive(Debug, Clone, PartialEq, Eq)]
pub struct FindInput {
    /// Absolute path of the directory to search.
    pub path: String,
    /// Substring to match against file names.
    pub name: String,
}

/// Arguments for the `grep` tool.
#[derive(Debug, Clone, PartialEq, Eq)]
pub struct GrepInput {
    /// Absolute path of the directory to search.
    pub path: String,
    /// Literal text to look for. Not a regular expression.
    pub pattern: String,
}

/// The refusal a tool reports when the sandbox refuses `subject`: the
/// sandbox's own description of why.
pub fn denied(subject: &str, error: &SandboxError) -> (e: ToolError)
    ensures
        e matches ToolError::Denied { subject: s, reason } && s@ == subject@ && reason@
            == sandbox_error_text(*error),
{
    ToolError::Denied { subject: subject.to_owned(), reason: error.message() }
}

/// The failure a tool reports when `verb` on `path` fails for a reason the
/// system described as `detail`; the subject reads "`verb` `path`".
pub fn failed(verb: &str, path: &str, detail: String) -> (e: ToolError)
    ensures
        e matches ToolError::Failed { subject, detail: d } && subject@ == verb@ + " "@ + path@
            && d@ == detail@,
{
    let mut subject = String::from_str(verb);
    subject.append(" ");
    subject.append(path);
    ToolError::Failed { subject, detail }
}

} // verus!
