//! Sandboxed tool execution for an AI coding agent.
//!
//! Every tool an agent runs passes through the sandbox, default-deny
//! throughout: paths are checked against a [`SandboxPolicy`] before any
//! in-process tool touches them, and commands run under a Landlock ruleset
//! built from the same policy. Whatever cannot be enforced is refused.
use vstd::prelude::*;

pub mod command;
pub mod context;
pub mod edit;
pub mod error;
pub mod fs_guard;
pub mod helper_args;
pub mod path;
pub mod policy;
pub mod ruleset;
pub mod search;
pub mod text;
pub mod tools;

pub use command::{helper_mode_args, SandboxedCommand, HELPER_FLAG};
pub use context::ExecutionContext;
pub use error::{ArgumentError, SandboxError};
pub use fs_guard::{FsGuard, WriteCheck};
pub use helper_args::HelperArgs;
pub use policy::SandboxPolicy;
pub use tools::{
    BuiltinTool, EditInput, FindInput, GrepInput, ReadInput, ToolError, ToolOutput, WriteInput,
};
