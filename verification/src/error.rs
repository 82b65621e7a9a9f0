use vstd::prelude::*;

verus! {

/// Why the helper's command line could not be decoded.
#[derive(Debug, Clone, PartialEq, Eq)]
pub enum ArgumentError {
    /// A grant flag (`--ro` or `--rw`) was the last argument, with no path after it.
    MissingPath { flag: String },
    /// An argument before `--` that is not a known flag.
    UnknownArgument { argument: String },
    /// The arguments ended before the `--` that separates the command.
    MissingSeparator,
    /// Nothing follows `--`: there is no program to run.
    MissingProgram,
}

/// Why a sandbox operation was refused.
///
/// Every variant is a refusal. There is deliberately no "allowed with warning"
/// case: a caller that believes it is sandboxed and is not is worse off than
/// one that gets an error.
#[derive(Debug, Clone, PartialEq, Eq)]
pub enum SandboxError {
    /// The path is not inside any root the policy allows.
    PathNotAllowed {
        /// The path as the caller supplied it.
        requested: String,
    },
    /// The path could not be resolved to a real location, so it cannot be
    /// proven to be inside an allowed root.
    Unresolvable {
        /// The path as the caller supplied it.
        requested: String,
        /// The underlying resolution failure, as the system described it.
        source: String,
    },
    /// This kernel or platform cannot enforce a sandbox.
    Unsupported {
        /// What is missing, for the operator to act on.
        detail: String,
    },
    /// The kernel refused to build or apply the Landlock ruleset.
    Landlock {
        /// The kernel's own reason.
        detail: String,
    },
    /// The sandboxed command could not be started.
    SpawnFailed {
        /// What was being attempted.
        detail: String,
        /// The underlying failure, as the system described it.
        source: String,
    },
    /// The helper was given a command line it cannot decode.
    InvalidArguments {
        /// What is wrong with it.
        reason: ArgumentError,
    },
}

/// The text shown for an argument error.
pub open spec fn argument_error_text(e: ArgumentError) -> Seq<char> {
    match e {
        ArgumentError::MissingPath { flag } => "expected a path after "@ + flag@,
        ArgumentError::UnknownArgument { argument } => "unknown argument: "@ + argument@,
        ArgumentError::MissingSeparator => "missing -- before the command"@,
        ArgumentError::MissingProgram => "no program after --"@,
    }
}

/// The text shown for a sandbox error.
pub open spec fn sandbox_error_text(e: SandboxError) -> Seq<char> {
    match e {
        SandboxError::PathNotAllowed { requested } => "path is outside every allowed root: "@
            + requested@,
        SandboxError::Unresolvable { requested, source } => "could not resolve path "@
            + requested@ + ": "@ + source@,
        SandboxError::Unsupported { detail } => "sandboxing is not available here: "@ + detail@,
        SandboxError::Landlock { detail } => "landlock refused the ruleset: "@ + detail@,
        SandboxError::SpawnFailed { detail, source } => detail@ + ": "@ + source@,
        SandboxError::InvalidArguments { reason } => "invalid helper arguments: "@
            + argument_error_text(reason),
    }
}

impl ArgumentError {
    /// The human-readable description of this error.
    pub fn message(&self) -> (m: String)
        ensures
            m@ == argument_error_text(*self),
    {
        match self {
            ArgumentError::MissingPath { flag } => {
                let mut m = String::from_str("expected a path after ");
                m.append(flag.as_str());
                m
            },
            ArgumentError::UnknownArgument { argument } => {
                let mut m = String::from_str("unknown argument: ");
                m.append(argument.as_str());
                m
            },
            ArgumentError::MissingSeparator => String::from_str("missing -- before the command"),
            ArgumentError::MissingProgram => String::from_str("no program after --"),
        }
    }
}

impl SandboxError {
    /// The human-readable description of this error, as an operator sees it.
    pub fn message(&self) -> (m: String)
        ensures
            m@ == sandbox_error_text(*self),
    {
        match self {
            SandboxError::PathNotAllowed { requested } => {
                let mut m = String::from_str("path is outside every allowed root: ");
                m.append(requested.as_str());
                m
            },
            SandboxError::Unresolvable { requested, source } => {
                let mut m = String::from_str("could not resolve path ");
                m.append(requested.as_str());
                m.append(": ");
                m.append(source.as_str());
                m
            },
            SandboxError::Unsupported { detail } => {
                let mut m = String::from_str("sandboxing is not available here: ");
                m.append(detail.as_str());
                m
            },
            SandboxError::Landlock { detail } => {
                let mut m = String::from_str("landlock refused the ruleset: ");
                m.append(detail.as_str());
                m
            },
            SandboxError::SpawnFailed { detail, source } => {
                let mut m = String::from_str(detail.as_str());
                m.append(": ");
                m.append(source.as_str());
                m
            },
            SandboxError::InvalidArguments { reason } => {
                let mut m = String::from_str("invalid helper arguments: ");
                let r = reason.message();
                m.append(r.as_str());
                m
            },
        }
    }

    /// The underlying failure that caused this error, where there is one.
    pub fn source(&self) -> (s: Option<String>)
        ensures
            match *self {
                SandboxError::Unresolvable { source, .. } => s matches Some(t) && t@ == source@,
                SandboxError::SpawnFailed { source, .. } => s matches Some(t) && t@ == source@,
                _ => s is None,
            },
    {
        match self {
            SandboxError::Unresolvable { source, .. } => Some(source.clone()),
            SandboxError::SpawnFailed { source, .. } => Some(source.clone()),
            _ => None,
        }
    }
}

} // verus!
