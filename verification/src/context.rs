use vstd::prelude::*;

use crate::error::SandboxError;
use crate::fs_guard::{resolved_roots, FsGuard};
use crate::policy::SandboxPolicy;

verus! {

/// What a tool is allowed to touch, and the machinery for enforcing it.
///
/// Built once per session from a [`SandboxPolicy`] and shared by every tool
/// call. Holds both halves of the sandbox because the built-ins split across
/// them: tools that touch the file system in-process check paths through
/// [`FsGuard`], while tools that spawn a process need the policy itself.
#[derive(Debug, Clone)]
pub struct ExecutionContext {
    guard: FsGuard,
    policy: SandboxPolicy,
}

impl ExecutionContext {
    pub closed spec fn guard_view(&self) -> FsGuard {
        self.guard
    }

    pub closed spec fn policy_view(&self) -> SandboxPolicy {
        self.policy
    }

    /// Builds a context for `policy`, given how its roots resolved: the `i`th
    /// entry of `readable` and `writable` is the canonical form of the
    /// policy's `i`th readable or writable root, or `None` when it does not
    /// resolve.
    pub fn new(
        policy: SandboxPolicy,
        readable: Vec<Option<String>>,
        writable: Vec<Option<String>>,
    ) -> (r: Result<ExecutionContext, SandboxError>)
        ensures
            r matches Ok(c) && c.policy_view() == policy && c.guard_view().readable_roots()
                == resolved_roots(readable@) && c.guard_view().writable_roots() == resolved_roots(
                writable@,
            ),
    {
        let guard = match FsGuard::new(readable, writable) {
            Ok(g) => g,
            Err(e) => return Err(e),
        };
        Ok(ExecutionContext { guard, policy })
    }

    /// Path checks for tools that touch the file system in-process.
    pub fn guard(&self) -> (r: &FsGuard)
        ensures
            *r == self.guard_view(),
    {
        &self.guard
    }

    /// The policy itself, for tools that spawn a sandboxed process.
    pub fn policy(&self) -> (r: &SandboxPolicy)
        ensures
            *r == self.policy_view(),
    {
        &self.policy
    }
}

} // verus!
