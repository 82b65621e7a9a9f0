use vstd::prelude::*;

use crate::error::{sandbox_error_text, SandboxError};
use crate::path::{
    file_name_of, is_within_any, join_path, parent_of, path_file_name, path_join, path_parent,
    more_roots_never_revoke, no_roots_grant_nothing, within_some,
};

verus! {

/// The roots that resolved, in order; roots that did not resolve are dropped.
pub open spec fn resolved_roots(rs: Seq<Option<String>>) -> Seq<Seq<char>>
    decreases rs.len(),
{
    if rs.len() == 0 {
        seq![]
    } else {
        match rs.last() {
            Some(r) => resolved_roots(rs.drop_last()).push(r@),
            None => resolved_roots(rs.drop_last()),
        }
    }
}

/// Checks paths against a [`crate::SandboxPolicy`] before echo's own code
/// touches them.
///
/// Tools implemented in Rust never spawn anything, so the kernel never sees
/// them; `FsGuard` is what keeps them inside the policy. Roots are resolved
/// once, when the guard is built, and every checked path is resolved before it
/// is compared, so neither `..` nor a symlink can present a path that merely
/// looks as if it were inside an allowed root.
#[derive(Debug, Clone)]
pub struct FsGuard {
    readable: Vec<String>,
    writable: Vec<String>,
}

/// The next step of a write check.
///
/// A write check asks the file system up to three questions, each depending
/// on the answer before; the guard decides after each answer.
pub enum WriteCheck {
    /// The check is over.
    Done(Result<String, SandboxError>),
    /// The path did not resolve: ask whether it is a symbolic link, and pass
    /// the answer to [`FsGuard::check_write_leaf`].
    InspectLeaf,
    /// The path does not exist yet: resolve `parent`, and pass the result to
    /// [`FsGuard::check_write_parent`] with `file_name`.
    ResolveParent { parent: String, file_name: String },
}

/// Allows `resolved` when it lies beneath one of `roots`; otherwise refuses
/// `requested`, the path as the caller supplied it.
pub open spec fn permit_spec(
    resolved: Seq<char>,
    roots: Seq<Seq<char>>,
    requested: Seq<char>,
    r: Result<String, SandboxError>,
) -> bool {
    if within_some(resolved, roots) {
        r matches Ok(p) && p@ == resolved
    } else {
        r matches Err(SandboxError::PathNotAllowed { requested: q }) && q@ == requested
    }
}

/// Adding roots never revokes access: what one list of roots permits, any
/// list that includes those roots permits too, as the same location.
pub proof fn permit_with_more_roots(
    resolved: Seq<char>,
    roots: Seq<Seq<char>>,
    more: Seq<Seq<char>>,
    requested: Seq<char>,
    r: Result<String, SandboxError>,
    r_more: Result<String, SandboxError>,
)
    requires
        forall|i: int| 0 <= i < roots.len() ==> more.contains(#[trigger] roots[i]),
        permit_spec(resolved, roots, requested, r),
        r is Ok,
        permit_spec(resolved, more, requested, r_more),
    ensures
        r_more matches Ok(p) && p@ == resolved,
{
    if !within_some(resolved, roots) {
        assert(r is Err);
    }
    more_roots_never_revoke(resolved, roots, more);
}

/// No root grants nothing: with no roots, every path is refused.
pub proof fn permit_without_roots(
    resolved: Seq<char>,
    requested: Seq<char>,
    r: Result<String, SandboxError>,
)
    requires
        permit_spec(resolved, Seq::<Seq<char>>::empty(), requested, r),
    ensures
        r matches Err(SandboxError::PathNotAllowed { requested: q }) && q@ == requested,
{
    no_roots_grant_nothing(resolved);
}

/// Refuses `requested` as unresolvable, carrying the system's reason.
pub open spec fn unresolvable_spec(
    requested: Seq<char>,
    source: Seq<char>,
    r: Result<String, SandboxError>,
) -> bool {
    r matches Err(SandboxError::Unresolvable { requested: q, source: s }) && q@ == requested && s@
        == source
}

/// Compares whole path components, not string prefixes: `/work-secrets` must
/// not match the root `/work`.
fn permit(resolved: String, roots: &[String], requested: &str) -> (r: Result<String, SandboxError>)
    ensures
        permit_spec(resolved@, roots.deep_view(), requested@, r),
{
    if is_within_any(resolved.as_str(), roots) {
        Ok(resolved)
    } else {
        Err(SandboxError::PathNotAllowed { requested: requested.to_owned() })
    }
}

/// Keeps the roots that resolved, in order.
fn canonical_roots(rs: Vec<Option<String>>) -> (r: Vec<String>)
    ensures
        r.deep_view() == resolved_roots(rs@),
{
    let mut out: Vec<String> = Vec::new();
    let mut k: usize = 0;
    assert(rs@.take(0) =~= Seq::<Option<String>>::empty());
    while k < rs.len()
        invariant
            k <= rs.len(),
            out.deep_view() == resolved_roots(rs@.take(k as int)),
        decreases rs.len() - k,
    {
        assert(rs@.take(k + 1).drop_last() =~= rs@.take(k as int));
        match &rs[k] {
            Some(root) => {
                let ghost prev = out.deep_view();
                out.push(root.clone());
                assert(out.deep_view() =~= prev.push(root@));
            },
            None => {},
        }
        k = k + 1;
    }
    assert(rs@.take(k as int) =~= rs@);
    out
}

/// Whether an audited access was allowed, and if not, why.
#[derive(Debug, Clone, PartialEq, Eq)]
pub enum AuditOutcome {
    Allowed,
    Denied { reason: String },
}

/// One access decision, for the operator's audit log: the operation, the
/// path as the caller supplied it, and the outcome.
#[derive(Debug, Clone, PartialEq, Eq)]
pub struct AuditEvent {
    pub operation: String,
    pub subject: String,
    pub outcome: AuditOutcome,
}

/// Why a path outside the policy is refused.
pub open spec fn outside_reason() -> Seq<char> {
    "outside every allowed root"@
}

/// Why a write through a symbolic link that did not resolve is refused.
pub open spec fn symlink_reason() -> Seq<char> {
    "symlink leaf may resolve outside the allowed root"@
}

/// Whether `e` records `operation` on `subject`, allowed or denied for `reason`.
pub open spec fn event_is(
    e: AuditEvent,
    operation: Seq<char>,
    subject: Seq<char>,
    allowed: bool,
    reason: Seq<char>,
) -> bool {
    &&& e.operation@ == operation
    &&& e.subject@ == subject
    &&& if allowed {
        e.outcome is Allowed
    } else {
        e.outcome matches AuditOutcome::Denied { reason: r } && r@ == reason
    }
}

/// The event due when `resolved`, requested as `requested`, is checked
/// against `roots`: allowed when it lies beneath one of them.
fn permit_event(operation: &str, resolved: &str, roots: &[String], requested: &str) -> (e: AuditEvent)
    ensures
        event_is(
            e,
            operation@,
            requested@,
            within_some(resolved@, roots.deep_view()),
            outside_reason(),
        ),
{
    let outcome = if is_within_any(resolved, roots) {
        AuditOutcome::Allowed
    } else {
        AuditOutcome::Denied { reason: String::from_str("outside every allowed root") }
    };
    AuditEvent { operation: operation.to_owned(), subject: requested.to_owned(), outcome }
}

impl FsGuard {
    /// The audit event [`FsGuard::check_read`] is due for the same arguments:
    /// a path that resolved is recorded as allowed or denied, as the check
    /// decides; a path that did not resolve records nothing.
    pub fn read_event(&self, path: &str, resolved: &Result<String, String>) -> (r: Option<AuditEvent>)
        ensures
            match *resolved {
                Ok(p) => r matches Some(e) && event_is(
                    e,
                    "read"@,
                    path@,
                    within_some(p@, self.readable_roots()),
                    outside_reason(),
                ),
                Err(_) => r is None,
            },
    {
        match resolved {
            Ok(p) => Some(permit_event("read", p.as_str(), self.readable.as_slice(), path)),
            Err(_) => None,
        }
    }

    /// The audit event [`FsGuard::check_write`] is due for the same arguments.
    pub fn write_event(&self, path: &str, resolved: &Result<String, String>) -> (r: Option<AuditEvent>)
        ensures
            match *resolved {
                Ok(p) => r matches Some(e) && event_is(
                    e,
                    "write"@,
                    path@,
                    within_some(p@, self.writable_roots()),
                    outside_reason(),
                ),
                Err(_) => r is None,
            },
    {
        match resolved {
            Ok(p) => Some(permit_event("write", p.as_str(), self.writable.as_slice(), path)),
            Err(_) => None,
        }
    }

    /// The audit event [`FsGuard::check_write_leaf`] is due: a symbolic link
    /// that did not resolve is recorded as denied.
    pub fn write_leaf_event(&self, path: &str, leaf_is_symlink: bool) -> (r: Option<AuditEvent>)
        ensures
            leaf_is_symlink ==> (r matches Some(e) && event_is(
                e,
                "write"@,
                path@,
                false,
                symlink_reason(),
            )),
            !leaf_is_symlink ==> r is None,
    {
        if leaf_is_symlink {
            Some(
                AuditEvent {
                    operation: String::from_str("write"),
                    subject: path.to_owned(),
                    outcome: AuditOutcome::Denied {
                        reason: String::from_str("symlink leaf may resolve outside the allowed root"),
                    },
                },
            )
        } else {
            None
        }
    }

    /// The audit event [`FsGuard::check_write_parent`] is due for the same
    /// arguments.
    pub fn write_parent_event(
        &self,
        path: &str,
        file_name: &str,
        resolved_parent: &Result<String, String>,
    ) -> (r: Option<AuditEvent>)
        ensures
            match *resolved_parent {
                Ok(p) => r matches Some(e) && event_is(
                    e,
                    "write"@,
                    path@,
                    within_some(path_join(p@, file_name@), self.writable_roots()),
                    outside_reason(),
                ),
                Err(_) => r is None,
            },
    {
        match resolved_parent {
            Ok(p) => {
                let target = join_path(p.as_str(), file_name);
                Some(permit_event("write", target.as_str(), self.writable.as_slice(), path))
            },
            Err(_) => None,
        }
    }

    /// What a read check of `path` gives, given what resolving it gave: the
    /// resolved location, or the text of the refusal.
    pub open spec fn check_read_spec(&self, path: Seq<char>, resolved: Result<String, String>) -> Result<
        Seq<char>,
        Seq<char>,
    > {
        match resolved {
            Ok(p) => if within_some(p@, self.readable_roots()) {
                Ok(p@)
            } else {
                Err("path is outside every allowed root: "@ + path)
            },
            Err(e) => Err("could not resolve path "@ + path + ": "@ + e@),
        }
    }

    /// The resolved roots that may be read.
    pub closed spec fn readable_roots(&self) -> Seq<Seq<char>> {
        self.readable.deep_view()
    }

    /// The resolved roots that may be written.
    pub closed spec fn writable_roots(&self) -> Seq<Seq<char>> {
        self.writable.deep_view()
    }

    /// Builds a guard from the policy's roots as they resolved: the `i`th
    /// entry is the canonical form of the policy's `i`th root, or `None` when
    /// it could not be resolved.
    ///
    /// Roots that do not resolve are dropped rather than rejected: a policy may
    /// name a directory that has not been created yet, and a root that cannot
    /// be resolved can never match a resolved path anyway, so dropping it is
    /// the conservative choice, not a permissive one.
    pub fn new(readable: Vec<Option<String>>, writable: Vec<Option<String>>) -> (r: Result<
        FsGuard,
        SandboxError,
    >)
        ensures
            r matches Ok(g) && g.readable_roots() == resolved_roots(readable@)
                && g.writable_roots() == resolved_roots(writable@),
    {
        Ok(FsGuard { readable: canonical_roots(readable), writable: canonical_roots(writable) })
    }

    /// Permits reading `path`, given what resolving it gave: its canonical
    /// location, or the system's reason it could not be resolved. Returns the
    /// resolved location.
    ///
    /// The path must already exist: what cannot be resolved is refused.
    pub fn check_read(&self, path: &str, resolved: Result<String, String>) -> (r: Result<
        String,
        SandboxError,
    >)
        ensures
            match resolved {
                Ok(p) => permit_spec(p@, self.readable_roots(), path@, r),
                Err(e) => unresolvable_spec(path@, e@, r),
            },
            r matches Ok(p) ==> within_some(p@, self.readable_roots()),
            match self.check_read_spec(path@, resolved) {
                Ok(p) => r matches Ok(q) && q@ == p,
                Err(t) => r matches Err(e) && sandbox_error_text(e) == t,
            },
    {
        match resolved {
            Ok(p) => permit(p, self.readable.as_slice(), path),
            Err(e) => Err(SandboxError::Unresolvable { requested: path.to_owned(), source: e }),
        }
    }

    /// Starts permitting a write to `path`, given what resolving it gave.
    ///
    /// Unlike reads, the target need not exist yet: writes create files. A
    /// path that resolves is checked against the writable roots at once; one
    /// that does not goes on to [`FsGuard::check_write_leaf`].
    pub fn check_write(&self, path: &str, resolved: Result<String, String>) -> (r: WriteCheck)
        ensures
            match resolved {
                Ok(p) => r matches WriteCheck::Done(d) && permit_spec(
                    p@,
                    self.writable_roots(),
                    path@,
                    d,
                ),
                Err(_) => r is InspectLeaf,
            },
    {
        match resolved {
            Ok(p) => WriteCheck::Done(permit(p, self.writable.as_slice(), path)),
            Err(_) => WriteCheck::InspectLeaf,
        }
    }

    /// Continues a write check on a path that did not resolve, given whether
    /// the path itself is a symbolic link.
    ///
    /// Resolution fails the same way on a nonexistent path and on a dangling
    /// symbolic link. Resolving only the parent would approve the link, and
    /// the write would then follow it out of the root, so a link is refused
    /// outright. Otherwise the parent directory is to be resolved and the
    /// file name appended to it, so `..` in the path is still collapsed before
    /// the check.
    pub fn check_write_leaf(&self, path: &str, leaf_is_symlink: bool) -> (r: WriteCheck)
        ensures
            leaf_is_symlink ==> (r matches WriteCheck::Done(
                Err(SandboxError::PathNotAllowed { requested }),
            ) && requested@ == path@),
            !leaf_is_symlink ==> (match (path_parent(path@), path_file_name(path@)) {
                (Some(parent), Some(name)) => r matches WriteCheck::ResolveParent {
                    parent: p,
                    file_name: n,
                } && p@ == parent && n@ == name,
                _ => r matches WriteCheck::Done(Err(SandboxError::PathNotAllowed { requested }))
                    && requested@ == path@,
            }),
    {
        if leaf_is_symlink {
            return WriteCheck::Done(Err(SandboxError::PathNotAllowed { requested: path.to_owned() }));
        }
        let parent = match parent_of(path) {
            Some(p) => p,
            None => {
                return WriteCheck::Done(
                    Err(SandboxError::PathNotAllowed { requested: path.to_owned() }),
                );
            },
        };
        match file_name_of(path) {
            Some(name) => WriteCheck::ResolveParent { parent, file_name: name },
            None => WriteCheck::Done(Err(SandboxError::PathNotAllowed { requested: path.to_owned() })),
        }
    }

    /// Finishes a write check on a path that does not exist yet, given what
    /// resolving its parent gave: the resolved parent joined with `file_name`
    /// must lie beneath a writable root. When the parent does not resolve,
    /// the refusal names `path`, the path as the caller supplied it.
    pub fn check_write_parent(
        &self,
        path: &str,
        parent: &str,
        file_name: &str,
        resolved_parent: Result<String, String>,
    ) -> (r: Result<String, SandboxError>)
        ensures
            match resolved_parent {
                Ok(p) => permit_spec(path_join(p@, file_name@), self.writable_roots(), path@, r),
                Err(e) => unresolvable_spec(path@, e@, r),
            },
            r matches Ok(p) ==> within_some(p@, self.writable_roots()),
    {
        match resolved_parent {
            Ok(p) => {
                let target = join_path(p.as_str(), file_name);
                permit(target, self.writable.as_slice(), path)
            },
            Err(e) => Err(SandboxError::Unresolvable { requested: path.to_owned(), source: e }),
        }
    }
}

} // verus!
