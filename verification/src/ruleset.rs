use vstd::prelude::*;

use crate::error::SandboxError;
use crate::policy::SandboxPolicy;
use landlock::Access;

verus! {

/// Landlock's read rights for the first ABI: execute, read file, read directory.
pub open spec fn read_rights_v1() -> u64 {
    13
}

/// Landlock's write rights for the first ABI: write file, remove directory,
/// remove file, and making each kind of file system node.
pub open spec fn write_rights_v1() -> u64 {
    8178
}

/// Every right of the first ABI: the read rights and the write rights.
pub open spec fn all_rights_v1() -> u64 {
    8191
}

/// The rights of the first ABI that a non-directory can carry: execute,
/// write file, read file.
pub open spec fn file_rights_v1() -> u64 {
    7
}

/// Calls `landlock::AccessFs::from_read(ABI::V1)`. Trusted: landlock's source
/// builds it from `Execute | ReadFile | ReadDir`, whose bits are 1, 4 and 8.
#[verifier::external_body]
fn read_rights() -> (r: u64)
    ensures
        r == read_rights_v1(),
{
    landlock::AccessFs::from_read(landlock::ABI::V1).bits()
}

/// Calls `landlock::AccessFs::from_all(ABI::V1)`. Trusted: landlock's source
/// makes it `from_read | from_write`, the thirteen rights of the first ABI,
/// bits 1 through 4096.
#[verifier::external_body]
fn all_rights() -> (r: u64)
    ensures
        r == all_rights_v1(),
{
    landlock::AccessFs::from_all(landlock::ABI::V1).bits()
}

/// Calls `landlock::AccessFs::from_file(ABI::V1)`. Trusted: landlock's source
/// makes it `from_all & (ReadFile | WriteFile | Execute | Truncate | IoctlDev
/// | ResolveUnix)`, which under the first ABI is bits 1, 2 and 4.
#[verifier::external_body]
fn file_rights() -> (r: u64)
    ensures
        r == file_rights_v1(),
{
    landlock::AccessFs::from_file(landlock::ABI::V1).bits()
}

/// One Landlock rule: `rights` granted beneath `path`.
pub struct PathRule {
    pub path: String,
    pub rights: u64,
}

/// The whole ruleset to install: the rights it handles (everything not granted
/// by a rule is denied) and one rule per granted path.
pub struct LandlockPlan {
    pub handled: u64,
    pub rules: Vec<PathRule>,
}

/// The rights a path gets: directory-only rights are invalid on a regular
/// file, and the kernel rejects the whole ruleset if one is attached to it,
/// so a non-directory gets the intersection with the file rights.
pub open spec fn narrowed(rights: u64, is_dir: bool) -> u64 {
    if is_dir {
        rights
    } else {
        rights & file_rights_v1()
    }
}

/// Whether the `i`th path was observed to be a directory.
pub open spec fn observed_dir(dirs: Seq<bool>, i: int) -> bool {
    i < dirs.len() && dirs[i]
}

/// The rules for `paths`, each granted `rights`, narrowed for non-directories.
pub open spec fn rules_spec(paths: Seq<Seq<char>>, rights: u64, dirs: Seq<bool>) -> Seq<
    (Seq<char>, u64),
> {
    Seq::new(paths.len(), |i: int| (paths[i], narrowed(rights, observed_dir(dirs, i))))
}

pub open spec fn rules_view(rules: Seq<PathRule>) -> Seq<(Seq<char>, u64)> {
    rules.map_values(|r: PathRule| (r.path@, r.rights))
}

fn push_rules(out: &mut Vec<PathRule>, paths: &[String], rights: u64, dirs: &[bool])
    ensures
        rules_view(final(out)@) == rules_view(old(out)@) + rules_spec(
            paths.deep_view(),
            rights,
            dirs@,
        ),
{
    let ghost start = rules_view(out@);
    let file = file_rights();
    let mut k: usize = 0;
    while k < paths.len()
        invariant
            k <= paths.len(),
            file == file_rights_v1(),
            rules_view(out@) == start + rules_spec(paths.deep_view(), rights, dirs@).take(k as int),
        decreases paths.len() - k,
    {
        let is_dir = k < dirs.len() && dirs[k];
        let r = if is_dir {
            rights
        } else {
            rights & file
        };
        let ghost prev = rules_view(out@);
        out.push(PathRule { path: paths[k].clone(), rights: r });
        assert(rules_view(out@) =~= prev.push((paths[k as int]@, r)));
        assert(rules_spec(paths.deep_view(), rights, dirs@).take(k + 1) =~= rules_spec(
            paths.deep_view(),
            rights,
            dirs@,
        ).take(k as int).push((paths.deep_view()[k as int], r)));
        k = k + 1;
    }
    assert(rules_spec(paths.deep_view(), rights, dirs@).take(k as int) =~= rules_spec(
        paths.deep_view(),
        rights,
        dirs@,
    ));
}

/// The Landlock ruleset that enforces `policy`: every right of the first ABI
/// is handled; each readable root gets the read rights and each writable root
/// every right, in the policy's order, readable roots first.
/// `readable_is_dir[i]` and `writable_is_dir[i]` say whether the `i`th root is
/// a directory; a root with no such observation is treated as a file, which
/// only narrows its rights.
pub fn landlock_plan(policy: &SandboxPolicy, readable_is_dir: &[bool], writable_is_dir: &[bool]) -> (r:
    LandlockPlan)
    ensures
        r.handled == all_rights_v1(),
        rules_view(r.rules@) == rules_spec(
            policy.readable_view(),
            read_rights_v1(),
            readable_is_dir@,
        ) + rules_spec(policy.writable_view(), all_rights_v1(), writable_is_dir@),
{
    let read = read_rights();
    let all = all_rights();
    let mut rules: Vec<PathRule> = Vec::new();
    assert(rules_view(rules@) =~= Seq::<(Seq<char>, u64)>::empty());
    push_rules(&mut rules, policy.readable_paths(), read, readable_is_dir);
    push_rules(&mut rules, policy.writable_paths(), all, writable_is_dir);
    assert(rules_view(rules@) =~= rules_spec(
        policy.readable_view(),
        read_rights_v1(),
        readable_is_dir@,
    ) + rules_spec(policy.writable_view(), all_rights_v1(), writable_is_dir@));
    LandlockPlan { handled: all, rules }
}

/// Narrowing for a non-directory only ever removes rights: a file never ends
/// up with a right its grant did not give.
pub proof fn narrowing_never_adds_rights(rights: u64, is_dir: bool)
    ensures
        narrowed(rights, is_dir) & rights == narrowed(rights, is_dir),
{
    assert(rights & 7u64 & rights == rights & 7u64) by (bit_vector);
    assert(rights & rights == rights) by (bit_vector);
}

/// A read-only grant carries no write right, whether its root is a directory
/// or a file.
pub proof fn read_grant_carries_no_write(is_dir: bool)
    ensures
        narrowed(read_rights_v1(), is_dir) & write_rights_v1() == 0,
{
    assert(13u64 & 8178u64 == 0) by (bit_vector);
    assert(13u64 & 7u64 & 8178u64 == 0) by (bit_vector);
}

/// How much of a ruleset the kernel enforces.
#[derive(Debug, Clone, Copy, PartialEq, Eq)]
pub enum Enforcement {
    /// Every requested restriction is in force.
    Full,
    /// Some requested restrictions are in force.
    Partial,
    /// None is: the kernel does not support Landlock, or not what was asked.
    NotEnforced,
}

/// Decides whether a ruleset the kernel accepted leaves the process
/// sandboxed. Only full enforcement does: a ruleset enforced in part would
/// leave the caller believing in restrictions that are not in place, so it
/// fails as a ruleset enforced not at all does. The sandbox fails closed.
pub fn check_enforcement(status: Enforcement) -> (r: Result<(), SandboxError>)
    ensures
        status is Full ==> r is Ok,
        status is Partial ==> (r matches Err(SandboxError::Unsupported { detail }) && detail@
            == "kernel enforced only part of the ruleset"@),
        status is NotEnforced ==> (r matches Err(SandboxError::Unsupported { detail }) && detail@
            == "kernel accepted the ruleset but enforced none of it"@),
{
    match status {
        Enforcement::Full => Ok(()),
        Enforcement::Partial => Err(
            SandboxError::Unsupported {
                detail: String::from_str("kernel enforced only part of the ruleset"),
            },
        ),
        Enforcement::NotEnforced => Err(
            SandboxError::Unsupported {
                detail: String::from_str("kernel accepted the ruleset but enforced none of it"),
            },
        ),
    }
}

/// The error for a failure Landlock reported, carrying its own reason:
/// "refused" without a cause is unactionable for whoever has to work out which
/// path or access right it objected to.
pub fn landlock_failed(detail: String) -> (e: SandboxError)
    ensures
        e matches SandboxError::Landlock { detail: d } && d@ == detail@,
{
    SandboxError::Landlock { detail }
}

} // verus!
