use echo_sandbox::ruleset::{check_enforcement, landlock_failed, landlock_plan, Enforcement};
use echo_sandbox::{SandboxError, SandboxPolicy};
use landlock::{Access, AccessFs, ABI};

#[test]
fn plan_grants_read_and_write_rights_narrowed_for_files() {
    let policy = SandboxPolicy::default()
        .allow_read("/usr")
        .allow_read("/etc/ld.so.cache")
        .allow_write("/tmp/w");
    let plan = landlock_plan(&policy, &[true, false], &[true]);
    assert_eq!(plan.handled, 8191);
    let rules: Vec<(String, u64)> = plan.rules.iter().map(|r| (r.path.clone(), r.rights)).collect();
    assert_eq!(
        rules,
        vec![
            ("/usr".to_string(), 13),
            ("/etc/ld.so.cache".to_string(), 5),
            ("/tmp/w".to_string(), 8191),
        ]
    );
}

#[test]
fn rights_match_landlock() {
    let policy = SandboxPolicy::default().allow_read("/r").allow_write("/w").allow_write("/f");
    let plan = landlock_plan(&policy, &[true], &[true, false]);
    assert_eq!(plan.handled, AccessFs::from_all(ABI::V1).bits());
    assert_eq!(plan.rules[0].rights, AccessFs::from_read(ABI::V1).bits());
    assert_eq!(plan.rules[1].rights, AccessFs::from_all(ABI::V1).bits());
    assert_eq!(
        plan.rules[2].rights,
        (AccessFs::from_all(ABI::V1) & AccessFs::from_file(ABI::V1)).bits()
    );
}

#[test]
fn missing_observation_narrows_to_file_rights() {
    let policy = SandboxPolicy::default().allow_write("/tmp/w");
    let plan = landlock_plan(&policy, &[], &[]);
    assert_eq!(plan.rules[0].rights, 7);
}

#[test]
fn enforcing_nothing_is_a_failure() {
    assert_eq!(
        check_enforcement(Enforcement::NotEnforced),
        Err(SandboxError::Unsupported {
            detail: "kernel accepted the ruleset but enforced none of it".to_string()
        })
    );
    assert_eq!(check_enforcement(Enforcement::Full), Ok(()));
    assert_eq!(
        check_enforcement(Enforcement::Partial),
        Err(SandboxError::Unsupported { detail: "kernel enforced only part of the ruleset".to_string() })
    );
    assert_eq!(
        landlock_failed("Invalid argument".to_string()),
        SandboxError::Landlock { detail: "Invalid argument".to_string() }
    );
}
