use echo_sandbox::SandboxPolicy;

/// The foundational guarantee: a policy nobody configured grants nothing.
#[test]
fn default_policy_denies_everything() {
    let policy = SandboxPolicy::default();

    assert!(
        policy.readable_paths().is_empty(),
        "default policy must not grant read access to any path"
    );
    assert!(
        policy.writable_paths().is_empty(),
        "default policy must not grant write access to any path"
    );
    assert!(
        !policy.allows_network(),
        "default policy must not grant network access"
    );
}

#[test]
fn grants_accumulate_in_order_and_stay_separate() {
    let policy = SandboxPolicy::default()
        .allow_read("/usr")
        .allow_write("/tmp/work")
        .allow_read("/etc");

    assert_eq!(policy.readable_paths(), &["/usr".to_string(), "/etc".to_string()]);
    assert_eq!(policy.writable_paths(), &["/tmp/work".to_string()]);
    assert!(!policy.allows_network());
    assert!(policy.allow_network().allows_network());
}
