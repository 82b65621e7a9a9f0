use echo_sandbox::{helper_mode_args, HelperArgs, SandboxError, SandboxPolicy, SandboxedCommand, HELPER_FLAG};

/// The location of the running binary is only consulted without an explicit helper.
fn unused_exe() -> Result<String, String> {
    Err("not consulted: an explicit helper is set".to_string())
}

/// The policy must reach the helper intact: a grant lost here is a permission
/// the tool silently does not get, and one invented here is one it should not
/// have had.
#[test]
fn carries_the_policy_into_the_command_line() {
    let (_, argv) = SandboxedCommand::new("/bin/sh", SandboxPolicy::default().allow_read("/usr"))
        .arg("-c")
        .arg("true")
        .helper("/nonexistent/helper")
        .command_line(unused_exe())
        .unwrap();

    assert!(argv.windows(2).any(|w| w == ["--ro", "/usr"]));
    assert_eq!(&argv[argv.len() - 3..], &["/bin/sh", "-c", "true"]);
}

/// An explicit helper suppresses the dispatch flag: that binary is already a
/// helper and does not need telling.
#[test]
fn explicit_helper_takes_no_dispatch_flag() {
    let (helper, argv) = SandboxedCommand::new("/bin/true", SandboxPolicy::default())
        .helper("/some/helper")
        .command_line(unused_exe())
        .unwrap();

    assert_eq!(std::path::Path::new(&helper), std::path::Path::new("/some/helper"));
    assert!(!argv.contains(&HELPER_FLAG.to_string()));
}

/// Without an explicit helper, the command re-runs the current executable
/// with the dispatch flag first.
#[test]
fn defaults_to_re_executing_the_current_binary() {
    let (helper, argv) = SandboxedCommand::new("/bin/true", SandboxPolicy::default())
        .command_line(Ok("/opt/echo/bin/echo".to_string()))
        .unwrap();

    assert_eq!(helper, "/opt/echo/bin/echo");
    assert_eq!(argv.first().map(String::as_str), Some(HELPER_FLAG));
    assert_eq!(argv, vec![HELPER_FLAG.to_string(), "--".to_string(), "/bin/true".to_string()]);
}

#[test]
fn missing_current_executable_is_a_spawn_failure() {
    let err = SandboxedCommand::new("/bin/true", SandboxPolicy::default())
        .command_line(Err("no such file".to_string()))
        .unwrap_err();

    assert_eq!(
        err,
        SandboxError::SpawnFailed {
            detail: "could not locate the current executable".to_string(),
            source: "no such file".to_string(),
        }
    );
}

#[test]
fn helper_mode_needs_the_flag_right_after_the_program() {
    let args: Vec<String> = vec!["echo".into(), HELPER_FLAG.into(), "--".into(), "/bin/true".into()];
    assert_eq!(
        helper_mode_args(&args),
        Some(vec!["--".to_string(), "/bin/true".to_string()])
    );

    let normal: Vec<String> = vec!["echo".into(), "--".into(), HELPER_FLAG.into()];
    assert_eq!(helper_mode_args(&normal), None);
    assert_eq!(helper_mode_args(&["echo".to_string()]), None);
}

#[test]
fn command_line_decodes_back_to_the_command() {
    let policy = SandboxPolicy::default()
        .allow_read("/usr")
        .allow_write("/tmp/out")
        .allow_network();
    let (_, argv) = SandboxedCommand::new("/bin/sh", policy)
        .arg("-c")
        .arg("--rw /etc")
        .command_line(Ok("/bin/echo".to_string()))
        .unwrap();

    let rest = helper_mode_args(&[vec!["echo".to_string()], argv].concat()).unwrap();
    let decoded = HelperArgs::decode(&rest).unwrap();
    assert_eq!(decoded.policy.readable_paths(), &["/usr".to_string()]);
    assert_eq!(decoded.policy.writable_paths(), &["/tmp/out".to_string()]);
    assert!(decoded.policy.allows_network());
    assert_eq!(decoded.program, "/bin/sh");
    assert_eq!(decoded.args, vec!["-c".to_string(), "--rw /etc".to_string()]);
}
