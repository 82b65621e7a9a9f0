use echo_sandbox::{ArgumentError, HelperArgs, SandboxError, SandboxPolicy};

fn strings(items: &[&str]) -> Vec<String> {
    items.iter().map(|s| s.to_string()).collect()
}

#[test]
fn encodes_grants_then_command() {
    let policy = SandboxPolicy::default()
        .allow_read("/usr")
        .allow_read("/lib")
        .allow_write("/tmp/w")
        .allow_network();
    let argv = HelperArgs::encode(&policy, "/bin/cat", &strings(&["a", "b"]));
    assert_eq!(
        argv,
        strings(&[
            "--ro", "/usr", "--ro", "/lib", "--rw", "/tmp/w", "--allow-network", "--", "/bin/cat",
            "a", "b"
        ])
    );
}

#[test]
fn round_trip_keeps_flag_like_paths_and_arguments() {
    let policy = SandboxPolicy::default().allow_read("--rw").allow_write("--");
    let args = strings(&["--ro", "--allow-network", "--"]);
    let argv = HelperArgs::encode(&policy, "--", &args);
    let decoded = HelperArgs::decode(&argv).unwrap();
    assert_eq!(decoded.policy.readable_paths(), &["--rw".to_string()]);
    assert_eq!(decoded.policy.writable_paths(), &["--".to_string()]);
    assert!(!decoded.policy.allows_network());
    assert_eq!(decoded.program, "--");
    assert_eq!(decoded.args, args);
}

#[test]
fn grants_may_come_in_any_order() {
    let decoded =
        HelperArgs::decode(&strings(&["--rw", "/w", "--allow-network", "--ro", "/r", "--", "p"]))
            .unwrap();
    assert_eq!(decoded.policy.readable_paths(), &["/r".to_string()]);
    assert_eq!(decoded.policy.writable_paths(), &["/w".to_string()]);
    assert!(decoded.policy.allows_network());
    assert_eq!(decoded.program, "p");
    assert!(decoded.args.is_empty());
}

fn refusal(argv: &[&str]) -> ArgumentError {
    match HelperArgs::decode(&strings(argv)) {
        Err(SandboxError::InvalidArguments { reason }) => reason,
        Err(other) => panic!("unexpected error {other:?}"),
        Ok(_) => panic!("malformed arguments were accepted"),
    }
}

/// A helper that cannot tell what it was asked to enforce must refuse.
#[test]
fn malformed_arguments_are_refused() {
    assert_eq!(
        refusal(&["--not-a-flag", "--", "/bin/touch", "x"]),
        ArgumentError::UnknownArgument { argument: "--not-a-flag".to_string() }
    );
    assert_eq!(refusal(&["--ro"]), ArgumentError::MissingPath { flag: "--ro".to_string() });
    assert_eq!(refusal(&["--ro", "/a", "--rw"]), ArgumentError::MissingPath { flag: "--rw".to_string() });
    assert_eq!(refusal(&["--ro", "/a"]), ArgumentError::MissingSeparator);
    assert_eq!(refusal(&[]), ArgumentError::MissingSeparator);
    assert_eq!(refusal(&["--allow-network", "--"]), ArgumentError::MissingProgram);
}

#[test]
fn error_messages() {
    let e = SandboxError::InvalidArguments { reason: ArgumentError::MissingPath { flag: "--ro".to_string() } };
    assert_eq!(e.message(), "invalid helper arguments: expected a path after --ro");
    assert_eq!(
        ArgumentError::UnknownArgument { argument: "-x".to_string() }.message(),
        "unknown argument: -x"
    );
    assert_eq!(ArgumentError::MissingSeparator.message(), "missing -- before the command");
    assert_eq!(ArgumentError::MissingProgram.message(), "no program after --");
}

/// A helper that cannot decode its arguments never gets as far as the command.
#[test]
fn malformed_arguments_do_not_run_the_command() {
    let argv = strings(&["--not-a-flag", "--", "/bin/touch", "/tmp/should-not-exist"]);
    assert!(matches!(
        HelperArgs::decode(&argv),
        Err(SandboxError::InvalidArguments { .. })
    ));
}
