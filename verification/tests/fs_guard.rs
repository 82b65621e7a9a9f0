use echo_sandbox::fs_guard::{AuditEvent, AuditOutcome};
use echo_sandbox::path::{file_name_of, is_within, join_path, path_components};
use echo_sandbox::{FsGuard, SandboxError, WriteCheck};

fn guard() -> FsGuard {
    FsGuard::new(
        vec![Some("/work".to_string()), None, Some("/usr".to_string())],
        vec![Some("/work/out".to_string()), None],
    )
    .unwrap()
}

fn comps(s: &str) -> Vec<String> {
    path_components(s).into_iter().map(|c| c.into_iter().collect()).collect()
}

#[test]
fn components_follow_std() {
    for p in ["/a//b/./c/", "./x/../y", ".", "", "a/b", "//", "/", "a/.", "./", ".//a", "/./a", "..", "a/../b/"] {
        let ours = comps(p);
        let std: Vec<String> = std::path::Path::new(p)
            .components()
            .map(|c| c.as_os_str().to_string_lossy().into_owned())
            .collect();
        assert_eq!(ours, std, "components of {p:?}");
    }
}

/// Compares whole path components, not string prefixes.
#[test]
fn sibling_with_a_shared_prefix_is_not_inside() {
    assert!(!is_within("/work-secrets", "/work"));
    assert!(!is_within("/work-secrets/key", "/work"));
    assert!(is_within("/work/secrets", "/work"));
    assert!(is_within("/work", "/work"));
    assert!(is_within("/work/", "/work"));
    assert!(is_within("/anything", "/"));
    assert!(!is_within("/work", "/work/sub"));
}

#[test]
fn within_matches_std_starts_with() {
    let cases = [
        ("/work/a", "/work"),
        ("/work-x", "/work"),
        ("/work//a/", "/work/"),
        ("work/a", "/work"),
        ("./a/b", "./a"),
        ("a/b", "./a"),
        ("/a/./b", "/a/b"),
    ];
    for (p, b) in cases {
        assert_eq!(is_within(p, b), std::path::Path::new(p).starts_with(b), "{p:?} in {b:?}");
    }
}

#[test]
fn unresolved_roots_are_dropped() {
    let g = guard();
    assert_eq!(
        g.check_read("/usr/bin/ls", Ok("/usr/bin/ls".to_string())),
        Ok("/usr/bin/ls".to_string())
    );
}

#[test]
fn read_outside_every_root_is_refused() {
    let g = guard();
    assert_eq!(
        g.check_read("/work/../etc/passwd", Ok("/etc/passwd".to_string())),
        Err(SandboxError::PathNotAllowed { requested: "/work/../etc/passwd".to_string() })
    );
    assert_eq!(
        g.check_read("/work-secrets/k", Ok("/work-secrets/k".to_string())),
        Err(SandboxError::PathNotAllowed { requested: "/work-secrets/k".to_string() })
    );
}

#[test]
fn unresolvable_read_is_refused() {
    let g = guard();
    let err = g.check_read("/work/missing", Err("No such file or directory".to_string())).unwrap_err();
    assert_eq!(
        err,
        SandboxError::Unresolvable {
            requested: "/work/missing".to_string(),
            source: "No such file or directory".to_string(),
        }
    );
    assert_eq!(err.message(), "could not resolve path /work/missing: No such file or directory");
    assert_eq!(err.source(), Some("No such file or directory".to_string()));
}

/// Read access does not carry write access.
#[test]
fn read_only_root_cannot_be_written() {
    let g = guard();
    match g.check_write("/work/a.txt", Ok("/work/a.txt".to_string())) {
        WriteCheck::Done(r) => assert_eq!(
            r,
            Err(SandboxError::PathNotAllowed { requested: "/work/a.txt".to_string() })
        ),
        _ => panic!("an existing path is decided at once"),
    }
    match g.check_write("/work/out/a.txt", Ok("/work/out/a.txt".to_string())) {
        WriteCheck::Done(r) => assert_eq!(r, Ok("/work/out/a.txt".to_string())),
        _ => panic!("an existing path is decided at once"),
    }
}

#[test]
fn new_file_is_checked_through_its_parent() {
    let g = guard();
    assert!(matches!(g.check_write("/work/out/new.txt", Err("missing".into())), WriteCheck::InspectLeaf));
    match g.check_write_leaf("/work/out/sub/../new.txt", false) {
        WriteCheck::ResolveParent { parent, file_name } => {
            assert_eq!(parent, "/work/out/sub/..");
            assert_eq!(file_name, "new.txt");
            assert_eq!(
                g.check_write_parent("/work/out/sub/../new.txt", &parent, &file_name, Ok("/work/out".to_string())),
                Ok("/work/out/new.txt".to_string())
            );
            assert_eq!(
                g.check_write_parent("/work/out/sub/../new.txt", &parent, &file_name, Ok("/work".to_string())),
                Err(SandboxError::PathNotAllowed { requested: "/work/out/sub/../new.txt".to_string() })
            );
            assert_eq!(
                g.check_write_parent("/work/out/sub/../new.txt", &parent, &file_name, Err("gone".to_string())),
                Err(SandboxError::Unresolvable { requested: "/work/out/sub/../new.txt".to_string(), source: "gone".to_string() })
            );
        }
        _ => panic!("expected the parent to be resolved next"),
    }
}

/// A dangling symbolic link must not be approved through its parent.
#[test]
fn symlink_leaf_is_refused() {
    let g = guard();
    match g.check_write_leaf("/work/out/link", true) {
        WriteCheck::Done(r) => assert_eq!(
            r,
            Err(SandboxError::PathNotAllowed { requested: "/work/out/link".to_string() })
        ),
        _ => panic!("a symlink leaf is refused outright"),
    }
}

#[test]
fn path_without_parent_or_name_is_refused() {
    let g = guard();
    for p in ["/", "/work/out/.."] {
        match g.check_write_leaf(p, false) {
            WriteCheck::Done(r) => {
                assert_eq!(r, Err(SandboxError::PathNotAllowed { requested: p.to_string() }))
            }
            _ => panic!("{p:?} has no parent or no file name"),
        }
    }
}

#[test]
fn parent_and_name_follow_std() {
    let g = guard();
    match g.check_write_leaf("/work/out/a/b.txt/", false) {
        WriteCheck::ResolveParent { parent, file_name } => {
            assert_eq!(parent, "/work/out/a");
            assert_eq!(file_name, "b.txt");
        }
        _ => panic!("expected the parent to be resolved next"),
    }
    assert_eq!(
        g.check_write_parent("/x", "/", "new", Ok("/".to_string())),
        Err(SandboxError::PathNotAllowed { requested: "/x".to_string() })
    );
    let root_writer = FsGuard::new(vec![], vec![Some("/".to_string())]).unwrap();
    assert_eq!(root_writer.check_write_parent("/new", "/", "new", Ok("/".to_string())), Ok("/new".to_string()));
}

#[test]
fn sandbox_error_messages() {
    assert_eq!(
        SandboxError::PathNotAllowed { requested: "/x".to_string() }.message(),
        "path is outside every allowed root: /x"
    );
    assert_eq!(
        SandboxError::Unsupported { detail: "no landlock".to_string() }.message(),
        "sandboxing is not available here: no landlock"
    );
    assert_eq!(
        SandboxError::Landlock { detail: "bad fd".to_string() }.message(),
        "landlock refused the ruleset: bad fd"
    );
    assert_eq!(
        SandboxError::SpawnFailed { detail: "exec".to_string(), source: "ENOENT".to_string() }.message(),
        "exec: ENOENT"
    );
    assert_eq!(SandboxError::PathNotAllowed { requested: "/x".to_string() }.source(), None);
}

#[test]
fn file_name_and_join_follow_std() {
    for p in ["/a/b.txt", "/a/b/", "/", "", ".", "..", "a/..", "foo.txt/.", "./x", "/x/./", "a//b"] {
        let std = std::path::Path::new(p).file_name().map(|n| n.to_string_lossy().into_owned());
        assert_eq!(file_name_of(p), std, "file name of {p:?}");
    }
    for (b, n) in [("/a", "b"), ("/a/", "b"), ("", "b"), ("/", "b"), ("/a", "/c"), ("a", "b.txt")] {
        let std = std::path::Path::new(b).join(n).to_string_lossy().into_owned();
        assert_eq!(join_path(b, n), std, "{b:?} joined with {n:?}");
    }
}

fn event(operation: &str, subject: &str, outcome: AuditOutcome) -> AuditEvent {
    AuditEvent { operation: operation.to_string(), subject: subject.to_string(), outcome }
}

#[test]
fn every_resolved_check_is_audited() {
    let g = guard();
    let outside = || AuditOutcome::Denied { reason: "outside every allowed root".to_string() };
    assert_eq!(
        g.read_event("/work/a", &Ok("/work/a".to_string())),
        Some(event("read", "/work/a", AuditOutcome::Allowed))
    );
    assert_eq!(
        g.read_event("/work/../etc", &Ok("/etc".to_string())),
        Some(event("read", "/work/../etc", outside()))
    );
    assert_eq!(g.read_event("/work/missing", &Err("gone".to_string())), None);
    assert_eq!(
        g.write_event("/work/a", &Ok("/work/a".to_string())),
        Some(event("write", "/work/a", outside()))
    );
    assert_eq!(g.write_event("/work/out/new", &Err("gone".to_string())), None);
    assert_eq!(
        g.write_leaf_event("/work/out/link", true),
        Some(event(
            "write",
            "/work/out/link",
            AuditOutcome::Denied { reason: "symlink leaf may resolve outside the allowed root".to_string() }
        ))
    );
    assert_eq!(g.write_leaf_event("/work/out/new", false), None);
    assert_eq!(
        g.write_parent_event("/work/out/x/../new", "new", &Ok("/work/out".to_string())),
        Some(event("write", "/work/out/x/../new", AuditOutcome::Allowed))
    );
    assert_eq!(
        g.write_parent_event("/work/new", "new", &Ok("/work".to_string())),
        Some(event("write", "/work/new", outside()))
    );
    assert_eq!(g.write_parent_event("/work/out/new", "new", &Err("gone".to_string())), None);
}

/// Adding roots never revokes access, and no roots grant nothing.
#[test]
fn more_roots_never_revoke_and_no_roots_grant_nothing() {
    let narrow = FsGuard::new(vec![Some("/work".to_string())], vec![]).unwrap();
    let wide = FsGuard::new(vec![Some("/usr".to_string()), Some("/work".to_string())], vec![]).unwrap();
    let none = FsGuard::new(vec![], vec![]).unwrap();
    let target = || Ok("/work/a".to_string());
    assert_eq!(narrow.check_read("/work/a", target()), Ok("/work/a".to_string()));
    assert_eq!(wide.check_read("/work/a", target()), Ok("/work/a".to_string()));
    assert_eq!(
        none.check_read("/work/a", target()),
        Err(SandboxError::PathNotAllowed { requested: "/work/a".to_string() })
    );
}
