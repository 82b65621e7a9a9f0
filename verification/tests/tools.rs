use echo_sandbox::edit::{after_read_check, after_write_check, edit_text, edited_output, EditStep};
use echo_sandbox::tools::{denied, failed};
use echo_sandbox::{BuiltinTool, SandboxError, SandboxPolicy, ToolError, ExecutionContext};

#[test]
fn tool_names() {
    assert_eq!(BuiltinTool::Read.name(), "read");
    assert_eq!(BuiltinTool::Write.name(), "write");
    assert_eq!(BuiltinTool::Edit.name(), "edit");
    assert_eq!(BuiltinTool::Find.name(), "find");
    assert_eq!(BuiltinTool::Grep.name(), "grep");
}

#[test]
fn edit_replaces_the_unique_occurrence() {
    assert_eq!(edit_text("/f", "let a = 1;\nlet b = 2;\n", "b = 2", "b = 3"), Ok("let a = 1;\nlet b = 3;\n".to_string()));
    assert_eq!(edit_text("/f", "", "", "new"), Ok("new".to_string()));
    assert_eq!(edit_text("/f", "abc", "b", "XY"), Ok("aXYc".to_string()));
}

#[test]
fn edit_refuses_absent_text() {
    assert_eq!(
        edit_text("/f", "abc", "x", "y"),
        Err(ToolError::Failed {
            subject: "edit /f".to_string(),
            detail: "the text to replace does not appear in the file".to_string(),
        })
    );
}

#[test]
fn edit_refuses_ambiguous_text() {
    assert_eq!(
        edit_text("/f", "x x x x x x x x x x x x", "x", "y"),
        Err(ToolError::Failed {
            subject: "edit /f".to_string(),
            detail: "the text to replace appears 12 times; it must be unique".to_string(),
        })
    );
    // The empty text matches around every character.
    assert_eq!(
        edit_text("/f", "ab", "", "y"),
        Err(ToolError::Failed {
            subject: "edit /f".to_string(),
            detail: "the text to replace appears 3 times; it must be unique".to_string(),
        })
    );
}

/// Overlapping occurrences count: in "aaa", "aa" appears at two positions,
/// so replacing it would be a guess.
#[test]
fn edit_refuses_overlapping_occurrences() {
    assert_eq!(
        edit_text("/f", "aaa", "aa", "b"),
        Err(ToolError::Failed {
            subject: "edit /f".to_string(),
            detail: "the text to replace appears 2 times; it must be unique".to_string(),
        })
    );
    assert_eq!(
        edit_text("/f", "abab", "aba", "x"),
        Ok("xb".to_string())
    );
}

#[test]
fn edit_counts_every_position() {
    for (h, p) in [("aaaa", "aa"), ("abab", "aba"), ("ababa", "aba"), ("ééé", "é"), ("", "x"), ("xyz", ""), ("", "")] {
        let positions = (0..=h.len())
            .filter(|&i| h.is_char_boundary(i) && h[i..].starts_with(p))
            .count();
        match edit_text("/f", h, p, "Z") {
            Ok(t) => {
                assert_eq!(positions, 1, "{h:?} {p:?}");
                assert_eq!(t, h.replacen(p, "Z", 1));
            }
            Err(ToolError::Failed { detail, .. }) => {
                assert_ne!(positions, 1, "{h:?} {p:?}");
                if positions > 1 {
                    assert!(detail.contains(&format!("appears {positions} times")), "{detail}");
                }
            }
            Err(other) => panic!("unexpected {other:?}"),
        }
    }
}

#[test]
fn tool_errors() {
    let e = denied("/etc/passwd", &SandboxError::PathNotAllowed { requested: "/etc/passwd".to_string() });
    assert_eq!(
        e,
        ToolError::Denied {
            subject: "/etc/passwd".to_string(),
            reason: "path is outside every allowed root: /etc/passwd".to_string(),
        }
    );
    assert_eq!(
        failed("read", "/f", "Permission denied".to_string()),
        ToolError::Failed { subject: "read /f".to_string(), detail: "Permission denied".to_string() }
    );
    assert_eq!(edited_output("/work/f").content, "edited /work/f");
}

#[test]
fn context_keeps_policy_and_guard() {
    let policy = SandboxPolicy::default().allow_read("/r").allow_write("/w");
    let ctx = ExecutionContext::new(policy, vec![Some("/r".to_string())], vec![None]).unwrap();
    assert_eq!(ctx.policy().readable_paths(), &["/r".to_string()]);
    assert!(ctx.guard().check_read("/r/x", Ok("/r/x".to_string())).is_ok());
    // The write root did not resolve, so nothing is writable.
    match ctx.guard().check_write("/w/x", Ok("/w/x".to_string())) {
        echo_sandbox::WriteCheck::Done(r) => assert!(r.is_err()),
        _ => panic!("decided at once"),
    }
}

/// Both grants are checked before anything is read; a failed check stops the
/// edit with the sandbox's reason.
#[test]
fn edit_checks_both_grants_before_reading() {
    let refused = || SandboxError::PathNotAllowed { requested: "/r/f".to_string() };
    match after_read_check("/r/f", Err(refused())) {
        EditStep::Refused(ToolError::Denied { subject, reason }) => {
            assert_eq!(subject, "/r/f");
            assert_eq!(reason, "path is outside every allowed root: /r/f");
        }
        _ => panic!("a failed read check refuses the edit"),
    }
    let readable = match after_read_check("/r/f", Ok("/r/f".to_string())) {
        EditStep::CheckWrite { readable } => readable,
        _ => panic!("a passed read check goes on to the write check"),
    };
    assert!(matches!(
        after_write_check("/r/f", readable.clone(), Err(refused())),
        EditStep::Refused(ToolError::Denied { .. })
    ));
    match after_write_check("/r/f", readable, Ok("/r/f".to_string())) {
        EditStep::Proceed { readable, writable } => {
            assert_eq!(readable, "/r/f");
            assert_eq!(writable, "/r/f");
        }
        _ => panic!("both checks passed"),
    }
}
