//! The `grep` and `find` walks, driven over a small in-memory tree.
//!
//! Each entry is re-checked rather than trusted because its parent was
//! allowed: a symlink inside a readable directory can point anywhere.

use echo_sandbox::search::{grep_file, name_matches, render_listing, SearchWalk};
use echo_sandbox::{ExecutionContext, SandboxPolicy, ToolError, ToolOutput};

/// One directory entry: where it is listed, where it resolves, whether it is
/// a directory, and its text.
struct Entry {
    listed: &'static str,
    resolved: &'static str,
    is_dir: bool,
    text: &'static str,
}

fn entry(listed: &'static str, resolved: &'static str, is_dir: bool, text: &'static str) -> Entry {
    Entry { listed, resolved, is_dir, text }
}

fn context(readable: &[&str]) -> ExecutionContext {
    let policy = readable.iter().fold(SandboxPolicy::default(), |p, r| p.allow_read(r));
    ExecutionContext::new(policy, readable.iter().map(|r| Some(r.to_string())).collect(), vec![]).unwrap()
}

fn parent(p: &str) -> &str {
    &p[..p.rfind('/').unwrap()]
}

enum Mode<'a> {
    Grep(&'a str),
    Find(&'a str),
}

fn run(ctx: &ExecutionContext, root: &str, tree: &[Entry], mode: Mode) -> Result<ToolOutput, ToolError> {
    let mut walk = SearchWalk::start(ctx.guard(), root, Ok(root.to_string()))?;
    while let Some(dir) = walk.next_dir() {
        for e in tree.iter().filter(|e| parent(e.listed) == dir) {
            let resolved = if e.resolved.is_empty() { Err("dangling".to_string()) } else { Ok(e.resolved.to_string()) };
            if let Some(file) = walk.visit(ctx.guard(), e.listed, resolved, e.is_dir) {
                match mode {
                    Mode::Grep(pattern) => {
                        let target = tree.iter().find(|t| t.listed == file.path()).map(|t| t.text);
                        if let Some(text) = target {
                            walk.record_lines(file, text, pattern);
                        }
                    }
                    Mode::Find(name) => {
                        let file_name = e.listed.rsplit('/').next().unwrap();
                        walk.record_name_match(file, file_name, name);
                    }
                }
            }
        }
    }
    Ok(walk.finish())
}

#[test]
fn grep_finds_matching_lines_with_locations() {
    let ctx = context(&["/root"]);
    let tree = [entry("/root/a.rs", "/root/a.rs", false, "fn alpha() {}\nfn beta() {}\n")];
    let out = run(&ctx, "/root", &tree, Mode::Grep("beta")).unwrap();

    assert!(out.content.contains("a.rs:2"), "no location: {}", out.content);
    assert!(out.content.contains("fn beta()"), "no line: {}", out.content);
    assert_eq!(out.content, "/root/a.rs:2: fn beta() {}");
}

#[test]
fn grep_searches_subdirectories() {
    let ctx = context(&["/root"]);
    let tree = [
        entry("/root/sub", "/root/sub", true, ""),
        entry("/root/sub/deep.txt", "/root/sub/deep.txt", false, "needle here\n"),
    ];
    let out = run(&ctx, "/root", &tree, Mode::Grep("needle")).unwrap();

    assert!(out.content.contains("deep.txt"), "got: {}", out.content);
}

#[test]
fn grep_reports_no_matches_rather_than_failing() {
    let ctx = context(&["/root"]);
    let tree = [entry("/root/a.txt", "/root/a.txt", false, "nothing\n")];
    let out = run(&ctx, "/root", &tree, Mode::Grep("absent")).unwrap();

    assert_eq!(out.content, "no matches");
}

/// A symlink in a searched directory must not leak the contents of its target.
#[test]
fn grep_does_not_follow_a_symlink_out_of_the_root() {
    let ctx = context(&["/root"]);
    let tree = [
        entry("/root/escape", "/elsewhere", false, ""),
        entry("/elsewhere/secret.txt", "/elsewhere/secret.txt", false, "SECRET-NEEDLE\n"),
    ];
    let out = run(&ctx, "/root", &tree, Mode::Grep("SECRET-NEEDLE")).unwrap();

    assert!(
        !out.content.contains("SECRET-NEEDLE"),
        "grep followed a symlink outside the allowed root: {}",
        out.content
    );
}

#[test]
fn grep_refuses_a_root_outside_the_policy() {
    let ctx = context(&["/tmp/allowed"]);
    let err = run(&ctx, "/tmp/elsewhere", &[], Mode::Grep("x")).unwrap_err();

    assert!(matches!(err, ToolError::Denied { .. }), "got {err:?}");
}

#[test]
fn find_matches_file_names() {
    let ctx = context(&["/root"]);
    let tree = [
        entry("/root/sub", "/root/sub", true, ""),
        entry("/root/sub/target.rs", "/root/sub/target.rs", false, ""),
        entry("/root/other.txt", "/root/other.txt", false, ""),
    ];
    let out = run(&ctx, "/root", &tree, Mode::Find("target")).unwrap();

    assert!(out.content.contains("target.rs"), "got: {}", out.content);
    assert!(!out.content.contains("other.txt"), "got: {}", out.content);
}

/// The same symlink guarantee for `find`: names outside the root stay hidden.
#[test]
fn find_does_not_follow_a_symlink_out_of_the_root() {
    let ctx = context(&["/root"]);
    let tree = [
        entry("/root/escape", "/elsewhere", true, ""),
        entry("/elsewhere/secret-name.txt", "/elsewhere/secret-name.txt", false, ""),
    ];
    let out = run(&ctx, "/root", &tree, Mode::Find("secret-name")).unwrap();

    assert!(
        !out.content.contains("secret-name"),
        "find followed a symlink outside the allowed root: {}",
        out.content
    );
}

#[test]
fn unresolvable_entries_are_skipped() {
    let ctx = context(&["/root"]);
    let tree = [
        entry("/root/dangling", "", false, ""),
        entry("/root/kept.txt", "/root/kept.txt", false, ""),
    ];
    let out = run(&ctx, "/root", &tree, Mode::Find("")).unwrap();
    assert_eq!(out.content, "/root/kept.txt");
}

#[test]
fn grep_lines_are_numbered_trimmed_and_crlf_aware() {
    let hits = grep_file("/f", "  a needle \r\nplain\r\n\tneedle\u{3000}\nlast needle\r", "needle");
    assert_eq!(
        hits,
        vec![
            "/f:1: a needle".to_string(),
            "/f:3: needle".to_string(),
            "/f:4: last needle".to_string(),
        ]
    );
    // The empty pattern matches every line; no empty line follows a final newline.
    assert_eq!(grep_file("/f", "x\n\ny\n", "").len(), 3);
    assert!(grep_file("/f", "", "").is_empty());
    let many = "n\n".repeat(12);
    assert_eq!(grep_file("/f", &many, "n")[11], "/f:12: n");
}

#[test]
fn grep_numbering_matches_std_lines() {
    let text = "one\r\ntwo\n\nthree\rfour\nfive";
    let std: Vec<String> = text
        .lines()
        .enumerate()
        .filter(|(_, l)| l.contains('o'))
        .map(|(n, l)| format!("/t:{}: {}", n + 1, l.trim()))
        .collect();
    assert_eq!(grep_file("/t", text, "o"), std);
}

#[test]
fn listing_is_sorted_and_joined() {
    let out = render_listing(vec!["b".to_string(), "a".to_string(), "B".to_string(), "é".to_string(), "a".to_string()]);
    assert_eq!(out.content, "B\na\na\nb\né");
    assert_eq!(render_listing(vec![]).content, "no matches");
    let mut v = vec!["zeta".to_string(), "alpha/x".to_string(), "alpha".to_string(), "ä".to_string()];
    let out = render_listing(v.clone());
    v.sort();
    assert_eq!(out.content, v.join("\n"));
}

#[test]
fn name_matching_is_substring() {
    assert!(name_matches("target.rs", "target"));
    assert!(name_matches("x", ""));
    assert!(!name_matches("other.txt", "target"));
    assert!(!name_matches("tar", "target"));
}
