use lintrunner_core::sapling::{CommandOutput, Repo, VcsError};

fn ok(stdout: &str) -> CommandOutput {
    CommandOutput { success: true, stdout: stdout.as_bytes().to_vec(), stderr: vec![] }
}

fn failed() -> CommandOutput {
    CommandOutput { success: false, stdout: vec![], stderr: b"abort: no repository".to_vec() }
}

fn repo() -> Repo {
    match Repo::new(&ok("/home/u/repo\n")) {
        Ok(r) => r,
        Err(_) => panic!("root rejected"),
    }
}

fn changed(out: &CommandOutput) -> Vec<String> {
    match repo().get_changed_files(None, out) {
        Ok(mut fs) => {
            fs.sort();
            fs
        }
        Err(_) => panic!("status rejected"),
    }
}

#[test]
fn root_is_trimmed() {
    assert_eq!(repo().root(), "/home/u/repo");
}

#[test]
fn failed_root_is_not_a_repository() {
    assert!(matches!(Repo::new(&failed()), Err(VcsError::NotARepository)));
}

#[test]
fn relative_root_is_not_a_repository() {
    assert!(matches!(Repo::new(&ok("repo\n")), Err(VcsError::NotARepository)));
    assert!(matches!(Repo::new(&ok("  \n")), Err(VcsError::NotARepository)));
}

#[test]
fn invalid_utf8_root_is_not_a_repository() {
    let out = CommandOutput { success: true, stdout: vec![b'/', 0xff], stderr: vec![] };
    assert!(matches!(Repo::new(&out), Err(VcsError::NotARepository)));
}

#[test]
fn changed_files_skip_deleted() {
    let fs = changed(&ok("M  src/a.rs\nD  src/old.rs\n?  src/new.rs\n"));
    assert_eq!(fs, vec!["/home/u/repo/src/a.rs", "/home/u/repo/src/new.rs"]);
}

#[test]
fn changed_files_are_deduplicated() {
    let fs = changed(&ok("M src/a.rs\nA\tsrc/a.rs\nM  src/b.rs"));
    assert_eq!(fs, vec!["/home/u/repo/src/a.rs", "/home/u/repo/src/b.rs"]);
}

#[test]
fn empty_status_has_no_files() {
    assert!(changed(&ok("")).is_empty());
    assert!(changed(&ok("\n\n")).is_empty());
}

#[test]
fn root_with_trailing_slash_joins_once() {
    let r = match Repo::new(&ok("/\n")) {
        Ok(r) => r,
        Err(_) => panic!("root rejected"),
    };
    match r.get_changed_files(None, &ok("M x.rs")) {
        Ok(fs) => assert_eq!(fs, vec!["/x.rs"]),
        Err(_) => panic!("status rejected"),
    }
}

#[test]
fn failed_status_reports_command() {
    match repo().get_changed_files(Some("abc123"), &failed()) {
        Err(VcsError::VcsCommandFailed { command, stderr }) => {
            assert_eq!(command, vec!["sl", "status", "--rev=abc123"]);
            assert_eq!(stderr, b"abort: no repository".to_vec());
        }
        _ => panic!("expected a command failure"),
    }
}

#[test]
fn invalid_utf8_status_fails() {
    let out = CommandOutput { success: true, stdout: vec![b'M', b' ', 0xc3], stderr: vec![] };
    assert!(matches!(repo().get_changed_files(None, &out), Err(VcsError::VcsCommandFailed { .. })));
}

#[test]
fn head_is_trimmed() {
    match repo().get_head(&ok("  abcdef0123\n")) {
        Ok(h) => assert_eq!(h, "abcdef0123"),
        Err(_) => panic!("head rejected"),
    }
    assert!(matches!(repo().get_head(&failed()), Err(VcsError::VcsCommandFailed { .. })));
}

#[test]
fn merge_base_command_line() {
    assert_eq!(
        repo().merge_base_command("main"),
        vec!["sl", "log", "--rev=ancestor(., main)", "--template={node}"]
    );
    assert_eq!(Repo::root_command(), vec!["sl", "root"]);
    assert_eq!(repo().head_command(), vec!["sl", "whereami"]);
    assert_eq!(repo().changed_files_command(None), vec!["sl", "status"]);
}

#[test]
fn merge_base_is_trimmed_and_non_empty() {
    match repo().get_merge_base_with("main", &ok("0123abcd\n")) {
        Ok(b) => assert_eq!(b, "0123abcd"),
        Err(_) => panic!("merge base rejected"),
    }
    match repo().get_merge_base_with("main", &ok("\n")) {
        Err(VcsError::VcsCommandFailed { command, .. }) => assert_eq!(command[2], "--rev=ancestor(., main)"),
        _ => panic!("expected a command failure"),
    }
}

#[test]
fn unicode_white_space_is_trimmed() {
    match Repo::new(&ok("\u{a0}/srv/r\u{3000}\n")) {
        Ok(r) => assert_eq!(r.root(), "/srv/r"),
        Err(_) => panic!("root rejected"),
    }
}

#[test]
fn absolute_status_path_stands_for_itself() {
    let fs = changed(&ok("A\u{2003}/tmp/x.rs\nR  src/c.rs"));
    assert_eq!(fs, vec!["/home/u/repo/src/c.rs", "/tmp/x.rs"]);
}

#[test]
fn line_without_status_prefix_is_kept_whole() {
    let fs = changed(&ok("mod.rs"));
    assert_eq!(fs, vec!["/home/u/repo/mod.rs"]);
}
