use gwtx::git::{
    filter_remote_branches, parse_log_output, parse_output_lines, parse_status_output,
    parse_worktree_list, repo_name, repo_root_from_output, worktree_add_args,
    worktree_add_result,
};
use gwtx::cli::AddArgs;
use gwtx::error::Error;

#[test]
fn test_parse_worktree_list_single() {
    let output = b"worktree /home/user/repo\nHEAD abc1234\nbranch refs/heads/main\n\n";
    let result = parse_worktree_list(output).unwrap();

    assert_eq!(result.len(), 1);
    assert_eq!(result[0].path, "/home/user/repo");
    assert_eq!(result[0].head, "abc1234");
    assert_eq!(result[0].branch, Some("refs/heads/main".to_string()));
    assert!(result[0].is_main);
    assert!(!result[0].is_locked);
}

#[test]
fn test_parse_worktree_list_multiple() {
    let output = b"worktree /home/user/repo\nHEAD abc1234\nbranch refs/heads/main\n\nworktree /home/user/feature\nHEAD def5678\nbranch refs/heads/feature\n\n";
    let result = parse_worktree_list(output).unwrap();

    assert_eq!(result.len(), 2);
    assert!(result[0].is_main);
    assert!(!result[1].is_main);
    assert_eq!(result[1].path, "/home/user/feature");
    assert_eq!(result[1].head, "def5678");
    assert_eq!(result[1].branch, Some("refs/heads/feature".to_string()));
}

#[test]
fn test_parse_worktree_list_detached() {
    let output = b"worktree /home/user/repo\nHEAD abc1234\nbranch refs/heads/main\n\nworktree /home/user/detached\nHEAD def5678\ndetached\n\n";
    let result = parse_worktree_list(output).unwrap();

    assert_eq!(result.len(), 2);
    assert_eq!(result[1].branch, None);
}

#[test]
fn test_parse_worktree_list_locked() {
    let output = b"worktree /home/user/repo\nHEAD abc1234\nbranch refs/heads/main\n\nworktree /home/user/locked\nHEAD def5678\nbranch refs/heads/feature\nlocked\n\n";
    let result = parse_worktree_list(output).unwrap();

    assert_eq!(result.len(), 2);
    assert!(!result[0].is_locked);
    assert!(result[1].is_locked);
}

#[test]
fn test_parse_status_output_empty() {
    let result = parse_status_output(b"").unwrap();
    assert!(!result.has_uncommitted_changes);
    assert_eq!(result.modified_count, 0);
    assert_eq!(result.deleted_count, 0);
    assert_eq!(result.untracked_count, 0);
}

#[test]
fn test_parse_status_output_modified() {
    let result = parse_status_output(b" M file1.txt\nM  file2.txt\n").unwrap();
    assert!(result.has_uncommitted_changes);
    assert_eq!(result.modified_count, 2);
    assert_eq!(result.deleted_count, 0);
    assert_eq!(result.untracked_count, 0);
}

#[test]
fn test_parse_status_output_deleted() {
    let result = parse_status_output(b" D file1.txt\nD  file2.txt\n").unwrap();
    assert!(result.has_uncommitted_changes);
    assert_eq!(result.modified_count, 0);
    assert_eq!(result.deleted_count, 2);
    assert_eq!(result.untracked_count, 0);
}

#[test]
fn test_parse_status_output_untracked() {
    let result = parse_status_output(b"?? file1.txt\n?? file2.txt\n").unwrap();
    assert!(result.has_uncommitted_changes);
    assert_eq!(result.modified_count, 0);
    assert_eq!(result.deleted_count, 0);
    assert_eq!(result.untracked_count, 2);
}

#[test]
fn test_parse_status_output_added() {
    let result = parse_status_output(b"A  file1.txt\n").unwrap();
    assert!(result.has_uncommitted_changes);
    assert_eq!(result.modified_count, 1);
    assert_eq!(result.deleted_count, 0);
    assert_eq!(result.untracked_count, 0);
}

#[test]
fn test_parse_status_output_mixed() {
    let result =
        parse_status_output(b" M file1.txt\nD  file2.txt\n?? file3.txt\nA  file4.txt\n").unwrap();
    assert!(result.has_uncommitted_changes);
    assert_eq!(result.modified_count, 2);
    assert_eq!(result.deleted_count, 1);
    assert_eq!(result.untracked_count, 1);
}

#[test]
fn test_parse_log_output_empty() {
    let result = parse_log_output(b"").unwrap();
    assert!(!result.has_unpushed);
    assert_eq!(result.count, 0);
}

#[test]
fn test_parse_log_output_single() {
    let result = parse_log_output(b"abc1234 Commit message\n").unwrap();
    assert!(result.has_unpushed);
    assert_eq!(result.count, 1);
}

#[test]
fn test_parse_log_output_multiple() {
    let result = parse_log_output(b"abc1234 Commit 1\ndef5678 Commit 2\nghi9012 Commit 3\n").unwrap();
    assert!(result.has_unpushed);
    assert_eq!(result.count, 3);
}

#[test]
fn status_skips_short_lines_by_bytes() {
    // "é" alone takes two bytes, so the line is read; its second character
    // is missing and counts as a space.
    let result = parse_status_output("M\né\nx\n".as_bytes()).unwrap();
    assert_eq!(result.modified_count, 0);
    assert!(!result.has_uncommitted_changes);
}

#[test]
fn output_lines_strip_carriage_returns() {
    let lines = parse_output_lines(b"main\r\nfeature\n");
    assert_eq!(lines, vec!["main".to_string(), "feature".to_string()]);
}

#[test]
fn invalid_utf8_is_replaced() {
    let lines = parse_output_lines(b"a\xffb\n");
    assert_eq!(lines, vec!["a\u{FFFD}b".to_string()]);
}

#[test]
fn remote_head_pointers_are_left_out() {
    let names = vec!["origin/HEAD".to_string(), "origin/main".to_string(), "up/dev".to_string()];
    assert_eq!(filter_remote_branches(names), vec!["origin/main".to_string(), "up/dev".to_string()]);
}

#[test]
fn worktree_add_arguments_in_order() {
    let args = AddArgs {
        commitish: Some("origin/dev".to_string()),
        new_branch: Some("topic".to_string()),
        force: true,
        lock: true,
        quiet: true,
        ..Default::default()
    };
    let argv = worktree_add_args(&args, "/tmp/wt");
    assert_eq!(
        argv,
        vec!["worktree", "add", "--force", "-b", "topic", "--lock", "--quiet", "/tmp/wt", "origin/dev"]
    );
}

#[test]
fn worktree_add_failure_keeps_stderr() {
    match worktree_add_result(false, b"fatal: already exists\n") {
        Err(Error::GitWorktreeAddFailed { stderr }) => assert_eq!(stderr, "fatal: already exists\n"),
        other => panic!("unexpected: {:?}", other),
    }
    assert!(worktree_add_result(true, b"").is_ok());
}

#[test]
fn repository_name_is_last_component() {
    assert_eq!(repo_name("/home/user/myrepo").unwrap(), "myrepo");
    assert!(matches!(repo_name("/"), Err(Error::NotInGitRepo)));
    assert!(matches!(repo_root_from_output(false, b""), Err(Error::NotInGitRepo)));
}
