use gwtx::command::add::{
    check_hooks_trusted, check_sources_exist, contains_glob_pattern, dry_run_operation_message,
    expand_link, hook_branch, path_branch, process_operation, FileOp, OperationAction, WalkEntry,
};
use gwtx::command::cd::run;
use gwtx::command::config::{
    global_config_template, new_config_outcome, repo_config_template, schema_url,
};
use gwtx::command::list::{
    branch_display, column_widths, display_worktree, enrich_worktree, format_status,
    print_header, print_path_only,
};
use gwtx::command::remove::{
    collect_safety_warnings,
    check_not_main, display_warning, find_listed_worktree, is_main_worktree,
    refusal_without_prompt, safety_warning_for,
};
use gwtx::cli::AddArgs;
use gwtx::color::{ColorConfig, ColorScheme};
use gwtx::config::{Config, Link, OnConflict};
use gwtx::error::Error;
use gwtx::git::{UnpushedCommits, WorktreeInfo, WorktreeStatus};
use gwtx::interactive::{ConflictChoice, SafetyWarning};
use gwtx::output::Output;

#[test]
fn test_run_returns_shell_integration_required() {
    let result = run();
    assert!(matches!(result.unwrap_err(), Error::CdRequiresShellIntegration));
}

#[test]
fn test_run_not_in_repo() {
    // Running outside a repository is decided from git's answer, which the
    // library does not obtain itself.
}

#[test]
fn test_branch_display_regular() {
    let branch = Some("refs/heads/main".to_string());
    assert_eq!(branch_display(&branch), "main");
}

#[test]
fn test_branch_display_detached() {
    assert_eq!(branch_display(&None), "(detached)");
}

#[test]
fn test_format_status_all() {
    let status = WorktreeStatus {
        has_uncommitted_changes: true,
        modified_count: 2,
        deleted_count: 1,
        untracked_count: 3,
    };
    let unpushed = UnpushedCommits { has_unpushed: true, count: 5 };
    let upstream = Some("origin/main".to_string());
    let result = format_status(&status, &unpushed, &upstream, true);
    assert_eq!(result, "modified, deleted, untracked | unpushed: 5 (vs origin/main) | locked");
}

#[test]
fn test_format_status_clean() {
    let status = WorktreeStatus {
        has_uncommitted_changes: false,
        modified_count: 0,
        deleted_count: 0,
        untracked_count: 0,
    };
    let unpushed = UnpushedCommits { has_unpushed: false, count: 0 };
    let result = format_status(&status, &unpushed, &None, false);
    assert_eq!(result, "up to date");
}

fn wt(path: &str, branch: Option<&str>, is_main: bool) -> WorktreeInfo {
    WorktreeInfo {
        path: path.to_string(),
        head: "0123456789abcdef".to_string(),
        branch: branch.map(|b| b.to_string()),
        is_main,
        is_locked: false,
    }
}

#[test]
fn list_lines_plain() {
    let scheme = ColorScheme::new(ColorConfig::with_enabled(false));
    let info = wt("/repo", Some("refs/heads/main"), true);
    let d = enrich_worktree(&info, WorktreeStatus::default(), UnpushedCommits::default(), None);
    assert_eq!(d.branch, "main");
    let (p, b) = column_widths(&vec![d]);
    assert_eq!((p, b), (5, 4));
    let d = enrich_worktree(&info, WorktreeStatus::default(), UnpushedCommits::default(), None);
    assert_eq!(print_header(&scheme, 6, 6), "PATH   BRANCH COMMIT  STATUS");
    assert_eq!(display_worktree(&scheme, &d, 6, 6), "/repo  main   0123456 up to date");
    assert_eq!(print_path_only(&vec![info], true), vec!["PATH".to_string(), "/repo".to_string()]);
}

#[test]
fn test_contains_glob_pattern_with_asterisk() {
    assert!(contains_glob_pattern("secrets/*"));
}

#[test]
fn test_contains_glob_pattern_with_question() {
    assert!(contains_glob_pattern("file?.txt"));
}

#[test]
fn test_contains_glob_pattern_with_bracket() {
    assert!(contains_glob_pattern("file[0-9].txt"));
}

#[test]
fn test_contains_glob_pattern_none() {
    assert!(!contains_glob_pattern("secrets/config.json"));
}

fn link(source: &str, ignore_tracked: bool) -> Link {
    Link {
        source: source.to_string(),
        target: source.to_string(),
        on_conflict: None,
        description: None,
        ignore_tracked,
    }
}

fn entry(p: &str, is_dir: bool) -> WalkEntry {
    WalkEntry { rel_path: p.to_string(), is_dir }
}

#[test]
fn expand_link_without_glob_keeps_entry() {
    let result = expand_link(&link("test.txt", false), &Vec::new(), &Vec::new()).unwrap();
    assert_eq!(result.len(), 1);
    assert_eq!(result[0].source, "test.txt");
}

#[test]
fn expand_link_matches_walk_entries() {
    let entries = vec![
        entry("", true),
        entry("fixtures", true),
        entry("fixtures/data.json", false),
        entry("fixtures/file1.txt", false),
        entry("fixtures/file2.txt", false),
        entry("fixtures/sub/file3.txt", false),
    ];
    let result = expand_link(&link("fixtures/*.txt", false), &entries, &Vec::new()).unwrap();
    let sources: Vec<String> = result.iter().map(|l| l.source.clone()).collect();
    assert_eq!(sources, vec!["fixtures/file1.txt", "fixtures/file2.txt"]);
    assert!(result.iter().all(|l| l.target == l.source && !l.ignore_tracked));
}

#[test]
fn expand_link_skips_tracked_and_contents_of_matched_dirs() {
    let entries = vec![
        entry("cache", true),
        entry("cache/a.txt", false),
        entry("b.txt", false),
        entry("c.txt", false),
    ];
    let tracked_files = vec!["b.txt".to_string()];
    let result = expand_link(&link("*", true), &entries, &tracked_files).unwrap();
    let sources: Vec<String> = result.iter().map(|l| l.source.clone()).collect();
    assert_eq!(sources, vec!["cache", "c.txt"]);
}

#[test]
fn expand_link_reports_invalid_pattern() {
    let err = expand_link(&link("a[", false), &Vec::new(), &Vec::new()).unwrap_err();
    assert!(err.message().starts_with("Invalid config:\nInvalid glob pattern 'a[': "));
}

#[test]
fn expand_link_reports_pattern_past_regex_limits() {
    let source = format!("{}*{}", "{".repeat(300), "}".repeat(300));
    let err = expand_link(&link(&source, false), &Vec::new(), &Vec::new()).unwrap_err();
    assert!(err.message().starts_with(&format!("Invalid config:\nInvalid glob pattern '{}': ", source)));
}

#[test]
fn first_missing_source_is_named_links_before_copies() {
    let copy = |s: &str| gwtx::config::Copy {
        source: s.to_string(),
        target: s.to_string(),
        on_conflict: None,
        description: None,
    };
    let config = Config {
        link: vec![link("a", false), link("b", false), link("c", false)],
        copy: vec![copy("d"), copy("e")],
        ..Default::default()
    };
    match check_sources_exist(&config, &vec![true, false, false], &vec![false, false]) {
        Err(Error::SourceNotFound { path }) => assert_eq!(path, "b"),
        other => panic!("unexpected {:?}", other),
    }
    match check_sources_exist(&config, &vec![true, true, true], &vec![true, false]) {
        Err(Error::SourceNotFound { path }) => assert_eq!(path, "e"),
        other => panic!("unexpected {:?}", other),
    }
    assert!(check_sources_exist(&config, &vec![true, true, true], &vec![true, true]).is_ok());
}

#[test]
fn conflict_decisions() {
    let mut keep: Option<OnConflict> = None;
    assert_eq!(process_operation(false, &mut keep, None, None, false), OperationAction::Apply);
    assert_eq!(process_operation(true, &mut keep, None, None, false), OperationAction::Prompt);
    let all = ConflictChoice { mode: OnConflict::Backup, apply_to_all: true };
    assert_eq!(process_operation(true, &mut keep, None, Some(all), false), OperationAction::BackupThenApply);
    assert_eq!(keep, Some(OnConflict::Backup));
    assert_eq!(
        process_operation(true, &mut keep, Some(OnConflict::Skip), None, false),
        OperationAction::BackupThenApply
    );
    let mut none: Option<OnConflict> = None;
    assert_eq!(
        process_operation(true, &mut none, Some(OnConflict::Abort), None, false),
        OperationAction::Abort
    );
    let mut none: Option<OnConflict> = None;
    assert_eq!(
        process_operation(true, &mut none, Some(OnConflict::Overwrite), None, false),
        OperationAction::RemoveThenApply
    );
    assert_eq!(dry_run_operation_message(FileOp::Link, "/r/a", "/w/a"), "Would link: /r/a -> /w/a");
}

#[test]
fn dry_run_only_previews() {
    let mut keep: Option<OnConflict> = None;
    assert_eq!(process_operation(false, &mut keep, None, None, true), OperationAction::Preview);
    assert_eq!(keep, None);
    for mode in [OnConflict::Overwrite, OnConflict::Backup] {
        let mut keep: Option<OnConflict> = None;
        assert_eq!(process_operation(true, &mut keep, Some(mode), None, true), OperationAction::Preview);
    }
    let mut keep: Option<OnConflict> = None;
    assert_eq!(process_operation(true, &mut keep, Some(OnConflict::Skip), None, true), OperationAction::Skip);
    assert_eq!(process_operation(true, &mut keep, None, None, true), OperationAction::Prompt);
}

#[test]
fn add_checks_before_creating() {
    assert!(matches!(check_hooks_trusted(true, false, false), Err(Error::HooksNotTrusted)));
    assert!(check_hooks_trusted(true, true, false).is_ok());
    let args = AddArgs {
        new_branch: Some("refs/heads/topic".to_string()),
        commitish: Some("origin/dev".to_string()),
        ..Default::default()
    };
    assert_eq!(hook_branch(&args), Some("topic".to_string()));
    assert_eq!(path_branch(&args).unwrap(), "origin/dev");
    assert!(matches!(path_branch(&AddArgs::default()), Err(Error::PathRequired)));

    let config = Config { link: vec![link("*.env", false), link("x", false)], ..Default::default() };
    match check_sources_exist(&config, &vec![false, false], &Vec::new()) {
        Err(Error::SourceNotFound { path }) => assert_eq!(path, "x"),
        other => panic!("unexpected {:?}", other),
    }
    assert!(check_sources_exist(&config, &vec![false, true], &Vec::new()).is_ok());
}

#[test]
fn config_templates() {
    let url = schema_url();
    assert_eq!(url, "https://raw.githubusercontent.com/h-michael/gwtx/main/schema/gwtx.schema.json");
    let repo = repo_config_template();
    assert!(repo.starts_with(&format!("# yaml-language-server: $schema={}\n\n# Minimal gwtx configuration", url)));
    let global = global_config_template();
    assert!(global.contains("path_template supports: {branch}, {repository}"));
    assert!(global.ends_with("#     error: default\n "));
    assert!(matches!(new_config_outcome("/x/.gwtx.yaml", true), Err(Error::ConfigAlreadyExists { .. })));
    assert_eq!(new_config_outcome("/x/.gwtx.yaml", false).unwrap(), "Created config: /x/.gwtx.yaml");
}

#[test]
fn removal_checks() {
    let worktrees = vec![wt("/repo", Some("refs/heads/main"), true), wt("/wt/a", None, false)];
    assert!(is_main_worktree("/repo/", &worktrees));
    assert!(!is_main_worktree("/wt/a", &worktrees));
    match check_not_main(&vec!["/wt/a".to_string(), "/repo".to_string()], &worktrees) {
        Err(Error::CannotRemoveMainWorktree { path }) => assert_eq!(path, "/repo"),
        other => panic!("unexpected {:?}", other),
    }
    assert!(check_not_main(&vec!["/wt/a".to_string()], &worktrees).is_ok());
    assert!(matches!(
        find_listed_worktree("a", "/wt/b", &worktrees),
        Err(Error::WorktreeNotFound { .. })
    ));
    assert_eq!(find_listed_worktree("a", "/wt/a", &worktrees).unwrap(), "/wt/a");

    let status = WorktreeStatus {
        has_uncommitted_changes: true,
        modified_count: 2,
        deleted_count: 0,
        untracked_count: 1,
    };
    let w: SafetyWarning = safety_warning_for("/wt/a", &status, &UnpushedCommits::default()).unwrap();
    assert_eq!(
        display_warning(&Output::new(false), &w),
        vec!["Warning: /wt/a - 2 modified file(s)", "Warning: /wt/a - 1 untracked file(s)"]
    );
    assert!(safety_warning_for("/wt/a", &WorktreeStatus::default(), &UnpushedCommits::default()).is_none());
    assert!(matches!(
        refusal_without_prompt(&vec![w]),
        Error::WorktreeHasUncommittedChanges { .. }
    ));
}

#[test]
fn safety_warnings_only_for_unsaved_work_in_order() {
    let targets = vec!["/a".to_string(), "/b".to_string(), "/c".to_string()];
    let statuses = vec![
        WorktreeStatus { has_uncommitted_changes: true, modified_count: 2, deleted_count: 0, untracked_count: 1 },
        WorktreeStatus::default(),
        WorktreeStatus::default(),
    ];
    let unpushed = vec![
        UnpushedCommits::default(),
        UnpushedCommits::default(),
        UnpushedCommits { has_unpushed: true, count: 3 },
    ];
    let warnings = collect_safety_warnings(&targets, &statuses, &unpushed);
    assert_eq!(warnings.len(), 2);
    assert_eq!(warnings[0].path, "/a");
    assert!(warnings[0].has_uncommitted);
    assert_eq!(warnings[0].modified_count, 2);
    assert_eq!(warnings[0].untracked_count, 1);
    assert_eq!(warnings[1].path, "/c");
    assert!(warnings[1].has_unpushed);
    assert_eq!(warnings[1].unpushed_count, 3);
}
