use gwtx::color::{ColorConfig, ColorScheme};
use gwtx::config::{HookEntry, Hooks};
use gwtx::hook::{display_hook_entries, display_hooks_for_review, dry_run_hooks, shell_escape, HookEnv};
use gwtx::output::Output;

#[test]
fn test_shell_escape_basic() {
    assert_eq!(shell_escape("hello"), "'hello'");
    assert_eq!(shell_escape("hello world"), "'hello world'");
}

#[test]
fn test_shell_escape_single_quote() {
    assert_eq!(shell_escape("it's"), "'it'\\''s'");
    assert_eq!(shell_escape("a'b'c"), "'a'\\''b'\\''c'");
}

#[test]
fn test_shell_escape_special_chars() {
    assert_eq!(shell_escape("$HOME"), "'$HOME'");
    assert_eq!(shell_escape("`date`"), "'`date`'");
    assert_eq!(shell_escape("test & pause"), "'test & pause'");
    assert_eq!(shell_escape("foo | bar"), "'foo | bar'");
    assert_eq!(shell_escape("test > file"), "'test > file'");
}

#[test]
fn test_shell_escape_empty() {
    assert_eq!(shell_escape(""), "''");
}

#[test]
fn test_expand_template_basic() {
    let env = HookEnv {
        worktree_path: "/path/to/worktree".to_string(),
        worktree_name: "my-feature".to_string(),
        branch: Some("feature/test".to_string()),
        repo_root: "/path/to/repo".to_string(),
    };
    let result = env.expand_template("echo {{worktree_name}}");
    assert!(result.contains("my-feature"));
    assert!(result.contains("echo"));
}

#[test]
fn test_expand_template_with_special_chars() {
    let env = HookEnv {
        worktree_path: "/path/with spaces/worktree".to_string(),
        worktree_name: "feat'ure".to_string(),
        branch: Some("fix/$bug".to_string()),
        repo_root: "/repo".to_string(),
    };
    let result = env.expand_template("cd {{worktree_path}}");
    assert!(result.contains('\''));
    let result = env.expand_template("echo {{worktree_name}}");
    assert!(result.contains('\''));
    let result = env.expand_template("git checkout {{branch}}");
    assert!(result.contains('\''));
}

#[test]
fn test_expand_template_no_branch() {
    let env = HookEnv {
        worktree_path: "/path/to/worktree".to_string(),
        worktree_name: "detached".to_string(),
        branch: None,
        repo_root: "/repo".to_string(),
    };
    assert_eq!(env.expand_template("echo {{branch}}"), "echo ");
}

#[test]
fn test_expand_template_multiple_variables() {
    let env = HookEnv {
        worktree_path: "/worktree".to_string(),
        worktree_name: "test".to_string(),
        branch: Some("main".to_string()),
        repo_root: "/repo".to_string(),
    };
    let result = env.expand_template("cd {{worktree_path}} && git checkout {{branch}} && pwd");
    assert!(result.contains("/worktree"));
    assert!(result.contains("main"));
}

#[test]
fn expand_template_exact_text() {
    let env = HookEnv {
        worktree_path: "/w t".to_string(),
        worktree_name: "it's".to_string(),
        branch: Some("b".to_string()),
        repo_root: "/r".to_string(),
    };
    assert_eq!(
        env.expand_template("{{repo_root}} {{worktree_path}} {{worktree_name}} {{branch}} {{other}}"),
        "'/r' '/w t' 'it'\\''s' 'b' {{other}}"
    );
}

#[test]
fn dry_run_shows_description_or_command() {
    let entries = vec![
        HookEntry { command: "npm ci".to_string(), description: Some("Install".to_string()) },
        HookEntry { command: "make".to_string(), description: None },
    ];
    let lines = dry_run_hooks("pre_add", &entries, &Output::new(false));
    assert_eq!(
        lines,
        vec![
            "[dry-run] Would run pre_add hook: Install".to_string(),
            "[dry-run] Would run pre_add hook: make".to_string()
        ]
    );
    assert!(dry_run_hooks("pre_add", &entries, &Output::new(true)).is_empty());
}

#[test]
fn review_lines_without_color() {
    let scheme = ColorScheme::new(ColorConfig::with_enabled(false));
    let entries = vec![
        HookEntry { command: "npm ci".to_string(), description: Some("Install".to_string()) },
        HookEntry { command: "make".to_string(), description: None },
    ];
    let lines = display_hook_entries(&entries, "post_add", false, &scheme);
    assert_eq!(
        lines,
        vec!["", "post_add:", "  npm ci", "  -> Install", "  make", "  -> no description"]
    );
    assert!(display_hook_entries(&Vec::new(), "post_add", false, &scheme).is_empty());
}

#[test]
fn review_of_all_hooks() {
    let scheme = ColorScheme::new(ColorConfig::with_enabled(false));
    let hooks = Hooks {
        pre_remove: vec![HookEntry { command: "rm -rf x".to_string(), description: None }],
        ..Default::default()
    };
    let lines = display_hooks_for_review(&hooks, false, &scheme);
    assert_eq!(
        lines,
        vec![
            "WARNING: Untrusted hooks detected in .gwtx.toml",
            "",
            "Trusting will allow ALL hooks in this file to execute:",
            "",
            "pre_remove:",
            "  rm -rf x",
            "  -> no description"
        ]
    );
}

#[test]
fn review_lines_with_color() {
    let scheme = ColorScheme::new(ColorConfig::with_enabled(true));
    let entries = vec![HookEntry { command: "make".to_string(), description: None }];
    let lines = display_hook_entries(&entries, "pre_add", true, &scheme);
    assert_eq!(lines[1], "\u{1b}[35mpre_add:\u{1b}[0m");
    assert_eq!(lines[3], "  \u{1b}[2m->\u{1b}[0m \u{1b}[2mno description\u{1b}[0m");
}

#[test]
fn expanded_values_are_not_scanned_again() {
    let env = HookEnv {
        worktree_path: "/w".to_string(),
        worktree_name: "{{repo_root}}".to_string(),
        branch: Some("{{worktree_path}}".to_string()),
        repo_root: "/r; rm -rf x".to_string(),
    };
    assert_eq!(env.expand_template("echo {{worktree_name}}"), "echo '{{repo_root}}'");
    assert_eq!(env.expand_template("git switch {{branch}}"), "git switch '{{worktree_path}}'");
    assert_eq!(env.expand_template("cd {{repo_root}}"), "cd '/r; rm -rf x'");
    assert_eq!(
        env.expand_template("{{worktree_path}}{{worktree_name}}{{unknown}}"),
        "'/w''{{repo_root}}'{{unknown}}"
    );
}
