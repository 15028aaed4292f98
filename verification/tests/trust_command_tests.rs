use gwtx::color::{ColorConfig, ColorScheme};
use gwtx::command::trust::{
    already_trusted_line, cannot_prompt_lines, declined_lines, trust_answer, trust_command_step,
    trust_review_lines, trust_show_lines, trusted_lines, TrustStep,
};
use gwtx::config::{HookEntry, Hooks};
use gwtx::error::Error;

fn step(check: bool, show: bool, yes: bool, inside: bool, found: bool, hooks: bool, trusted: bool, tty: bool) -> Result<TrustStep, Error> {
    trust_command_step(check, show, yes, inside, found, hooks, trusted, tty, "/repo")
}

#[test]
fn check_passes_unless_hooks_are_untrusted() {
    assert_eq!(step(true, false, false, false, false, false, false, false).unwrap(), TrustStep::CheckPassed);
    assert_eq!(step(true, false, false, true, false, false, false, false).unwrap(), TrustStep::CheckPassed);
    assert_eq!(step(true, false, false, true, true, false, false, false).unwrap(), TrustStep::CheckPassed);
    assert_eq!(step(true, false, false, true, true, true, true, false).unwrap(), TrustStep::CheckPassed);
    assert!(matches!(step(true, false, false, true, true, true, false, false), Err(Error::TrustCheckFailed)));
}

#[test]
fn trust_without_config_or_hooks_is_an_error() {
    match step(false, false, true, true, false, false, false, true) {
        Err(Error::ConfigNotFound { path }) => assert_eq!(path, "/repo"),
        other => panic!("unexpected {:?}", other),
    }
    assert!(matches!(step(false, false, true, true, true, false, false, true), Err(Error::NoHooksDefined)));
    assert!(matches!(step(false, false, true, false, false, false, false, true), Err(Error::NotInGitRepo)));
}

#[test]
fn trust_steps_with_hooks() {
    assert_eq!(step(false, true, false, true, true, true, false, false).unwrap(), TrustStep::Show { trusted: false });
    assert_eq!(step(false, true, false, true, true, true, true, false).unwrap(), TrustStep::Show { trusted: true });
    assert!(matches!(step(false, false, false, true, true, true, false, false), Err(Error::NonInteractive)));
    assert_eq!(step(false, false, true, true, true, true, true, false).unwrap(), TrustStep::AlreadyTrusted);
    assert_eq!(step(false, false, true, true, true, true, false, false).unwrap(), TrustStep::Trust);
    assert_eq!(step(false, false, false, true, true, true, false, true).unwrap(), TrustStep::Prompt);
    assert!(trust_answer(true).is_ok());
    assert!(matches!(trust_answer(false), Err(Error::Aborted)));
}

fn sample_hooks() -> Hooks {
    Hooks {
        pre_add: vec![HookEntry { command: "make deps".to_string(), description: None }],
        post_add: vec![HookEntry { command: "npm ci".to_string(), description: Some("Install".to_string()) }],
        ..Default::default()
    }
}

#[test]
fn show_lists_hooks_and_trust_status() {
    let scheme = ColorScheme::new(ColorConfig::with_enabled(false));
    let lines = trust_show_lines(&sample_hooks(), "/repo", false, false, &scheme);
    assert_eq!(
        lines,
        vec![
            "Hooks in /repo:",
            "",
            "pre_add:",
            "  make deps",
            "  -> no description",
            "",
            "post_add:",
            "  npm ci",
            "  -> Install",
            "",
            "Trust status: not trusted",
        ]
    );
    let lines = trust_show_lines(&sample_hooks(), "/repo", true, false, &scheme);
    assert_eq!(lines.last().unwrap(), "Trust status: trusted");
}

#[test]
fn review_before_prompt() {
    let scheme = ColorScheme::new(ColorConfig::with_enabled(false));
    let lines = trust_review_lines(&sample_hooks(), "/repo", false, &scheme);
    assert_eq!(
        lines,
        vec![
            "WARNING: Review these commands before trusting",
            "",
            "Repository: /repo",
            "pre_add:",
            "  make deps",
            "  -> no description",
            "",
            "post_add:",
            "  npm ci",
            "  -> Install",
            "",
        ]
    );
}

#[test]
fn trust_messages() {
    assert_eq!(
        trusted_lines("/repo"),
        vec![
            "",
            "\u{2713} Hooks trusted for: /repo",
            "These hooks will now run automatically on gwtx add/remove commands.",
        ]
    );
    assert!(already_trusted_line("/repo").contains("already trusted"));
    assert_eq!(declined_lines(), vec!["", "Hooks were not trusted."]);
    assert_eq!(cannot_prompt_lines()[1], "Error: Cannot prompt for confirmation in non-interactive mode.");
    assert_eq!(Error::TrustCheckFailed.message(), "Hooks are not trusted. Run: gwtx trust");
}

#[test]
fn file_operation_errors_name_both_paths() {
    let e = Error::SymlinkFailed { source: "a".to_string(), target: "b".to_string(), cause: "denied".to_string() };
    assert_eq!(e.message(), "Failed to create symlink: a -> b");
    let e = Error::CopyFailed { source: "a".to_string(), target: "b".to_string(), cause: "denied".to_string() };
    assert_eq!(e.message(), "Failed to copy: a -> b");
}

#[test]
fn trusting_deletes_older_trust_files_only() {
    let names = vec!["abc.yaml".to_string(), "notes.txt".to_string(), "def.yaml".to_string(), "yaml".to_string()];
    assert_eq!(gwtx::trust::stale_trust_files(&names), vec!["abc.yaml".to_string(), "def.yaml".to_string()]);
}
