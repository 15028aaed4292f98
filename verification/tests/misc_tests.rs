use gwtx::cli::OnConflictArg;
use gwtx::color::{
    paint, AnsiColor, BaseColor, CliStyle, CliTheme, ColorChoice, ColorConfig, ColorScheme,
    DynColor, TextEffect, UiColor, UiColorName, UiColors,
};
use gwtx::config::{HookEntry, Hooks};
use gwtx::output::Output;
use gwtx::prompt::{is_affirmative, trust_prompt_lines};
use gwtx::trust::{compute_hash, is_trusted, main_worktree_dir_name, to_hex, TrustLookup};
use gwtx::trust::{trusted_list_lines, untrust_message, untrusted_notice_lines, TrustedRepo};
use gwtx::interactive::{breadcrumb_pieces, check_items, CrumbStyle};
use gwtx::vcs::{detect_vcs_at, find_vcs_root, walk_step, Markers, VcsType, WalkStep};

#[test]
fn test_vcs_type_is_jj() {
    assert!(!VcsType::Git.is_jj());
    assert!(VcsType::Jj.is_jj());
    assert!(VcsType::JjColocated.is_jj());
}

#[test]
fn nearest_marker_decides() {
    let none = Markers { has_jj: false, has_git: false };
    let git = Markers { has_jj: false, has_git: true };
    let both = Markers { has_jj: true, has_git: true };
    assert_eq!(find_vcs_root(&[none, git, both]), Some(VcsType::Git));
    assert_eq!(find_vcs_root(&[none, both]), Some(VcsType::JjColocated));
    assert_eq!(find_vcs_root(&[none]), None);
    assert_eq!(walk_step(none, true), WalkStep::Up);
    assert_eq!(walk_step(none, false), WalkStep::NotFound);
    assert!(detect_vcs_at(None, false, false).is_err());
    assert_eq!(detect_vcs_at(None, true, false).unwrap(), VcsType::Jj);
}

#[test]
fn color_choice_and_no_color() {
    assert!(ColorConfig::new(ColorChoice::Always, Some("1".to_string()), false).is_enabled());
    assert!(!ColorConfig::new(ColorChoice::Never, None, true).is_enabled());
    assert!(!ColorConfig::new(ColorChoice::Auto, Some("1".to_string()), true).is_enabled());
    assert!(ColorConfig::new(ColorChoice::Auto, Some(String::new()), true).is_enabled());
    assert!(!ColorConfig::new(ColorChoice::Auto, None, false).is_enabled());
}

#[test]
fn styled_text() {
    let on = ColorScheme::new(ColorConfig::with_enabled(true));
    let off = ColorScheme::new(ColorConfig::with_enabled(false));
    assert_eq!(on.operation("Linking"), "\u{1b}[32mLinking\u{1b}[0m");
    assert_eq!(on.warning("careful"), "\u{1b}[33;1mcareful\u{1b}[0m");
    assert_eq!(off.operation("Linking"), "Linking");
    assert_eq!(off.header("PATH"), "PATH");
    let plain = CliStyle { color: None, effect: TextEffect::Plain };
    assert_eq!(paint(plain, "x"), "x");
    let rgb = CliStyle { color: Some(DynColor::Rgb(1, 2, 3)), effect: TextEffect::Plain };
    assert_eq!(paint(rgb, "x"), "\u{1b}[38;2;1;2;3mx\u{1b}[0m");
}

#[test]
fn theme_from_colors() {
    let colors = UiColors {
        accent: Some(UiColor::Named(UiColorName::Gray)),
        muted: Some(UiColor::Named(UiColorName::Blue)),
        ..Default::default()
    };
    let t = CliTheme::from_colors(&colors);
    let gray = DynColor::Ansi(AnsiColor::Bright(gwtx::color::BrightColor::Black));
    assert_eq!(t.operation, CliStyle { color: Some(gray), effect: TextEffect::Plain });
    assert_eq!(t.diff_added, CliStyle { color: Some(gray), effect: TextEffect::Plain });
    assert_eq!(
        t.dimmed,
        CliStyle { color: Some(DynColor::Ansi(AnsiColor::Normal(BaseColor::Blue))), effect: TextEffect::Dimmed }
    );
    assert!(CliTheme::default() == CliTheme::from_colors(&UiColors::default()));
}

#[test]
fn output_lines() {
    let out = Output::new(false);
    assert_eq!(out.link("/r/.env", "/w/.env", None), Some("Linking: .env".to_string()));
    assert_eq!(
        out.copy("/r/a.example", "/w/a", Some("seed")),
        Some("Copying: a.example → a (seed)".to_string())
    );
    assert_eq!(out.mkdir("/w/cache", None), Some("Creating: /w/cache".to_string()));
    assert_eq!(out.skip("/w/x"), Some("Skipped: /w/x (conflict)".to_string()));
    assert_eq!(Output::new(true).link("/r/a", "/w/a", None), None);
}

#[test]
fn answers_to_prompts() {
    assert!(is_affirmative("  Yes \n"));
    assert!(is_affirmative("y"));
    assert!(!is_affirmative("yep"));
    assert!(!is_affirmative(""));
    assert_eq!(trust_prompt_lines("/repo")[0], "Trust these hooks for /repo?");
}

#[test]
fn on_conflict_argument() {
    assert_eq!(OnConflictArg::from_str("ABORT"), Ok(OnConflictArg::Abort));
    assert_eq!(OnConflictArg::from_str("Backup"), Ok(OnConflictArg::Backup));
    assert_eq!(
        OnConflictArg::from_str("keep"),
        Err("Invalid on-conflict mode: keep. Valid values: abort, skip, overwrite, backup".to_string())
    );
}

const EMPTY_HOOKS_JSON: &str = r#"{"pre_add":[],"post_add":[],"pre_remove":[],"post_remove":[]}"#;

#[test]
fn test_compute_hash_empty_hooks() {
    let hash = compute_hash("/tmp/repo", EMPTY_HOOKS_JSON);
    assert!(!hash.is_empty());
    assert_eq!(hash.len(), 64);
}

#[test]
fn test_compute_hash_different_hooks() {
    let hooks1 = r#"{"pre_add":[{"command":"echo 'test1'","description":null}],"post_add":[],"pre_remove":[],"post_remove":[]}"#;
    let hooks2 = r#"{"pre_add":[{"command":"echo 'test2'","description":null}],"post_add":[],"pre_remove":[],"post_remove":[]}"#;
    assert_ne!(compute_hash("/tmp/repo", hooks1), compute_hash("/tmp/repo", hooks2));
}

#[test]
fn test_is_trusted_empty_hooks() {
    let hooks = Hooks::default();
    assert!(is_trusted(&hooks, &TrustLookup::Missing, "/tmp/repo"));
}

#[test]
fn trust_needs_matching_path() {
    let hooks = Hooks {
        pre_add: vec![HookEntry { command: "echo".to_string(), description: None }],
        ..Default::default()
    };
    assert!(!is_trusted(&hooks, &TrustLookup::Missing, "/tmp/repo"));
    assert!(is_trusted(&hooks, &TrustLookup::Found("/tmp/repo/".to_string()), "/tmp/repo"));
    assert!(!is_trusted(&hooks, &TrustLookup::Found("/tmp/other".to_string()), "/tmp/repo"));
}

#[test]
fn known_digests() {
    assert_eq!(main_worktree_dir_name(""), "e3b0c44298fc1c14");
    assert_eq!(
        compute_hash("", ""),
        "01ba4719c80b6fe911b091a7c05124b64eeece964e09c058ef8f9805daca546b"
    );
    assert_eq!(to_hex(&[0x00, 0xab, 0x0f]), "00ab0f");
}

#[test]
fn bright_colors_are_painted() {
    let gray = CliStyle {
        color: Some(DynColor::Ansi(AnsiColor::Bright(gwtx::color::BrightColor::Black))),
        effect: TextEffect::Plain,
    };
    assert_eq!(paint(gray, "x"), "\u{1b}[90mx\u{1b}[0m");
    let dim_default = CliStyle {
        color: Some(DynColor::Ansi(AnsiColor::Normal(BaseColor::Default))),
        effect: TextEffect::Dimmed,
    };
    assert_eq!(paint(dim_default, "x"), "\u{1b}[39;2mx\u{1b}[0m");
}

#[test]
fn trust_listing_and_messages() {
    assert_eq!(trusted_list_lines(&Vec::new()), vec!["No trusted repositories"]);
    let entries = vec![TrustedRepo {
        main_worktree_path: "/repo".to_string(),
        trusted_at: "2024-01-01T00:00:00+00:00".to_string(),
    }];
    assert_eq!(
        trusted_list_lines(&entries),
        vec!["Trusted repositories:", "  /repo", "    Trusted at: 2024-01-01T00:00:00+00:00"]
    );
    assert_eq!(untrust_message(true, "/repo"), "Untrusted hooks for: /repo");
    assert_eq!(untrust_message(false, "/repo"), "Hooks were not trusted: /repo");
    let scheme = ColorScheme::new(ColorConfig::with_enabled(false));
    let lines = untrusted_notice_lines(&scheme, Some("gwtx add --no-setup <path>"));
    assert_eq!(lines[1], "Configuration is not trusted.");
    assert_eq!(lines.last().unwrap(), "  gwtx add --no-setup <path>");
    assert_eq!(untrusted_notice_lines(&scheme, None).len(), 7);
}

#[test]
fn breadcrumb_and_list_guard() {
    let crumbs = vec!["Select branch".to_string(), "Confirm".to_string()];
    let pieces = breadcrumb_pieces("Add", &crumbs);
    let texts: Vec<&str> = pieces.iter().map(|c| c.text.as_str()).collect();
    assert_eq!(texts, vec!["Add: ", "Select branch", " > ", "Confirm"]);
    assert_eq!(pieces[3].style, CrumbStyle::Accent);
    assert_eq!(pieces[1].style, CrumbStyle::Header);
    assert!(check_items(&Vec::new()).is_err());
}
