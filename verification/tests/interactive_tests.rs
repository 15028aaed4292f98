use gwtx::color::{UiColor, UiColorName, UiColors};
use gwtx::config::OnConflict;
use gwtx::error::Error;
use gwtx::interactive::{
    choice_from_selection, chosen_item, confirm_key_step, removal_details, select_key_step,
    truncate_text_for_width, map_ui_color, ConflictChoice, ConflictOption, KeyCode, KeyInput,
    SafetyWarning, SelectStep, SimpleSelectState, TermColor, UiTheme,
};

#[test]
fn test_conflict_option_all_count() {
    assert_eq!(ConflictOption::all().len(), 7);
}

#[test]
fn test_conflict_option_label_abort() {
    assert_eq!(ConflictOption::Abort.label(), "abort (cancel the entire operation)");
}

#[test]
fn test_conflict_option_label_skip() {
    assert_eq!(ConflictOption::Skip.label(), "skip (do not touch the existing file)");
}

#[test]
fn test_conflict_option_label_skip_all() {
    assert_eq!(ConflictOption::SkipAll.label(), "skip all (skip all future conflicts)");
}

#[test]
fn test_conflict_option_label_overwrite() {
    assert_eq!(ConflictOption::Overwrite.label(), "overwrite (deletes the existing file)");
}

#[test]
fn test_conflict_option_label_overwrite_all() {
    assert_eq!(
        ConflictOption::OverwriteAll.label(),
        "overwrite all (overwrite all future conflicts)"
    );
}

#[test]
fn test_conflict_option_label_backup() {
    assert_eq!(ConflictOption::Backup.label(), "backup (renames existing to *.bak)");
}

#[test]
fn test_conflict_option_label_backup_all() {
    assert_eq!(ConflictOption::BackupAll.label(), "backup all (backup all future conflicts)");
}

#[test]
fn test_conflict_option_from_label_abort() {
    let result = ConflictOption::from_label("abort (cancel the entire operation)");
    assert_eq!(result, Some(ConflictOption::Abort));
}

#[test]
fn test_conflict_option_from_label_skip() {
    let result = ConflictOption::from_label("skip (do not touch the existing file)");
    assert_eq!(result, Some(ConflictOption::Skip));
}

#[test]
fn test_conflict_option_from_label_skip_all() {
    let result = ConflictOption::from_label("skip all (skip all future conflicts)");
    assert_eq!(result, Some(ConflictOption::SkipAll));
}

#[test]
fn test_conflict_option_from_label_overwrite() {
    let result = ConflictOption::from_label("overwrite (deletes the existing file)");
    assert_eq!(result, Some(ConflictOption::Overwrite));
}

#[test]
fn test_conflict_option_from_label_overwrite_all() {
    let result = ConflictOption::from_label("overwrite all (overwrite all future conflicts)");
    assert_eq!(result, Some(ConflictOption::OverwriteAll));
}

#[test]
fn test_conflict_option_from_label_backup() {
    let result = ConflictOption::from_label("backup (renames existing to *.bak)");
    assert_eq!(result, Some(ConflictOption::Backup));
}

#[test]
fn test_conflict_option_from_label_backup_all() {
    let result = ConflictOption::from_label("backup all (backup all future conflicts)");
    assert_eq!(result, Some(ConflictOption::BackupAll));
}

#[test]
fn test_conflict_option_from_label_invalid() {
    assert_eq!(ConflictOption::from_label("invalid option"), None);
}

#[test]
fn test_conflict_option_to_choice_abort() {
    let choice = ConflictOption::Abort.to_choice();
    assert!(matches!(choice.mode, OnConflict::Abort));
    assert!(!choice.apply_to_all);
}

#[test]
fn test_conflict_option_to_choice_skip() {
    let choice = ConflictOption::Skip.to_choice();
    assert!(matches!(choice.mode, OnConflict::Skip));
    assert!(!choice.apply_to_all);
}

#[test]
fn test_conflict_option_to_choice_skip_all() {
    let choice = ConflictOption::SkipAll.to_choice();
    assert!(matches!(choice.mode, OnConflict::Skip));
    assert!(choice.apply_to_all);
}

#[test]
fn test_conflict_option_to_choice_overwrite() {
    let choice = ConflictOption::Overwrite.to_choice();
    assert!(matches!(choice.mode, OnConflict::Overwrite));
    assert!(!choice.apply_to_all);
}

#[test]
fn test_conflict_option_to_choice_overwrite_all() {
    let choice = ConflictOption::OverwriteAll.to_choice();
    assert!(matches!(choice.mode, OnConflict::Overwrite));
    assert!(choice.apply_to_all);
}

#[test]
fn test_conflict_option_to_choice_backup() {
    let choice = ConflictOption::Backup.to_choice();
    assert!(matches!(choice.mode, OnConflict::Backup));
    assert!(!choice.apply_to_all);
}

#[test]
fn test_conflict_option_to_choice_backup_all() {
    let choice = ConflictOption::BackupAll.to_choice();
    assert!(matches!(choice.mode, OnConflict::Backup));
    assert!(choice.apply_to_all);
}

#[test]
fn test_conflict_choice_debug() {
    let choice = ConflictChoice { mode: OnConflict::Skip, apply_to_all: true };
    let debug_str = format!("{:?}", choice);
    assert!(debug_str.contains("Skip"));
    assert!(debug_str.contains("true"));
}

#[test]
fn test_conflict_choice_copy() {
    let choice = ConflictChoice { mode: OnConflict::Backup, apply_to_all: false };
    let copied = choice;
    assert!(matches!(copied.mode, OnConflict::Backup));
    assert!(!copied.apply_to_all);
}

#[test]
fn every_label_finds_its_option() {
    for o in ConflictOption::all() {
        assert_eq!(ConflictOption::from_label(o.label()), Some(o));
    }
    let c = choice_from_selection("something else");
    assert!(matches!(c.mode, OnConflict::Abort));
}

#[test]
fn test_safety_warning_creation() {
    let warning = SafetyWarning {
        path: "/test/worktree".to_string(),
        has_uncommitted: true,
        modified_count: 3,
        deleted_count: 1,
        untracked_count: 2,
        has_unpushed: true,
        unpushed_count: 5,
    };
    assert_eq!(warning.path, "/test/worktree");
    assert!(warning.has_uncommitted);
    assert_eq!(warning.modified_count, 3);
    assert_eq!(warning.deleted_count, 1);
    assert_eq!(warning.untracked_count, 2);
    assert!(warning.has_unpushed);
    assert_eq!(warning.unpushed_count, 5);
}

#[test]
fn test_safety_warning_clean() {
    let warning = SafetyWarning {
        path: "/test/clean".to_string(),
        has_uncommitted: false,
        modified_count: 0,
        deleted_count: 0,
        untracked_count: 0,
        has_unpushed: false,
        unpushed_count: 0,
    };
    assert!(!warning.has_uncommitted);
    assert_eq!(warning.modified_count, 0);
    assert!(!warning.has_unpushed);
}

#[test]
fn removal_details_lines() {
    let warnings = vec![SafetyWarning {
        path: "/wt/a".to_string(),
        has_uncommitted: true,
        modified_count: 3,
        deleted_count: 0,
        untracked_count: 2,
        has_unpushed: true,
        unpushed_count: 1,
    }];
    assert_eq!(
        removal_details(&warnings),
        vec![
            "Warning: The following worktrees have unsaved work:",
            "  /wt/a",
            "    - 3 modified file(s)",
            "    - 2 untracked file(s)",
            "    - 1 unpushed commit(s)"
        ]
    );
}

#[test]
fn test_simple_select_state_new() {
    let state = SimpleSelectState::new();
    assert_eq!(state.cursor, 0);
}

#[test]
fn test_simple_select_state_move_up() {
    let mut state = SimpleSelectState::new();
    state.cursor = 2;

    state.move_up();
    assert_eq!(state.cursor, 1);

    state.move_up();
    assert_eq!(state.cursor, 0);

    state.move_up();
    assert_eq!(state.cursor, 0);
}

#[test]
fn test_simple_select_state_move_down() {
    let mut state = SimpleSelectState::new();
    state.move_down(3);
    assert_eq!(state.cursor, 1);
    state.move_down(3);
    assert_eq!(state.cursor, 2);
    state.move_down(3);
    assert_eq!(state.cursor, 2);
}

#[test]
fn test_simple_select_state_move_down_empty() {
    let mut state = SimpleSelectState::new();
    state.move_down(0);
    assert_eq!(state.cursor, 0);
}

fn key(code: KeyCode, ctrl: bool) -> KeyInput {
    KeyInput { code, ctrl }
}

#[test]
fn list_keys() {
    let mut s = SimpleSelectState::new();
    assert_eq!(select_key_step(&mut s, key(KeyCode::Char('n'), true), 3), SelectStep::Continue);
    assert_eq!(s.cursor, 1);
    assert_eq!(select_key_step(&mut s, key(KeyCode::Char('k'), true), 3), SelectStep::Continue);
    assert_eq!(s.cursor, 0);
    assert_eq!(select_key_step(&mut s, key(KeyCode::Char('n'), false), 3), SelectStep::Continue);
    assert_eq!(s.cursor, 0);
    assert_eq!(select_key_step(&mut s, key(KeyCode::Char('c'), true), 3), SelectStep::Abort);
    assert_eq!(select_key_step(&mut s, key(KeyCode::Enter, false), 3), SelectStep::Choose);
    let items = vec!["a".to_string(), "b".to_string()];
    assert_eq!(chosen_item(&items, &s).unwrap(), "a");
    assert!(matches!(chosen_item(&Vec::new(), &s), Err(Error::Aborted)));
}

#[test]
fn confirm_keys() {
    assert!(matches!(confirm_key_step(key(KeyCode::Char('Y'), false)), Some(Ok(true))));
    assert!(matches!(confirm_key_step(key(KeyCode::Esc, false)), Some(Ok(false))));
    assert!(matches!(confirm_key_step(key(KeyCode::Char('c'), true)), Some(Err(Error::Aborted))));
    assert!(confirm_key_step(key(KeyCode::Up, false)).is_none());
}

#[test]
fn test_ui_theme_default() {
    let theme = UiTheme::default();
    assert_eq!(theme.border, TermColor::DarkGray);
    assert_eq!(theme.text, TermColor::White);
    assert_eq!(theme.accent, TermColor::Cyan);
    assert_eq!(theme.header, TermColor::LightCyan);
    assert_eq!(theme.footer, TermColor::Gray);
    assert_eq!(theme.title, TermColor::LightBlue);
    assert_eq!(theme.label, TermColor::LightMagenta);
    assert_eq!(theme.muted, TermColor::DarkGray);
    assert_eq!(theme.disabled, TermColor::DarkGray);
    assert_eq!(theme.search, TermColor::LightGreen);
    assert_eq!(theme.preview, TermColor::White);
    assert_eq!(theme.selection_bg, TermColor::Blue);
    assert_eq!(theme.selection_fg, TermColor::Black);
    assert_eq!(theme.warning, TermColor::Yellow);
    assert_eq!(theme.error, TermColor::Red);
}

#[test]
fn test_ui_theme_from_colors_partial() {
    let colors = UiColors {
        border: Some(UiColor::Named(UiColorName::Red)),
        accent: Some(UiColor::Rgb(255, 128, 0)),
        ..Default::default()
    };
    let theme = UiTheme::from_colors(&colors);

    assert_eq!(theme.border, TermColor::Red);
    assert_eq!(theme.accent, TermColor::Rgb(255, 128, 0));
    assert_eq!(theme.text, TermColor::White);
    assert_eq!(theme.header, TermColor::LightCyan);
}

#[test]
fn test_map_ui_color_named() {
    assert_eq!(map_ui_color(UiColor::Named(UiColorName::Default)), TermColor::Reset);
    assert_eq!(map_ui_color(UiColor::Named(UiColorName::Black)), TermColor::Black);
    assert_eq!(map_ui_color(UiColor::Named(UiColorName::Red)), TermColor::Red);
    assert_eq!(map_ui_color(UiColor::Named(UiColorName::Green)), TermColor::Green);
    assert_eq!(map_ui_color(UiColor::Named(UiColorName::Yellow)), TermColor::Yellow);
    assert_eq!(map_ui_color(UiColor::Named(UiColorName::Blue)), TermColor::Blue);
    assert_eq!(map_ui_color(UiColor::Named(UiColorName::Magenta)), TermColor::Magenta);
    assert_eq!(map_ui_color(UiColor::Named(UiColorName::Cyan)), TermColor::Cyan);
    assert_eq!(map_ui_color(UiColor::Named(UiColorName::Gray)), TermColor::Gray);
    assert_eq!(map_ui_color(UiColor::Named(UiColorName::DarkGray)), TermColor::DarkGray);
    assert_eq!(map_ui_color(UiColor::Named(UiColorName::LightRed)), TermColor::LightRed);
    assert_eq!(map_ui_color(UiColor::Named(UiColorName::LightGreen)), TermColor::LightGreen);
    assert_eq!(map_ui_color(UiColor::Named(UiColorName::LightYellow)), TermColor::LightYellow);
    assert_eq!(map_ui_color(UiColor::Named(UiColorName::LightBlue)), TermColor::LightBlue);
    assert_eq!(map_ui_color(UiColor::Named(UiColorName::LightMagenta)), TermColor::LightMagenta);
    assert_eq!(map_ui_color(UiColor::Named(UiColorName::LightCyan)), TermColor::LightCyan);
    assert_eq!(map_ui_color(UiColor::Named(UiColorName::White)), TermColor::White);
}

#[test]
fn test_map_ui_color_rgb() {
    assert_eq!(map_ui_color(UiColor::Rgb(255, 0, 0)), TermColor::Rgb(255, 0, 0));
    assert_eq!(map_ui_color(UiColor::Rgb(0, 255, 0)), TermColor::Rgb(0, 255, 0));
    assert_eq!(map_ui_color(UiColor::Rgb(0, 0, 255)), TermColor::Rgb(0, 0, 255));
    assert_eq!(map_ui_color(UiColor::Rgb(128, 128, 128)), TermColor::Rgb(128, 128, 128));
}

#[test]
fn test_truncate_text_for_width_basic() {
    assert_eq!(truncate_text_for_width("hello".to_string(), 10), "hello");
    assert_eq!(truncate_text_for_width("hello world".to_string(), 5), "hello");
    assert_eq!(truncate_text_for_width("hello".to_string(), 3), "hel");
}

#[test]
fn test_truncate_text_for_width_zero() {
    assert_eq!(truncate_text_for_width("hello".to_string(), 0), "");
}

#[test]
fn test_truncate_text_for_width_multiline() {
    let text = "line one\nline two\nline three".to_string();
    let result = truncate_text_for_width(text, 4);
    assert_eq!(result, "line\nline\nline");
}

#[test]
fn test_truncate_text_for_width_unicode() {
    assert_eq!(truncate_text_for_width("日本語テスト".to_string(), 6), "日本語");
    assert_eq!(truncate_text_for_width("日本語テスト".to_string(), 3), "日");
    assert_eq!(truncate_text_for_width("αβγδε".to_string(), 3), "αβγ");
}

#[test]
fn test_truncate_text_for_width_control_chars() {
    assert_eq!(truncate_text_for_width("a\x1bb".to_string(), 2), "ab");
    assert_eq!(truncate_text_for_width("a\x00b\x01c".to_string(), 3), "abc");
    assert_eq!(truncate_text_for_width("a\x07b\x08c".to_string(), 3), "abc");
}
