use gwtx::config::{
    expand_branch_template, expand_branch_template_with, BranchTemplateEnv, Config, HookEntry, Hooks, OnConflict, RawConfig,
    RawCopy, RawDefaults, RawLink, RawMkdir, Worktree,
};

fn raw_link(source: &str, target: Option<&str>) -> RawLink {
    RawLink {
        source: source.to_string(),
        target: target.map(|t| t.to_string()),
        on_conflict: None,
        description: None,
        ignore_tracked: false,
    }
}

fn raw_copy(source: &str, target: Option<&str>) -> RawCopy {
    RawCopy {
        source: source.to_string(),
        target: target.map(|t| t.to_string()),
        on_conflict: None,
        description: None,
    }
}

#[test]
fn test_parse_minimal_config() {
    let raw = RawConfig { link: vec![raw_link(".env.local", None)], ..Default::default() };
    let config = Config::try_from(raw).unwrap();
    assert_eq!(config.link.len(), 1);
    assert_eq!(config.link[0].source, ".env.local");
    assert_eq!(config.link[0].target, ".env.local");
}

#[test]
fn test_parse_full_config() {
    let mut creds = raw_link(".secret/creds.json", Some("config/creds.json"));
    creds.on_conflict = Some(OnConflict::Abort);
    creds.description = Some("Link credentials".to_string());
    let mut copy = raw_copy(".env.example", Some(".env"));
    copy.on_conflict = Some(OnConflict::Backup);
    let raw = RawConfig {
        defaults: RawDefaults { on_conflict: Some(OnConflict::Skip) },
        mkdir: vec![RawMkdir {
            path: "tmp/cache".to_string(),
            description: Some("Create cache dir".to_string()),
        }],
        link: vec![raw_link(".env.local", None), creds],
        copy: vec![copy],
        ..Default::default()
    };
    let config = Config::try_from(raw).unwrap();

    assert_eq!(config.defaults.on_conflict, Some(OnConflict::Skip));
    assert_eq!(config.mkdir.len(), 1);
    assert_eq!(config.mkdir[0].path, "tmp/cache");
    assert_eq!(config.mkdir[0].description, Some("Create cache dir".to_string()));
    assert_eq!(config.link.len(), 2);
    assert_eq!(config.link[1].on_conflict, Some(OnConflict::Abort));
    assert_eq!(config.link[1].description, Some("Link credentials".to_string()));
    assert_eq!(config.copy.len(), 1);
    assert_eq!(config.copy[0].on_conflict, Some(OnConflict::Backup));
}

#[test]
fn test_parse_empty_config() {
    let config = Config::try_from(RawConfig::default()).unwrap();
    assert!(config.link.is_empty());
    assert!(config.copy.is_empty());
    assert!(config.mkdir.is_empty());
}

#[test]
fn test_validate_missing_source() {
    let raw = RawConfig { link: vec![raw_link("", Some(".env"))], ..Default::default() };
    let err = Config::try_from(raw).unwrap_err();
    assert!(err.message().contains("source is required"));
}

#[test]
fn test_validate_missing_mkdir_path() {
    let raw = RawConfig {
        mkdir: vec![RawMkdir { path: String::new(), description: Some("test".to_string()) }],
        ..Default::default()
    };
    let err = Config::try_from(raw).unwrap_err();
    assert!(err.message().contains("path is required"));
}

#[test]
fn test_validate_absolute_path() {
    let raw = RawConfig { link: vec![raw_link("/etc/passwd", None)], ..Default::default() };
    let err = Config::try_from(raw).unwrap_err();
    assert!(err.message().contains("absolute paths are not allowed"));
}

#[test]
fn test_validate_path_traversal() {
    let raw = RawConfig {
        copy: vec![raw_copy("../../../etc/passwd", Some("passwd"))],
        ..Default::default()
    };
    let err = Config::try_from(raw).unwrap_err();
    assert!(err.message().contains("path traversal"));
}

#[test]
fn test_validate_duplicate_targets() {
    let raw = RawConfig {
        link: vec![raw_link(".env.local", Some(".env")), raw_link(".env.prod", Some(".env"))],
        ..Default::default()
    };
    let err = Config::try_from(raw).unwrap_err();
    assert!(err.message().contains("duplicate target path"));
}

#[test]
fn test_validate_collects_multiple_errors() {
    let raw = RawConfig {
        mkdir: vec![RawMkdir { path: String::new(), description: Some("no path".to_string()) }],
        link: vec![raw_link("/etc/passwd", None)],
        copy: vec![raw_copy("../secret", Some("secret"))],
        ..Default::default()
    };
    let err = Config::try_from(raw).unwrap_err();
    let msg = err.message();
    assert!(msg.contains("path is required"));
    assert!(msg.contains("absolute paths are not allowed"));
    assert!(msg.contains("path traversal"));
}

#[test]
fn test_validate_multiple_missing_sources() {
    let mut c1 = raw_copy("", Some("test1-copy"));
    c1.description = Some("copy test1".to_string());
    let mut c2 = raw_copy("", Some("test2-copy"));
    c2.description = Some("copy test2".to_string());
    let raw = RawConfig { copy: vec![c1, c2], ..Default::default() };
    let err = Config::try_from(raw).unwrap_err();
    let msg = err.message();
    assert!(msg.contains("copy[0]: source is required"));
    assert!(msg.contains("copy[1]: source is required"));
}

#[test]
fn validation_report_lists_errors_in_order() {
    let raw = RawConfig {
        mkdir: vec![RawMkdir { path: String::new(), description: None }],
        link: vec![raw_link("/etc/passwd", None)],
        ..Default::default()
    };
    let err = Config::try_from(raw).unwrap_err();
    assert_eq!(
        err.message(),
        "Invalid config:\n  - mkdir[0]: path is required\n  - link[0].source: absolute paths are not allowed: /etc/passwd\n  - link[0].target: absolute paths are not allowed: /etc/passwd"
    );
}

#[test]
fn duplicate_targets_compare_by_components() {
    let raw = RawConfig {
        link: vec![raw_link("a", Some("dir/x")), raw_link("b", Some("dir//x"))],
        ..Default::default()
    };
    let err = Config::try_from(raw).unwrap_err();
    assert!(err.message().contains("link[1]: duplicate target path: dir//x"));
}

#[test]
fn distinct_targets_across_kinds_are_accepted() {
    let raw = RawConfig {
        mkdir: vec![RawMkdir { path: "build/cache".to_string(), description: None }],
        link: vec![raw_link(".env", None), raw_link("shared/data", Some("build/data"))],
        copy: vec![raw_copy(".env.example", Some("build/.env"))],
        ..Default::default()
    };
    let config = Config::try_from(raw).unwrap();
    assert_eq!(config.mkdir.len(), 1);
    assert_eq!(config.link.len(), 2);
    assert_eq!(config.link[1].target, "build/data");
    assert_eq!(config.copy[0].target, "build/.env");
}

#[test]
fn same_target_in_mkdir_and_copy_is_refused() {
    let raw = RawConfig {
        mkdir: vec![RawMkdir { path: "build".to_string(), description: None }],
        copy: vec![raw_copy("template", Some("build/"))],
        ..Default::default()
    };
    let err = Config::try_from(raw).unwrap_err();
    assert_eq!(err.message(), "Invalid config:\n  - copy[0]: duplicate target path: build/");
}

fn hook(command: &str) -> HookEntry {
    HookEntry { command: command.to_string(), description: None }
}

#[test]
fn test_hooks_has_hooks_empty() {
    let hooks = Hooks::default();
    assert!(!hooks.has_hooks());
}

#[test]
fn test_hooks_has_hooks_with_pre_add() {
    let hooks = Hooks { pre_add: vec![hook("echo test")], ..Default::default() };
    assert!(hooks.has_hooks());
}

#[test]
fn test_hooks_has_hooks_with_post_add() {
    let hooks = Hooks { post_add: vec![hook("npm install")], ..Default::default() };
    assert!(hooks.has_hooks());
}

#[test]
fn test_hooks_has_hooks_with_pre_remove() {
    let hooks = Hooks { pre_remove: vec![hook("echo cleanup")], ..Default::default() };
    assert!(hooks.has_hooks());
}

#[test]
fn test_hooks_has_hooks_with_post_remove() {
    let hooks = Hooks { post_remove: vec![hook("./scripts/cleanup.sh")], ..Default::default() };
    assert!(hooks.has_hooks());
}

fn path_worktree(t: &str) -> Worktree {
    Worktree { path_template: Some(t.to_string()), branch_template: None }
}

#[test]
fn test_generate_path_without_variables() {
    let result = path_worktree("../worktrees/").generate_path("feature/foo", "myrepo");
    assert_eq!(result, Some("../worktrees/feature/foo".to_string()));
}

#[test]
fn test_generate_path_with_variables() {
    let result = path_worktree("../{{repository}}-{{branch}}").generate_path("feature/foo", "myrepo");
    assert_eq!(result, Some("../myrepo-feature/foo".to_string()));
}

#[test]
fn test_generate_path_with_branch_only() {
    let result = path_worktree("../wt-{{branch}}").generate_path("main", "myrepo");
    assert_eq!(result, Some("../wt-main".to_string()));
}

#[test]
fn test_generate_path_with_repository_only() {
    let result = path_worktree("../{{repository}}-worktree").generate_path("feature/foo", "myrepo");
    assert_eq!(result, Some("../myrepo-worktree".to_string()));
}

#[test]
fn test_generate_path_no_config() {
    let worktree = Worktree { path_template: None, branch_template: None };
    assert_eq!(worktree.generate_path("feature/foo", "myrepo"), None);
}

#[test]
fn test_generate_path_branch_with_slashes() {
    let result = path_worktree("../").generate_path("feature/deep/nested", "myrepo");
    assert_eq!(result, Some("../feature/deep/nested".to_string()));
}

#[test]
fn test_generate_path_double_braces() {
    let result = path_worktree("../{{repository}}-{{branch}}-").generate_path("test", "myrepo");
    assert_eq!(result, Some("../myrepo-test-".to_string()));
}

#[test]
fn test_generate_path_with_whitespace_in_variables() {
    let result = path_worktree("../{{ branch }}-{{ repository }}").generate_path("test", "myrepo");
    assert_eq!(result, Some("../test-myrepo".to_string()));
}

#[test]
fn test_generate_path_with_multiple_spaces() {
    let result =
        path_worktree("../{{  branch  }}-{{   repository   }}-").generate_path("foo", "bar");
    assert_eq!(result, Some("../foo-bar-".to_string()));
}

#[test]
fn test_generate_path_single_braces_literal() {
    let result = path_worktree("../{branch}/{{ repository }}").generate_path("feature", "myrepo");
    assert_eq!(result, Some("../{branch}/myrepo".to_string()));
}

fn env(commitish: &str) -> BranchTemplateEnv {
    BranchTemplateEnv { commitish: commitish.to_string(), repository: "myrepo".to_string() }
}

#[test]
fn test_expand_branch_template_commitish() {
    let result = expand_branch_template("review/{{commitish}}", &env("feature/auth"));
    assert_eq!(result, "review/feature/auth");
}

#[test]
fn test_expand_branch_template_repository() {
    let result = expand_branch_template("{{repository}}/review/{{commitish}}", &env("main"));
    assert_eq!(result, "myrepo/review/main");
}

#[test]
fn test_expand_branch_template_strftime() {
    let result = expand_branch_template("hotfix/{{strftime(%Y)}}/{{commitish}}", &env("fix"));
    assert!(result.starts_with("hotfix/20"));
    assert!(result.ends_with("/fix"));
}

#[test]
fn test_expand_branch_template_single_braces_literal() {
    let result = expand_branch_template("review/{commitish}", &env("feature"));
    assert_eq!(result, "review/{commitish}");
}

#[test]
fn test_expand_branch_template_with_spaces() {
    let result = expand_branch_template("review/{{ commitish }}", &env("feature"));
    assert_eq!(result, "review/feature");
}

#[test]
fn test_expand_branch_template_unknown_variable() {
    let result = expand_branch_template("{{unknown}}/{{commitish}}", &env("main"));
    assert_eq!(result, "{unknown}/main");
}

#[test]
fn test_generate_branch_name() {
    let worktree =
        Worktree { path_template: None, branch_template: Some("review/{{commitish}}".to_string()) };
    let result = worktree.generate_branch_name(&env("feature/auth"));
    assert_eq!(result, Some("review/feature/auth".to_string()));
}

#[test]
fn test_generate_branch_name_none() {
    let worktree = Worktree { path_template: None, branch_template: None };
    assert_eq!(worktree.generate_branch_name(&env("main")), None);
}

#[test]
fn test_expand_branch_template_invalid_strftime() {
    let result = expand_branch_template("feat/{{strftime(%あ)}}", &env("main"));
    assert_eq!(result, "feat/{strftime(%あ)}");

    let result = expand_branch_template("{{commitish}}-{{strftime(%Y%m%d-%H%M%あ)}}", &env("main"));
    assert!(result.starts_with("main-"));
    assert!(result.contains("strftime"));
}

#[test]
fn plain_path_template_gets_branch_appended() {
    let result = path_worktree("/srv/wt-").generate_path("topic", "repo");
    assert_eq!(result, Some("/srv/wt-topic".to_string()));
}

#[test]
fn branch_template_with_given_times() {
    let e = env("main");
    let times = vec![Some("2024".to_string()), None];
    let result = expand_branch_template_with(
        "r/{{strftime(%Y)}}-{{ strftime(%q) }}/{{commitish}}",
        &e,
        &times,
    );
    assert_eq!(result, "r/2024-{strftime(%q)}/main");
}

#[test]
fn strftime_without_specifiers_is_copied_and_unknown_ones_fail() {
    let e = env("main");
    assert_eq!(expand_branch_template("wip-{{strftime(today)}}", &e), "wip-today");
    assert_eq!(expand_branch_template("x-{{strftime(%Q)}}", &e), "x-{strftime(%Q)}");
    assert_eq!(expand_branch_template("x-{{strftime(abc%)}}", &e), "x-{strftime(abc%)}");
}
