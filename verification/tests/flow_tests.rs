use gwtx::command::add::{add_step, AddAction, AddEvent, AddHook, AddInputs, AddPhase};
use gwtx::command::remove::{remove_plan, removal_answer, RemoveStep};
use gwtx::error::Error;
use gwtx::git::WorktreeInfo;
use gwtx::interactive::SafetyWarning;

fn inputs(dry_run: bool) -> AddInputs {
    AddInputs {
        dry_run,
        no_setup: false,
        has_hooks: true,
        trusted: true,
        missing_source: None,
        has_pre_add: true,
        has_post_add: true,
    }
}

fn run(inputs: &AddInputs, events: &[AddEvent]) -> Vec<String> {
    let mut phase = AddPhase::Start;
    let mut out = Vec::new();
    for e in events {
        let (next, action) = add_step(inputs, phase, *e);
        phase = next;
        out.push(format!("{:?}", action));
    }
    out
}

#[test]
fn add_runs_steps_in_order() {
    let ok = AddEvent::StepOk;
    let steps = run(&inputs(false), &[AddEvent::Begin, ok, ok, ok, ok, ok]);
    assert_eq!(
        steps,
        vec![
            "ResolvePath",
            "RunHook(PreAdd)",
            "GitWorktreeAdd",
            "ChangeFile",
            "RunHook(PostAdd)",
            "ReportSuccess",
        ]
    );
}

#[test]
fn add_dry_run_only_previews() {
    let ok = AddEvent::StepOk;
    let steps = run(&inputs(true), &[AddEvent::Begin, ok, ok, ok, ok, ok]);
    assert_eq!(
        steps,
        vec![
            "ResolvePath",
            "PreviewHooks(PreAdd)",
            "PreviewWorktreeAdd",
            "PreviewSetup",
            "PreviewHooks(PostAdd)",
            "Finish",
        ]
    );
}

#[test]
fn add_refusals_come_first() {
    let mut untrusted = inputs(false);
    untrusted.trusted = false;
    let (phase, action) = add_step(&untrusted, AddPhase::Start, AddEvent::Begin);
    assert_eq!(phase, AddPhase::Failed);
    assert!(matches!(action, AddAction::Fail(Error::HooksNotTrusted)));
    untrusted.no_setup = true;
    let (_, action) = add_step(&untrusted, AddPhase::Start, AddEvent::Begin);
    assert!(matches!(action, AddAction::ResolvePath));
    let (_, action) = add_step(&untrusted, AddPhase::Resolving, AddEvent::StepOk);
    assert!(matches!(action, AddAction::GitWorktreeAdd));

    let mut missing = inputs(false);
    missing.missing_source = Some(".env".to_string());
    let (_, action) = add_step(&missing, AddPhase::Resolving, AddEvent::StepOk);
    match action {
        AddAction::Fail(Error::SourceNotFound { path }) => assert_eq!(path, ".env"),
        other => panic!("unexpected {:?}", other),
    }
}

#[test]
fn add_rolls_back_failed_setup() {
    let i = inputs(false);
    let (phase, action) = add_step(&i, AddPhase::Setup, AddEvent::StepFailed);
    assert_eq!(phase, AddPhase::RolledBack);
    assert!(matches!(action, AddAction::RemoveWorktreeForce));
    let (phase, action) = add_step(&i, phase, AddEvent::StepOk);
    assert_eq!(phase, AddPhase::Failed);
    assert!(matches!(action, AddAction::FailWithStepError));
    let (_, action) = add_step(&i, AddPhase::PostAdd, AddEvent::StepFailed);
    assert!(matches!(action, AddAction::WarnPostAddFailed));
    let (_, action) = add_step(&inputs(true), AddPhase::Setup, AddEvent::StepFailed);
    assert!(matches!(action, AddAction::FailWithStepError));
    let _ = AddHook::PreAdd;
}

fn worktrees() -> Vec<WorktreeInfo> {
    vec![
        WorktreeInfo { path: "/main".to_string(), head: "a".to_string(), branch: Some("main".to_string()), is_main: true, is_locked: false },
        WorktreeInfo { path: "/wt".to_string(), head: "b".to_string(), branch: Some("f".to_string()), is_main: false, is_locked: false },
    ]
}

fn warning(path: &str) -> SafetyWarning {
    SafetyWarning {
        path: path.to_string(),
        has_uncommitted: true,
        modified_count: 1,
        deleted_count: 0,
        untracked_count: 0,
        has_unpushed: false,
        unpushed_count: 0,
    }
}

#[test]
fn remove_refuses_main_first() {
    let targets = vec!["/wt".to_string(), "/main".to_string()];
    match remove_plan(&targets, &worktrees(), &vec![warning("/wt")], false, false, false, true, true) {
        Err(Error::CannotRemoveMainWorktree { path }) => assert_eq!(path, "/main"),
        other => panic!("unexpected {:?}", other.map(|p| p.steps)),
    }
}

#[test]
fn remove_plans_and_refusals() {
    let targets = vec!["/wt".to_string()];
    let wts = worktrees();
    match remove_plan(&targets, &wts, &vec![warning("/wt")], false, false, false, true, true) {
        Err(Error::WorktreeHasUncommittedChanges { path }) => assert_eq!(path, "/wt"),
        other => panic!("unexpected {:?}", other.map(|p| p.steps)),
    }
    let plan = remove_plan(&targets, &wts, &vec![warning("/wt")], false, false, true, true, true).unwrap();
    assert!(plan.confirm && plan.force && !plan.show_warnings);
    assert_eq!(plan.steps, vec![RemoveStep::RunPreRemove(0), RemoveStep::Remove(0), RemoveStep::RunPostRemove(0)]);
    let plan = remove_plan(&targets, &wts, &vec![warning("/wt")], false, true, false, true, false).unwrap();
    assert!(plan.show_warnings && !plan.confirm);
    assert_eq!(plan.steps, vec![RemoveStep::PreviewPreRemove(0), RemoveStep::PreviewRemoval(0)]);
    let plan = remove_plan(&targets, &wts, &Vec::new(), false, false, false, false, false).unwrap();
    assert!(!plan.force && !plan.confirm);
    assert_eq!(plan.steps, vec![RemoveStep::Remove(0)]);
    assert!(matches!(removal_answer(false), Err(Error::Aborted)));
    assert!(removal_answer(true).is_ok());
}
