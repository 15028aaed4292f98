//! The decisions of `gwtx trust`: what `--check` answers, what `--show`
//! prints, and when the hooks are trusted, refused or prompted for.

use vstd::prelude::*;
use crate::color::ColorScheme;
use crate::config::Hooks;
use crate::error::Error;
use crate::hook::{append_lines, display_hook_entries, hook_review_lines, maybe_styled};
use crate::text::{from_chars, push_str, string_views, to_chars};

verus! {

/// What `gwtx trust` does next once the repository, its configuration and
/// the trust records have been looked at.
#[derive(Debug, Clone, Copy, PartialEq, Eq, Structural)]
pub enum TrustStep {
    /// `--check` passes: nothing to trust, or the hooks are trusted.
    CheckPassed,
    /// `--show`: list the hooks with their trust status.
    Show { trusted: bool },
    /// The hooks are already trusted; nothing is written.
    AlreadyTrusted,
    /// Trust the hooks without asking (`--yes`).
    Trust,
    /// Show the hooks and ask whether to trust them.
    Prompt,
}

/// What `gwtx trust` decides: a step, or the error it ends with.
pub enum TrustDecision {
    Step(TrustStep),
    CheckFailed,
    NotInRepo,
    ConfigMissing,
    NoHooks,
    CannotPrompt,
}

/// The decision of `gwtx trust`.
///
/// With `--check`, it passes outside a repository, without a configuration,
/// without hooks, or when the hooks are trusted, and fails otherwise (exit
/// status 1).  Without it: outside a repository or without a configuration
/// is an error, as is a configuration without hooks; `--show` lists the
/// hooks; without `--yes` and without a terminal nothing can be asked; hooks
/// already trusted are left as they are; `--yes` trusts them; otherwise the
/// user is asked.
pub open spec fn trust_decision(
    check: bool,
    show: bool,
    yes: bool,
    inside_repo: bool,
    config_found: bool,
    has_hooks: bool,
    trusted: bool,
    interactive: bool,
) -> TrustDecision {
    if check {
        if !inside_repo || !config_found || !has_hooks || trusted {
            TrustDecision::Step(TrustStep::CheckPassed)
        } else {
            TrustDecision::CheckFailed
        }
    } else if !inside_repo {
        TrustDecision::NotInRepo
    } else if !config_found {
        TrustDecision::ConfigMissing
    } else if !has_hooks {
        TrustDecision::NoHooks
    } else if show {
        TrustDecision::Step(TrustStep::Show { trusted })
    } else if !yes && !interactive {
        TrustDecision::CannotPrompt
    } else if trusted {
        TrustDecision::Step(TrustStep::AlreadyTrusted)
    } else if yes {
        TrustDecision::Step(TrustStep::Trust)
    } else {
        TrustDecision::Step(TrustStep::Prompt)
    }
}

/// Whether a result carries a decision; a missing configuration names the
/// repository root.
pub open spec fn trust_result_is(r: Result<TrustStep, Error>, d: TrustDecision, repo_root: Seq<char>) -> bool {
    match d {
        TrustDecision::Step(s) => r == Ok::<TrustStep, Error>(s),
        TrustDecision::CheckFailed => r matches Err(Error::TrustCheckFailed),
        TrustDecision::NotInRepo => r matches Err(Error::NotInGitRepo),
        TrustDecision::ConfigMissing => r matches Err(Error::ConfigNotFound { path }) && path@ == repo_root,
        TrustDecision::NoHooks => r matches Err(Error::NoHooksDefined),
        TrustDecision::CannotPrompt => r matches Err(Error::NonInteractive),
    }
}

/// The step `gwtx trust` takes, from its flags (`--check`, `--show`,
/// `--yes`) and what was found: whether the directory is inside a
/// repository (or a path was given), whether the configuration exists and
/// has hooks, whether they are trusted, and whether a terminal can be
/// prompted.  `--check` fails only when hooks exist and are not trusted.
pub fn trust_command_step(
    check: bool,
    show: bool,
    yes: bool,
    inside_repo: bool,
    config_found: bool,
    has_hooks: bool,
    trusted: bool,
    interactive: bool,
    repo_root: &str,
) -> (r: Result<TrustStep, Error>)
    ensures
        trust_result_is(
            r,
            trust_decision(check, show, yes, inside_repo, config_found, has_hooks, trusted, interactive),
            repo_root@,
        ),
        check ==> (r is Ok <==> (!inside_repo || !config_found || !has_hooks || trusted)),
        check && !(r is Ok) ==> r matches Err(Error::TrustCheckFailed),
        !check && inside_repo && !config_found ==> (r matches Err(Error::ConfigNotFound { path })
            && path@ == repo_root@),
        !check && inside_repo && config_found && has_hooks && show ==> r == Ok::<TrustStep, Error>(
            TrustStep::Show { trusted },
        ),
        !check && inside_repo && config_found && has_hooks && !show && !yes && !interactive ==> (r matches Err(
            Error::NonInteractive,
        )),
{
    if check {
        if !inside_repo || !config_found || !has_hooks || trusted {
            Ok(TrustStep::CheckPassed)
        } else {
            Err(Error::TrustCheckFailed)
        }
    } else if !inside_repo {
        Err(Error::NotInGitRepo)
    } else if !config_found {
        Err(Error::ConfigNotFound { path: repo_root.to_owned() })
    } else if !has_hooks {
        Err(Error::NoHooksDefined)
    } else if show {
        Ok(TrustStep::Show { trusted })
    } else if !yes && !interactive {
        Err(Error::NonInteractive)
    } else if trusted {
        Ok(TrustStep::AlreadyTrusted)
    } else if yes {
        Ok(TrustStep::Trust)
    } else {
        Ok(TrustStep::Prompt)
    }
}

/// The answer to the trust prompt: declining aborts.
pub fn trust_answer(accepted: bool) -> (r: Result<(), Error>)
    ensures
        accepted ==> r is Ok,
        !accepted ==> r matches Err(Error::Aborted),
{
    if accepted {
        Ok(())
    } else {
        Err(Error::Aborted)
    }
}

/// The lines of all kinds of hooks, in the order pre_add, post_add,
/// pre_remove, post_remove; each kind that has hooks starts with an empty
/// line and its name.
pub open spec fn all_hook_lines(hooks: Hooks, use_color: bool, scheme: ColorScheme) -> Seq<Seq<char>> {
    hook_review_lines(hooks.pre_add@, "pre_add"@, use_color, scheme) + hook_review_lines(
        hooks.post_add@,
        "post_add"@,
        use_color,
        scheme,
    ) + hook_review_lines(hooks.pre_remove@, "pre_remove"@, use_color, scheme) + hook_review_lines(
        hooks.post_remove@,
        "post_remove"@,
        use_color,
        scheme,
    )
}

fn hook_lines(hooks: &Hooks, use_color: bool, scheme: &ColorScheme) -> (r: Vec<String>)
    ensures
        string_views(r@) == all_hook_lines(*hooks, use_color, *scheme),
{
    let mut out: Vec<String> = Vec::new();
    append_lines(&mut out, display_hook_entries(&hooks.pre_add, "pre_add", use_color, scheme));
    append_lines(&mut out, display_hook_entries(&hooks.post_add, "post_add", use_color, scheme));
    append_lines(&mut out, display_hook_entries(&hooks.pre_remove, "pre_remove", use_color, scheme));
    append_lines(&mut out, display_hook_entries(&hooks.post_remove, "post_remove", use_color, scheme));
    proof {
        assert(string_views(out@) =~= all_hook_lines(*hooks, use_color, *scheme));
    }
    out
}

/// The trust status line of `--show`.
pub open spec fn trust_status_line(trusted: bool) -> Seq<char> {
    "Trust status: "@ + if trusted {
        "trusted"@
    } else {
        "not trusted"@
    }
}

/// What `gwtx trust --show` prints: the repository, its hooks, an empty
/// line and the trust status.
pub open spec fn trust_show_text(
    hooks: Hooks,
    repo_root: Seq<char>,
    trusted: bool,
    use_color: bool,
    scheme: ColorScheme,
) -> Seq<Seq<char>> {
    seq!["Hooks in "@ + repo_root + ":"@] + all_hook_lines(hooks, use_color, scheme) + seq![
        seq![],
        trust_status_line(trusted),
    ]
}

/// The lines `gwtx trust --show` prints.
pub fn trust_show_lines(hooks: &Hooks, repo_root: &str, trusted: bool, use_color: bool, scheme: &ColorScheme) -> (r:
    Vec<String>)
    ensures
        string_views(r@) == trust_show_text(*hooks, repo_root@, trusted, use_color, *scheme),
{
    let mut head = to_chars("Hooks in ");
    push_str(&mut head, repo_root);
    push_str(&mut head, ":");
    let mut out: Vec<String> = Vec::new();
    out.push(from_chars(&head));
    let ghost first = string_views(out@);
    append_lines(&mut out, hook_lines(hooks, use_color, scheme));
    let ghost middle = string_views(out@);
    out.push(String::new());
    let mut status = to_chars("Trust status: ");
    if trusted {
        push_str(&mut status, "trusted");
    } else {
        push_str(&mut status, "not trusted");
    }
    out.push(from_chars(&status));
    proof {
        assert(string_views(out@) =~= middle.push(seq![]).push(trust_status_line(trusted)));
        assert(trust_show_text(*hooks, repo_root@, trusted, use_color, *scheme) =~= middle.push(
            seq![],
        ).push(trust_status_line(trusted)));
    }
    out
}

/// What `gwtx trust` shows before asking: a warning, the repository, then
/// each kind of hooks followed by an empty line.
pub open spec fn trust_review_text(hooks: Hooks, repo_root: Seq<char>, use_color: bool, scheme: ColorScheme) -> Seq<
    Seq<char>,
> {
    let warning = "WARNING: Review these commands before trusting"@;
    let body = all_hook_lines(hooks, use_color, scheme);
    seq![
        maybe_styled(use_color, scheme.styled(scheme.theme.warning, warning), warning),
        seq![],
        "Repository: "@ + repo_root,
    ] + if body.len() > 0 {
        body.drop_first().push(seq![])
    } else {
        seq![]
    }
}

/// The lines `gwtx trust` shows before asking.
pub fn trust_review_lines(hooks: &Hooks, repo_root: &str, use_color: bool, scheme: &ColorScheme) -> (r: Vec<String>)
    ensures
        string_views(r@) == trust_review_text(*hooks, repo_root@, use_color, *scheme),
{
    let warning = "WARNING: Review these commands before trusting";
    let mut out: Vec<String> = Vec::new();
    if use_color {
        out.push(scheme.warning(warning));
    } else {
        out.push(warning.to_owned());
    }
    out.push(String::new());
    let mut repo = to_chars("Repository: ");
    push_str(&mut repo, repo_root);
    out.push(from_chars(&repo));
    let ghost head = string_views(out@);
    let body = hook_lines(hooks, use_color, scheme);
    let ghost bv = string_views(body@);
    if body.len() > 0 {
        let mut i: usize = 1;
        while i < body.len()
            invariant
                1 <= i <= body.len(),
                bv == string_views(body@),
                string_views(out@) == head + bv.subrange(1, i as int),
            decreases body.len() - i,
        {
            let ghost before = string_views(out@);
            out.push(body[i].clone());
            proof {
                assert(string_views(out@) =~= before.push(bv[i as int]));
                assert(bv.subrange(1, i + 1) =~= bv.subrange(1, i as int).push(bv[i as int]));
            }
            i = i + 1;
        }
        let ghost before = string_views(out@);
        out.push(String::new());
        proof {
            assert(string_views(out@) =~= before.push(seq![]));
            assert(bv.subrange(1, bv.len() as int) =~= bv.drop_first());
            assert(string_views(out@) =~= head + bv.drop_first().push(seq![]));
        }
    } else {
        proof {
            assert(string_views(out@) =~= head + seq![]);
        }
    }
    proof {
        let w = "WARNING: Review these commands before trusting"@;
        assert(head =~= seq![
            maybe_styled(use_color, scheme.styled(scheme.theme.warning, w), w),
            seq![],
            "Repository: "@ + repo_root@,
        ]);
    }
    out
}

/// The lines printed once the hooks are trusted.
pub fn trusted_lines(repo_root: &str) -> (r: Vec<String>)
    ensures
        string_views(r@) == seq![
            seq![],
            "\u{2713} Hooks trusted for: "@ + repo_root@,
            "These hooks will now run automatically on gwtx add/remove commands."@,
        ],
{
    let mut out: Vec<String> = Vec::new();
    out.push(String::new());
    let mut line = to_chars("\u{2713} Hooks trusted for: ");
    push_str(&mut line, repo_root);
    out.push(from_chars(&line));
    out.push("These hooks will now run automatically on gwtx add/remove commands.".to_owned());
    proof {
        assert(string_views(out@) =~= seq![
            seq![],
            "\u{2713} Hooks trusted for: "@ + repo_root@,
            "These hooks will now run automatically on gwtx add/remove commands."@,
        ]);
    }
    out
}

/// The line printed when the hooks were already trusted and nothing changed.
pub fn already_trusted_line(repo_root: &str) -> (r: String)
    ensures
        r@ == "Hooks are already trusted for: "@ + repo_root@ + " (configuration unchanged)"@,
{
    let mut line = to_chars("Hooks are already trusted for: ");
    push_str(&mut line, repo_root);
    push_str(&mut line, " (configuration unchanged)");
    from_chars(&line)
}

/// The lines printed when the user declines to trust the hooks.
pub fn declined_lines() -> (r: Vec<String>)
    ensures
        string_views(r@) == seq![seq![], "Hooks were not trusted."@],
{
    let mut out: Vec<String> = Vec::new();
    out.push(String::new());
    out.push("Hooks were not trusted.".to_owned());
    proof {
        assert(string_views(out@) =~= seq![seq![], "Hooks were not trusted."@]);
    }
    out
}

/// The lines written to the error stream when no terminal can be prompted.
pub fn cannot_prompt_lines() -> (r: Vec<String>)
    ensures
        string_views(r@) == seq![
            seq![],
            "Error: Cannot prompt for confirmation in non-interactive mode."@,
            "Run this command in an interactive terminal to trust hooks."@,
        ],
{
    let mut out: Vec<String> = Vec::new();
    out.push(String::new());
    out.push("Error: Cannot prompt for confirmation in non-interactive mode.".to_owned());
    out.push("Run this command in an interactive terminal to trust hooks.".to_owned());
    proof {
        assert(string_views(out@) =~= seq![
            seq![],
            "Error: Cannot prompt for confirmation in non-interactive mode."@,
            "Run this command in an interactive terminal to trust hooks."@,
        ]);
    }
    out
}

} // verus!
