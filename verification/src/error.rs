//! Errors of the library, with the text that each one displays.

use vstd::prelude::*;
use crate::text::{from_chars, push_str};

verus! {

/// Application errors.  Paths are held as their text.
#[derive(Debug, Clone)]
pub enum Error {
    ConfigParse { message: String },
    ConfigValidation { message: String },
    NotInGitRepo,
    NotInAnyRepo,
    PathRequired,
    GitWorktreeAddFailed { stderr: String },
    SourceNotFound { path: String },
    SymlinkFailed { source: String, target: String, cause: String },
    CopyFailed { source: String, target: String, cause: String },
    Aborted,
    NonInteractive,
    Selector { message: String },
    CannotRemoveMainWorktree { path: String },
    NoWorktreesToRemove,
    WorktreeHasUncommittedChanges { path: String },
    WorktreeHasUnpushedCommits { path: String },
    WorktreeNotFound { path: String },
    GitWorktreeRemoveFailed { stderr: String },
    WindowsSymlinkPermission,
    HooksNotTrusted,
    TrustCheckFailed,
    NoHooksDefined,
    HookExecutionFailed { command: String, cause: String },
    HookFailed { command: String, exit_code: Option<i32>, stderr: String },
    TrustStorageNotFound,
    TrustFileCorrupted { message: String },
    TrustFileSerialization { message: String },
    ConfigNotFound { path: String },
    ConfigAlreadyExists { path: String },
    CdRequiresShellIntegration,
    WindowsHooksNotSupported,
    Io { message: String },
    Internal(String),
}

impl Error {
    /// The text that the error displays.
    pub open spec fn spec_message(&self) -> Seq<char> {
        match self {
            Error::ConfigParse { message } => "Failed to parse config: "@ + message@,
            Error::ConfigValidation { message } => "Invalid config:\n"@ + message@,
            Error::NotInGitRepo =>
                "Not inside a git repository. Run this command from within a git repository."@,
            Error::NotInAnyRepo =>
                "Not inside a git or jj repository. Run this command from within a repository."@,
            Error::PathRequired =>
                "Path is required. Use -i for interactive mode or provide a path."@,
            Error::GitWorktreeAddFailed { stderr } => "git worktree add failed:\n"@ + stderr@,
            Error::SourceNotFound { path } => "Source not found: "@ + path@
                + "\n  Check if the file exists in the repository root."@,
            Error::SymlinkFailed { source, target, .. } => "Failed to create symlink: "@ + source@
                + " -> "@ + target@,
            Error::CopyFailed { source, target, .. } => "Failed to copy: "@ + source@ + " -> "@
                + target@,
            Error::Aborted => "Operation aborted by user"@,
            Error::NonInteractive =>
                "Interactive prompt required but running in non-interactive mode\n  Use --on-conflict to specify how to handle conflicts."@,
            Error::Selector { message } => "Selector error: "@ + message@,
            Error::CannotRemoveMainWorktree { path } => "Cannot remove main worktree: "@ + path@,
            Error::NoWorktreesToRemove => "No worktrees available to remove"@,
            Error::WorktreeHasUncommittedChanges { path } => "Worktree has uncommitted changes: "@
                + path@ + "\n  Use --force to remove anyway."@,
            Error::WorktreeHasUnpushedCommits { path } => "Worktree has unpushed commits: "@
                + path@ + "\n  Use --force to remove anyway."@,
            Error::WorktreeNotFound { path } => "Worktree not found: "@ + path@,
            Error::GitWorktreeRemoveFailed { stderr } => "git worktree remove failed:\n"@ + stderr@,
            Error::WindowsSymlinkPermission =>
                "Failed to create symlink: permission denied\n  Enable Developer Mode in Windows Settings or run as administrator."@,
            Error::HooksNotTrusted => seq![],
            Error::TrustCheckFailed => "Hooks are not trusted. Run: gwtx trust"@,
            Error::NoHooksDefined => "No hooks defined in the configuration"@,
            Error::HookExecutionFailed { command, cause } => "Hook execution failed: "@ + command@
                + "\n  "@ + cause@,
            Error::HookFailed { command, .. } => "Hook failed: "@ + command@,
            Error::TrustStorageNotFound => "Trust storage directory not found"@,
            Error::TrustFileCorrupted { message } => "Trust file corrupted: "@ + message@,
            Error::TrustFileSerialization { message } => "Trust file serialization failed: "@
                + message@,
            Error::ConfigNotFound { path } => "Config file not found: "@ + path@,
            Error::ConfigAlreadyExists { path } => "Config file already exists: "@ + path@,
            Error::CdRequiresShellIntegration =>
                "gwtx cd requires shell integration. Enable it with `gwtx init <shell>`, or run: cd \"$(gwtx path)\""@,
            Error::WindowsHooksNotSupported =>
                "Hooks are not supported on Windows yet.\n\nFor Windows users:\n- Use Git Bash or WSL for hooks functionality\n- Or use --no-setup to skip hooks"@,
            Error::Io { message } => message@,
            Error::Internal(message) => message@,
        }
    }

    /// The text that the error displays.
    pub fn message(&self) -> (r: String)
        ensures
            r@ == self.spec_message(),
    {
        let mut out: Vec<char> = Vec::new();
        match self {
            Error::ConfigParse { message } => {
                push_str(&mut out, "Failed to parse config: ");
                push_str(&mut out, message.as_str());
            },
            Error::ConfigValidation { message } => {
                push_str(&mut out, "Invalid config:\n");
                push_str(&mut out, message.as_str());
            },
            Error::NotInGitRepo => {
                push_str(
                    &mut out,
                    "Not inside a git repository. Run this command from within a git repository.",
                );
            },
            Error::NotInAnyRepo => {
                push_str(
                    &mut out,
                    "Not inside a git or jj repository. Run this command from within a repository.",
                );
            },
            Error::PathRequired => {
                push_str(&mut out, "Path is required. Use -i for interactive mode or provide a path.");
            },
            Error::GitWorktreeAddFailed { stderr } => {
                push_str(&mut out, "git worktree add failed:\n");
                push_str(&mut out, stderr.as_str());
            },
            Error::SourceNotFound { path } => {
                push_str(&mut out, "Source not found: ");
                push_str(&mut out, path.as_str());
                push_str(&mut out, "\n  Check if the file exists in the repository root.");
            },
            Error::SymlinkFailed { source, target, .. } => {
                push_str(&mut out, "Failed to create symlink: ");
                push_str(&mut out, source.as_str());
                push_str(&mut out, " -> ");
                push_str(&mut out, target.as_str());
            },
            Error::CopyFailed { source, target, .. } => {
                push_str(&mut out, "Failed to copy: ");
                push_str(&mut out, source.as_str());
                push_str(&mut out, " -> ");
                push_str(&mut out, target.as_str());
            },
            Error::Aborted => {
                push_str(&mut out, "Operation aborted by user");
            },
            Error::NonInteractive => {
                push_str(
                    &mut out,
                    "Interactive prompt required but running in non-interactive mode\n  Use --on-conflict to specify how to handle conflicts.",
                );
            },
            Error::Selector { message } => {
                push_str(&mut out, "Selector error: ");
                push_str(&mut out, message.as_str());
            },
            Error::CannotRemoveMainWorktree { path } => {
                push_str(&mut out, "Cannot remove main worktree: ");
                push_str(&mut out, path.as_str());
            },
            Error::NoWorktreesToRemove => {
                push_str(&mut out, "No worktrees available to remove");
            },
            Error::WorktreeHasUncommittedChanges { path } => {
                push_str(&mut out, "Worktree has uncommitted changes: ");
                push_str(&mut out, path.as_str());
                push_str(&mut out, "\n  Use --force to remove anyway.");
            },
            Error::WorktreeHasUnpushedCommits { path } => {
                push_str(&mut out, "Worktree has unpushed commits: ");
                push_str(&mut out, path.as_str());
                push_str(&mut out, "\n  Use --force to remove anyway.");
            },
            Error::WorktreeNotFound { path } => {
                push_str(&mut out, "Worktree not found: ");
                push_str(&mut out, path.as_str());
            },
            Error::GitWorktreeRemoveFailed { stderr } => {
                push_str(&mut out, "git worktree remove failed:\n");
                push_str(&mut out, stderr.as_str());
            },
            Error::WindowsSymlinkPermission => {
                push_str(
                    &mut out,
                    "Failed to create symlink: permission denied\n  Enable Developer Mode in Windows Settings or run as administrator.",
                );
            },
            Error::HooksNotTrusted => {},
            Error::TrustCheckFailed => {
                push_str(&mut out, "Hooks are not trusted. Run: gwtx trust");
            },
            Error::NoHooksDefined => {
                push_str(&mut out, "No hooks defined in the configuration");
            },
            Error::HookExecutionFailed { command, cause } => {
                push_str(&mut out, "Hook execution failed: ");
                push_str(&mut out, command.as_str());
                push_str(&mut out, "\n  ");
                push_str(&mut out, cause.as_str());
            },
            Error::HookFailed { command, .. } => {
                push_str(&mut out, "Hook failed: ");
                push_str(&mut out, command.as_str());
            },
            Error::TrustStorageNotFound => {
                push_str(&mut out, "Trust storage directory not found");
            },
            Error::TrustFileCorrupted { message } => {
                push_str(&mut out, "Trust file corrupted: ");
                push_str(&mut out, message.as_str());
            },
            Error::TrustFileSerialization { message } => {
                push_str(&mut out, "Trust file serialization failed: ");
                push_str(&mut out, message.as_str());
            },
            Error::ConfigNotFound { path } => {
                push_str(&mut out, "Config file not found: ");
                push_str(&mut out, path.as_str());
            },
            Error::ConfigAlreadyExists { path } => {
                push_str(&mut out, "Config file already exists: ");
                push_str(&mut out, path.as_str());
            },
            Error::CdRequiresShellIntegration => {
                push_str(
                    &mut out,
                    "gwtx cd requires shell integration. Enable it with `gwtx init <shell>`, or run: cd \"$(gwtx path)\"",
                );
            },
            Error::WindowsHooksNotSupported => {
                push_str(
                    &mut out,
                    "Hooks are not supported on Windows yet.\n\nFor Windows users:\n- Use Git Bash or WSL for hooks functionality\n- Or use --no-setup to skip hooks",
                );
            },
            Error::Io { message } => {
                push_str(&mut out, message.as_str());
            },
            Error::Internal(message) => {
                push_str(&mut out, message.as_str());
            },
        }
        proof {
            assert(out@ =~= self.spec_message());
        }
        from_chars(&out)
    }
}

} // verus!
