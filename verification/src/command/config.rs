//! The `config` command: the templates of new configuration files and the
//! outcome of writing one.

use vstd::prelude::*;
use crate::error::Error;
use crate::text::{from_chars, push_str, to_chars};

verus! {

/// Where the configuration's JSON schema is published.
pub const SCHEMA_URL: &'static str =
    "https://raw.githubusercontent.com/h-michael/gwtx/main/schema/gwtx.schema.json";

/// The first line of a template, up to the schema URL.
pub const TEMPLATE_SCHEMA_LINE: &'static str = "# yaml-language-server: $schema=";

/// What follows the schema URL in a repository configuration template.
pub const REPO_TEMPLATE_BODY: &'static str = r#"

# Minimal gwtx configuration
# Copy this file to .gwtx.yaml in your repository root to get started.

# This is the simplest possible configuration with no operations.
# gwtx will create worktrees without any additional setup.
# You can add operations as needed.

# Uncomment to set global conflict handling
# defaults:
#   on_conflict: backup  # abort, skip, overwrite, backup
"#;

/// What follows the schema URL in the global configuration template.
pub const GLOBAL_TEMPLATE_BODY: &'static str = r#"

# Global gwtx configuration
# This file applies to all repositories and can be overridden by .gwtx.yaml.

# Allowed keys: defaults, worktree, ui

# defaults:
#   on_conflict: backup  # abort, skip, overwrite, backup

# worktree:
#   # path_template supports: {branch}, {repository}
#   # branch_template supports: {commitish}, {repository}, {strftime(...)} (e.g., {strftime(%Y%m%d)})
#   path_template: "../worktrees/{repository}-{branch}"
#   branch_template: "review/{commitish}"

# ui:
#   colors:
#     # Supported color values:
#     # - named: default, black, red, green, yellow, blue, magenta, cyan, gray,
#     #          darkgray, lightred, lightgreen, lightyellow, lightblue,
#     #          lightmagenta, lightcyan, white
#     # - RGB: "rgb(255, 85, 0)"
#     border: default
#     text: default
#     accent: cyan
#     header: default
#     footer: default
#     title: default
#     label: default
#     muted: default
#     disabled: default
#     search: default
#     preview: default
#     selection_bg: default
#     selection_fg: default
#     warning: default
#     error: default
 "#;

/// The URL of the configuration's JSON schema.
pub fn schema_url() -> (r: String)
    ensures
        r@ == SCHEMA_URL@,
{
    SCHEMA_URL.to_owned()
}

fn template_with(body: &str) -> (r: String)
    ensures
        r@ == TEMPLATE_SCHEMA_LINE@ + SCHEMA_URL@ + body@,
{
    let mut out = to_chars(TEMPLATE_SCHEMA_LINE);
    push_str(&mut out, SCHEMA_URL);
    push_str(&mut out, body);
    from_chars(&out)
}

/// The template of a new repository configuration.
pub fn repo_config_template() -> (r: String)
    ensures
        r@ == TEMPLATE_SCHEMA_LINE@ + SCHEMA_URL@ + REPO_TEMPLATE_BODY@,
{
    template_with(REPO_TEMPLATE_BODY)
}

/// The template of a new global configuration.
pub fn global_config_template() -> (r: String)
    ensures
        r@ == TEMPLATE_SCHEMA_LINE@ + SCHEMA_URL@ + GLOBAL_TEMPLATE_BODY@,
{
    template_with(GLOBAL_TEMPLATE_BODY)
}

/// The outcome of writing a new configuration at `path`: an existing file
/// is never overwritten; otherwise the line that reports the new file.
pub fn new_config_outcome(path: &str, exists: bool) -> (r: Result<String, Error>)
    ensures
        exists ==> (r matches Err(Error::ConfigAlreadyExists { path: p }) && p@ == path@),
        !exists ==> (r matches Ok(line) && line@ == "Created config: "@ + path@),
{
    if exists {
        return Err(Error::ConfigAlreadyExists { path: path.to_owned() });
    }
    let mut out = to_chars("Created config: ");
    push_str(&mut out, path);
    Ok(from_chars(&out))
}

} // verus!
