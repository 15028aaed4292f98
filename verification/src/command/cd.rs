//! The `cd` command, which needs shell integration: the shell's function
//! changes directory with the output of `gwtx path`.

use vstd::prelude::*;
use crate::error::Error;

verus! {

/// Without shell integration, `cd` can only explain how to enable it.
pub fn run() -> (r: Result<(), Error>)
    ensures
        r matches Err(Error::CdRequiresShellIntegration),
{
    Err(Error::CdRequiresShellIntegration)
}

} // verus!
