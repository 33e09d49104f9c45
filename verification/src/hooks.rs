//! Hooks: shell commands that packages run around linking and unlinking.

use vstd::prelude::*;

use crate::error::{DittoError, DittoErrorView};

verus! {

/// What running the hook `command` comes to, given whether the command
/// exited successfully: nothing, or `HookCommandFailed` with the command.
pub fn hook_outcome(command: &str, succeeded: bool) -> (r: Result<(), DittoError>)
    ensures
        r is Ok <==> succeeded,
        r matches Err(e) ==> e@ == DittoErrorView::HookCommandFailed(command@),
{
    if succeeded {
        Ok(())
    } else {
        Err(DittoError::HookCommandFailed(String::from_str(command)))
    }
}

} // verus!
