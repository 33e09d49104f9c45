//! `ditto init`: clone a dotfiles repository and link its packages.

use vstd::prelude::*;
use vstd::string::*;

use crate::config::{DittoConfig, is_selection, names_distinct};
use crate::error::{DittoError, DittoErrorView};
use crate::ops::walk::{Cursor, Op, Walk, spec_begin, targets_ok};
use crate::paths::{Platform, views};

verus! {

/// The clone must have succeeded for `init` to go on.
pub fn clone_outcome(succeeded: bool) -> (r: Result<(), DittoError>)
    ensures
        r is Ok <==> succeeded,
        r matches Err(e) ==> e@ == DittoErrorView::CloneFailed,
{
    if succeeded {
        Ok(())
    } else {
        Err(DittoError::CloneFailed)
    }
}

/// Starts linking the cloned repository at `path`: the named packages (all
/// when none is), never overwriting conflicts.
pub fn start(
    config: DittoConfig,
    path: &str,
    home: Option<String>,
    packages: &Vec<String>,
    dry_run: bool,
    platform: Option<Platform>,
) -> (r: (Walk, Cursor))
    requires
        targets_ok(&config, views(packages@), false, platform),
        names_distinct(&config),
    ensures
        r.0.wf(),
        r.0.op == (Op::Link { force: false }),
        r.0.dry_run == dry_run,
        r.0.config == config,
        is_selection(&config, views(packages@), false, r.0.selected@),
        r.0.root@ == path@,
        r.0.home == home,
        r.0.platform == platform,
        r.1@ == spec_begin(),
{
    crate::ops::link::start(config, path, home, packages, false, dry_run, platform)
}

/// The message that closes a successful `init`.
pub fn success_message() -> (r: String)
    ensures
        r@ == "Packages linked. Ditto transformed into your dev environment!"@,
{
    String::from_str("Packages linked. Ditto transformed into your dev environment!")
}

} // verus!
