//! `ditto status`: for every mapping of every package, whether its target is
//! linked to the repository, taken by another file, or absent.

use vstd::prelude::*;

use crate::config::{DittoConfig, is_selection, names_distinct, select_packages};
use crate::ops::walk::{
    Cursor, Op, Walk, begin, lemma_selection_targets, new_walk, spec_begin, spec_step, step,
    targets_ok,
};
use crate::ops::{Action, Event};

verus! {

/// Starts `status` over all packages of the configuration.
pub fn start(config: DittoConfig, root: &str, home: Option<String>) -> (r: (Walk, Cursor))
    requires
        targets_ok(&config, seq![], false, None),
        names_distinct(&config),
    ensures
        r.0.wf(),
        r.0.op is Status,
        !r.0.dry_run,
        r.0.config == config,
        is_selection(&config, seq![], false, r.0.selected@),
        r.0.root@ == root@,
        r.0.home == home,
        r.0.platform is None,
        r.1@ == spec_begin(),
{
    let none: Vec<String> = Vec::new();
    let selected = select_packages(&config, &none, false);
    assert(crate::paths::views(none@) =~= seq![]);
    proof {
        lemma_selection_targets(&config, seq![], false, Op::Status, None, selected@);
    }
    (new_walk(Op::Status, false, config, selected, root, home, None), begin())
}

/// Advances `status` by one step: from the event that answered its last
/// action, its next state and action (see `spec_step`).
pub fn run(walk: &Walk, cursor: &Cursor, event: Event) -> (r: (Cursor, Action))
    requires
        walk.wf(),
        walk.op is Status,
        walk.cursor_ok(cursor@),
    ensures
        (r.0@, r.1@) == spec_step(walk, cursor@, event),
        walk.cursor_ok(r.0@),
{
    step(walk, cursor, event)
}

} // verus!
