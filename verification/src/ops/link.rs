//! `ditto link`: symlink the files of the chosen packages into place,
//! running their hooks, and with `--force` backing up and replacing files
//! that are in the way.

use vstd::prelude::*;

use crate::config::{DittoConfig, is_selection, names_distinct, select_packages};
use crate::ops::walk::{
    Cursor, Op, Walk, begin, lemma_selection_targets, new_walk, spec_begin, spec_step, step,
    targets_ok,
};
use crate::ops::{Action, Event};
use crate::paths::{Platform, views};

verus! {

/// Starts `link` over the packages named in `packages` (all when none is).
pub fn start(
    config: DittoConfig,
    root: &str,
    home: Option<String>,
    packages: &Vec<String>,
    force: bool,
    dry_run: bool,
    platform: Option<Platform>,
) -> (r: (Walk, Cursor))
    requires
        targets_ok(&config, views(packages@), false, platform),
        names_distinct(&config),
    ensures
        r.0.wf(),
        r.0.op == (Op::Link { force }),
        r.0.dry_run == dry_run,
        r.0.config == config,
        is_selection(&config, views(packages@), false, r.0.selected@),
        r.0.root@ == root@,
        r.0.home == home,
        r.0.platform == platform,
        r.1@ == spec_begin(),
{
    let selected = select_packages(&config, packages, false);
    proof {
        lemma_selection_targets(&config, views(packages@), false, Op::Link { force }, platform, selected@);
    }
    (new_walk(Op::Link { force }, dry_run, config, selected, root, home, platform), begin())
}

/// Advances `link` by one step (see `spec_step`).
pub fn run(walk: &Walk, cursor: &Cursor, event: Event) -> (r: (Cursor, Action))
    requires
        walk.wf(),
        walk.op is Link,
        walk.cursor_ok(cursor@),
    ensures
        (r.0@, r.1@) == spec_step(walk, cursor@, event),
        walk.cursor_ok(r.0@),
{
    step(walk, cursor, event)
}

} // verus!
