//! `ditto unlink`: remove the symlinks of the chosen packages and move
//! backed-up originals back, running the unlink hooks.

use vstd::prelude::*;

use crate::config::{DittoConfig, is_selection, names_distinct, select_packages};
use crate::ops::walk::{
    Cursor, Op, Walk, begin, lemma_selection_targets, new_walk, spec_begin, spec_step, step,
    targets_ok,
};
use crate::ops::{Action, Event};
use crate::paths::views;

verus! {

/// Starts `unlink` over the packages named in `packages`, or all of them
/// with `all`. With neither, the command only warns.
pub fn start(
    config: DittoConfig,
    root: &str,
    home: Option<String>,
    packages: &Vec<String>,
    all: bool,
    dry_run: bool,
) -> (r: (Walk, Cursor))
    requires
        (packages@.len() == 0 && !all) || targets_ok(&config, views(packages@), all, None),
        names_distinct(&config),
    ensures
        r.0.wf(),
        r.0.op == (Op::Unlink { nothing_requested: packages@.len() == 0 && !all }),
        r.0.dry_run == dry_run,
        r.0.config == config,
        is_selection(&config, views(packages@), all, r.0.selected@),
        r.0.root@ == root@,
        r.0.home == home,
        r.0.platform is None,
        r.1@ == spec_begin(),
{
    let selected = select_packages(&config, packages, all);
    let op = Op::Unlink { nothing_requested: packages.len() == 0 && !all };
    proof {
        if !(packages@.len() == 0 && !all) {
            lemma_selection_targets(&config, views(packages@), all, op, None, selected@);
        }
    }
    (new_walk(op, dry_run, config, selected, root, home, None), begin())
}

/// Advances `unlink` by one step (see `spec_step`).
pub fn run(walk: &Walk, cursor: &Cursor, event: Event) -> (r: (Cursor, Action))
    requires
        walk.wf(),
        walk.op is Unlink,
        walk.cursor_ok(cursor@),
    ensures
        (r.0@, r.1@) == spec_step(walk, cursor@, event),
        walk.cursor_ok(r.0@),
{
    step(walk, cursor, event)
}

} // verus!
