//! Properties that relate the functions of the library.

use vstd::prelude::*;

use crate::backup::spec_backup_path;
use crate::error::DittoErrorView;
use crate::ops::walk::{
    CursorView, Op, Step, Walk, probe_result, spec_after_dir, spec_after_probe, spec_closing,
    spec_make_dir, spec_resume, spec_step, spec_step_plain,
};
use crate::config::{DittoConfig, is_selected, is_selection, names_distinct};
use crate::ops::add::spec_plan;
use crate::ops::{ActionView, Event};
use crate::paths::{spec_expand_tilde, spec_file_name, spec_relative_to_home};

use crate::paths::{
    components, first_slash, is_absolute, is_skipped, join_components, lemma_first_slash_at,
    lemma_first_slash_bounds, lemma_relative_to, spec_join, spec_parent, spec_relative_to,
};

verus! {

/// The components of `a/b` are those of `a` followed by those of `b`.
pub proof fn lemma_components_concat(a: Seq<char>, b: Seq<char>)
    ensures
        components(a + seq!['/'] + b) == components(a) + components(b),
    decreases a.len(),
{
    let p = a + seq!['/'] + b;
    lemma_first_slash_bounds(a);
    if a.len() == 0 {
        lemma_first_slash_at(p, 0);
        assert(p.skip(1) =~= b);
        assert(p.take(0) =~= seq![]);
        assert(components(a) =~= seq![]);
        assert(components(a) + components(b) =~= components(b));
    } else {
        let k = first_slash(a);
        assert forall|i: int| 0 <= i < k implies p[i] != '/' by {
            assert(p[i] == a[i]);
        }
        if k < a.len() {
            assert(p[k] == a[k]);
            lemma_first_slash_at(p, k);
            assert(p.take(k) =~= a.take(k));
            let a2 = a.skip(k + 1);
            assert(p.skip(k + 1) =~= a2 + seq!['/'] + b);
            lemma_components_concat(a2, b);
            if is_skipped(a.take(k)) {
            } else {
                assert(seq![a.take(k)] + (components(a2) + components(b)) =~= (seq![a.take(k)]
                    + components(a2)) + components(b));
            }
        } else {
            assert(p[a.len() as int] == '/');
            lemma_first_slash_at(p, a.len() as int);
            assert(p.take(a.len() as int) =~= a);
            assert(a.take(k) =~= a);
            assert(p.skip(a.len() as int + 1) =~= b);
            assert(components(seq![]) =~= Seq::<Seq<char>>::empty());
            if is_skipped(a) {
                assert(components(a) =~= seq![]);
                assert(components(a) + components(b) =~= components(b));
            } else {
                assert(components(a) =~= seq![a]);
            }
        }
    }
}

/// Joining a relative path appends its components.
pub proof fn lemma_components_join(base: Seq<char>, r: Seq<char>)
    requires
        !is_absolute(r),
    ensures
        components(spec_join(base, r)) == components(base) + components(r),
{
    if base.len() == 0 {
        assert(components(base) =~= seq![]);
        assert(base + r =~= r);
        assert(components(base) + components(r) =~= components(r));
    } else if base.last() == '/' {
        let b0 = base.drop_last();
        assert(base =~= b0 + seq!['/'] + seq![]);
        assert(base + r =~= b0 + seq!['/'] + r);
        lemma_components_concat(b0, r);
        lemma_components_concat(b0, seq![]);
        assert(components(Seq::<char>::empty()) =~= seq![]);
        assert(components(b0) + seq![] =~= components(b0));
    } else {
        lemma_components_concat(base, r);
    }
}

/// A component is a non-empty name other than `.` without separators.
pub open spec fn is_name(c: Seq<char>) -> bool {
    !is_skipped(c) && forall|i: int| 0 <= i < c.len() ==> c[i] != '/'
}

/// Every component of a path is a name.
pub proof fn lemma_components_are_names(p: Seq<char>)
    ensures
        forall|i: int| 0 <= i < components(p).len() ==> is_name(#[trigger] components(p)[i]),
    decreases p.len(),
{
    if p.len() > 0 {
        lemma_first_slash_bounds(p);
        let k = first_slash(p);
        let rest = if k < p.len() { p.skip(k + 1) } else { seq![] };
        lemma_components_are_names(rest);
        let seg = p.take(k);
        assert forall|j: int| 0 <= j < seg.len() implies seg[j] != '/' by {
            assert(seg[j] == p[j]);
        }
        if !is_skipped(seg) {
            assert forall|i: int| 0 <= i < components(p).len() implies is_name(
                #[trigger] components(p)[i],
            ) by {
                if i > 0 {
                    assert(components(p)[i] == components(rest)[i - 1]);
                }
            }
        }
    }
}

/// A name is its own only component.
pub proof fn lemma_components_of_name(c: Seq<char>)
    requires
        is_name(c),
    ensures
        components(c) == seq![c],
{
    lemma_first_slash_at(c, c.len() as int);
    assert(c.take(c.len() as int) =~= c);
    assert(components(Seq::<char>::empty()) =~= seq![]);
}

/// Names written out with separators split back into the same names.
pub proof fn lemma_components_of_joined(cs: Seq<Seq<char>>)
    requires
        forall|i: int| 0 <= i < cs.len() ==> is_name(#[trigger] cs[i]),
    ensures
        components(join_components(cs)) == cs,
    decreases cs.len(),
{
    if cs.len() == 0 {
        assert(components(Seq::<char>::empty()) =~= seq![]);
    } else if cs.len() == 1 {
        lemma_components_of_name(cs[0]);
        assert(cs =~= seq![cs[0]]);
    } else {
        let init = cs.drop_last();
        lemma_components_of_joined(init);
        lemma_components_concat(join_components(init), cs.last());
        lemma_components_of_name(cs.last());
        assert(init + seq![cs.last()] =~= cs);
    }
}

/// Law: a path joined under a base is found again relative to that base,
/// with the same components.
pub proof fn law_relative_to_join(base: Seq<char>, r: Seq<char>)
    requires
        !is_absolute(r),
    ensures
        spec_relative_to(spec_join(base, r), base) is Some,
        components(spec_relative_to(spec_join(base, r), base)->Some_0) == components(r),
{
    let p = spec_join(base, r);
    lemma_components_join(base, r);
    let bc = components(base);
    let pc = components(p);
    assert(pc.take(bc.len() as int) =~= bc);
    assert(pc.skip(bc.len() as int) =~= components(r));
    if base.len() > 0 {
        assert(p[0] == base[0]);
    } else {
        assert(p =~= r);
    }
    lemma_relative_to(p, base);
}

/// The parent of a path has all its components but the last.
pub proof fn lemma_components_parent(p: Seq<char>)
    ensures
        spec_parent(p) matches Some(q) ==> components(q) == components(p).drop_last()
            && components(p).len() > 0,
{
    let c = components(p);
    if c.len() > 0 {
        lemma_components_are_names(p);
        let init = c.drop_last();
        assert forall|i: int| 0 <= i < init.len() implies is_name(#[trigger] init[i]) by {
            assert(init[i] == c[i]);
        }
        lemma_components_of_joined(init);
        if is_absolute(p) {
            let j = join_components(init);
            assert(seq!['/'] + j =~= Seq::<char>::empty() + seq!['/'] + j);
            lemma_components_concat(Seq::<char>::empty(), j);
            assert(components(Seq::<char>::empty()) =~= seq![]);
            assert(Seq::<Seq<char>>::empty() + components(j) =~= components(j));
        }
    }
}


/// Actions a walk takes when it moves on to the next file or package.
pub open spec fn is_advance(a: ActionView) -> bool {
    a is Say || a is RunHook || a is Probe || a is CheckBoth || a is Fail || a is Finish
}

/// Actions that change the file system.
pub open spec fn is_change(a: ActionView) -> bool {
    a is Backup || a is RemoveFile || a is CreateSymlink || a is Restore || a is CreateDirAll
        || a is Rename || a is UpdateConfig
}

proof fn lemma_closing_kind(w: &Walk, diffs: bool)
    ensures
        is_advance(spec_closing(w, diffs).1),
        !(spec_closing(w, diffs).1 is RunHook),
{
}

/// Moving on only says, probes, runs hooks (of `link` and `unlink`) or ends.
proof fn lemma_resume_kind(w: &Walk, pkg: int, file: int, diffs: bool)
    ensures
        is_advance(spec_resume(w, pkg, file, diffs).1),
        spec_resume(w, pkg, file, diffs).1 is RunHook ==> (w.op is Link || w.op is Unlink)
            && !w.dry_run,
    decreases w.pkg_count() - pkg, w.file_count(pkg) - file,
{
    lemma_closing_kind(w, diffs);
    if 0 <= pkg < w.pkg_count() {
        if file < 0 {
            lemma_resume_kind(w, pkg, 0, diffs);
        } else if file >= w.file_count(pkg) {
            lemma_resume_kind(w, pkg + 1, -1, diffs);
        }
    }
}

proof fn lemma_resume_kinds(w: &Walk, c: CursorView)
    ensures
        forall|pkg: int, file: int|
            (pkg == 0 || pkg == c.pkg || pkg == c.pkg + 1) && (file == -1 || file == 0 || file
                == c.file + 1) ==> is_advance(#[trigger] spec_resume(w, pkg, file, c.diffs).1)
                && (spec_resume(w, pkg, file, c.diffs).1 is RunHook ==> (w.op is Link
                || w.op is Unlink) && !w.dry_run),
{
    assert forall|pkg: int, file: int|
        (pkg == 0 || pkg == c.pkg || pkg == c.pkg + 1) && (file == -1 || file == 0 || file == c.file
            + 1) implies is_advance(#[trigger] spec_resume(w, pkg, file, c.diffs).1) && (spec_resume(
        w,
        pkg,
        file,
        c.diffs,
    ).1 is RunHook ==> (w.op is Link || w.op is Unlink) && !w.dry_run) by {
        lemma_resume_kind(w, pkg, file, c.diffs);
    }
}

/// Law: a dry run changes nothing: it backs up, removes, links, restores
/// and creates nothing, and runs no hook.
pub proof fn law_dry_run_keeps_files(w: &Walk, c: CursorView, ev: Event)
    requires
        w.wf(),
        w.cursor_ok(c),
        w.dry_run,
    ensures
        !is_change(spec_step(w, c, ev).1),
        !(spec_step(w, c, ev).1 is RunHook),
{
    lemma_resume_kinds(w, c);
}

/// Law: `status` and `diff` change nothing and run no hook.
pub proof fn law_status_and_diff_read_only(w: &Walk, c: CursorView, ev: Event)
    requires
        w.wf(),
        w.cursor_ok(c),
        w.op is Status || w.op is Diff,
    ensures
        !is_change(spec_step(w, c, ev).1),
        !(spec_step(w, c, ev).1 is RunHook),
{
    lemma_resume_kinds(w, c);
}

/// Law: without `--force`, `link` never backs up or removes a file.
pub proof fn law_link_without_force_keeps_conflicts(w: &Walk, c: CursorView, ev: Event)
    requires
        w.wf(),
        w.cursor_ok(c),
        w.op == (Op::Link { force: false }),
    ensures
        !(spec_step(w, c, ev).1 is Backup),
        !(spec_step(w, c, ev).1 is RemoveFile),
{
    lemma_resume_kinds(w, c);
}

/// Law: `link` removes a file only right after the file was backed up, to
/// its backup location, without failure.
pub proof fn law_link_removes_only_after_backup(w: &Walk, c: CursorView, ev: Event)
    requires
        w.wf(),
        w.cursor_ok(c),
        w.op is Link,
        spec_step(w, c, ev).1 is RemoveFile,
    ensures
        c.step is BackedUp,
        !(ev is Failed),
        spec_step(w, c, ev).1 == ActionView::RemoveFile(c.target),
        spec_backup_path(c.target, w.backup_dir@, crate::paths::option_view(w.home)) == Ok::<
            Seq<char>,
            DittoErrorView,
        >(c.backup),
{
    lemma_resume_kinds(w, c);
}

/// Law: `unlink` removes only a target that was just found to be a symlink
/// to its repository file.
pub proof fn law_unlink_removes_only_links(w: &Walk, c: CursorView, ev: Event)
    requires
        w.wf(),
        w.cursor_ok(c),
        w.op is Unlink,
        spec_step(w, c, ev).1 is RemoveFile,
    ensures
        c.step is Probed,
        ev matches Event::Probed { linked, .. } && linked,
        spec_step(w, c, ev).1 == ActionView::RemoveFile(c.target),
{
    lemma_resume_kinds(w, c);
}

/// Law: `link` leaves a target that already is a symlink to its repository
/// file as it is: after such a probe it only reports it.
pub proof fn law_link_leaves_linked_files(w: &Walk, c: CursorView, exists: bool)
    requires
        w.wf(),
        w.cursor_ok(c),
        w.op is Link,
        c.step is Probed,
    ensures
        spec_step(w, c, Event::Probed { linked: true, exists }) == (
            CursorView { step: Step::FileDone, ..c },
            ActionView::Say(crate::ops::Level::Info, c.target + " already linked"@),
        ),
{
}

/// The order of the steps a walk takes at one position.
pub open spec fn step_rank(s: Step) -> int {
    match s {
        Step::Start => 0,
        Step::Header => 1,
        Step::NothingToUnlink => 2,
        Step::SkippedPackage => 3,
        Step::PreHookRan => 4,
        Step::Probed => 5,
        Step::CheckedBoth => 6,
        Step::ReadSource => 7,
        Step::ReadTarget => 8,
        Step::WouldBackup => 9,
        Step::BackedUp => 10,
        Step::RemovedConflict => 11,
        Step::MadeDir => 12,
        Step::Linked => 13,
        Step::Unlinked => 14,
        Step::SaidUnlinked => 15,
        Step::BackupProbed => 16,
        Step::Restored => 17,
        Step::FileDone => 18,
        Step::PostHookRan => 19,
        Step::Closing => 20,
        Step::Finished => 21,
    }
}

/// The phase of a walk: before the packages, inside them, closing, ended.
pub open spec fn phase(s: Step) -> int {
    if s is Start || s is Header || s is NothingToUnlink {
        0
    } else if s is Closing {
        2
    } else if s is Finished {
        3
    } else {
        1
    }
}

/// Cursor `a` comes before cursor `b`: in an earlier phase, or inside the
/// packages at an earlier package, file or step, or before the packages at
/// an earlier step.
pub open spec fn precedes(a: CursorView, b: CursorView) -> bool {
    ||| phase(a.step) < phase(b.step)
    ||| phase(a.step) == 0 && phase(b.step) == 0 && step_rank(a.step) < step_rank(b.step)
    ||| phase(a.step) == 1 && phase(b.step) == 1 && (a.pkg < b.pkg || (a.pkg == b.pkg && (a.file
        < b.file || (a.file == b.file && step_rank(a.step) < step_rank(b.step)))))
}

/// Moving on from position `file` of package `pkg` lands at that position
/// or later, at a probe or later step when it is the same file.
proof fn lemma_resume_forward(w: &Walk, pkg: int, file: int, diffs: bool)
    ensures
        ({
            let r = spec_resume(w, pkg, file, diffs).0;
            phase(r.step) >= 2 || (phase(r.step) == 1 && (pkg < r.pkg || (r.pkg == pkg && file
                <= r.file && (r.file == file ==> step_rank(r.step) >= 5))))
        }),
    decreases w.pkg_count() - pkg, w.file_count(pkg) - file,
{
    if 0 <= pkg < w.pkg_count() {
        if file < 0 {
            lemma_resume_forward(w, pkg, 0, diffs);
        } else if file >= w.file_count(pkg) {
            lemma_resume_forward(w, pkg + 1, -1, diffs);
        }
    }
}

/// Law: every step of a walk moves its cursor forward (see `precedes`), and
/// an ended walk stays ended. As the cursors a walk continues from have
/// bounded packages, files and steps (`cursor_ok`), every command ends.
pub proof fn law_walk_moves_forward(w: &Walk, c: CursorView, ev: Event)
    requires
        w.wf(),
        w.cursor_ok(c),
    ensures
        !(c.step is Finished) ==> precedes(c, spec_step(w, c, ev).0),
        c.step is Finished ==> spec_step(w, c, ev).0.step is Finished && spec_step(w, c, ev).1
            == ActionView::Finish,
{
    lemma_resume_forward(w, 0, -1, c.diffs);
    lemma_resume_forward(w, c.pkg, 0, c.diffs);
    lemma_resume_forward(w, c.pkg, c.file + 1, c.diffs);
    lemma_resume_forward(w, c.pkg + 1, -1, c.diffs);
}

/// Moving on keeps the record of differences; `diff` closes with its
/// message only when it found none.
proof fn lemma_resume_diffs(w: &Walk, pkg: int, file: int, diffs: bool)
    ensures
        !(spec_resume(w, pkg, file, diffs).0.step is Finished) ==> spec_resume(
            w,
            pkg,
            file,
            diffs,
        ).0.diffs == diffs,
        w.op is Diff && spec_resume(w, pkg, file, diffs).0.step is Closing ==> !diffs
            && spec_resume(w, pkg, file, diffs).1 == ActionView::Say(
            crate::ops::Level::Info,
            "Everything in sync."@,
        ),
    decreases w.pkg_count() - pkg, w.file_count(pkg) - file,
{
    if 0 <= pkg < w.pkg_count() {
        if file < 0 {
            lemma_resume_diffs(w, pkg, 0, diffs);
        } else if file >= w.file_count(pkg) {
            lemma_resume_diffs(w, pkg + 1, -1, diffs);
        }
    }
}

/// Law: `diff` records a difference exactly when it shows one, keeps the
/// record to the end, and says "Everything in sync." only when it has
/// recorded none.
pub proof fn law_diff_in_sync_only_without_differences(w: &Walk, c: CursorView, ev: Event)
    requires
        w.wf(),
        w.cursor_ok(c),
        w.op is Diff,
    ensures
        spec_step(w, c, ev).1 is ShowDiff ==> spec_step(w, c, ev).0.diffs,
        !(spec_step(w, c, ev).0.step is Finished) && !(spec_step(w, c, ev).1 is ShowDiff)
            ==> spec_step(w, c, ev).0.diffs == c.diffs,
        spec_step(w, c, ev).0.step is Closing ==> !c.diffs && spec_step(w, c, ev).1
            == ActionView::Say(crate::ops::Level::Info, "Everything in sync."@),
{
    lemma_resume_kinds(w, c);
    lemma_resume_diffs(w, 0, -1, c.diffs);
    lemma_resume_diffs(w, c.pkg, 0, c.diffs);
    lemma_resume_diffs(w, c.pkg, c.file + 1, c.diffs);
    lemma_resume_diffs(w, c.pkg + 1, -1, c.diffs);
}

/// Law: the place `link --force` backs a file up to is the place `unlink`
/// restores it from, when both use the same backup directory and home.
pub proof fn law_backup_and_restore_agree(
    wl: &Walk,
    cl: CursorView,
    el: Event,
    wu: &Walk,
    cu: CursorView,
    eu: Event,
    target: Seq<char>,
    saved: Seq<char>,
    restored: Seq<char>,
)
    requires
        wl.wf(),
        wl.cursor_ok(cl),
        wl.op is Link,
        wu.wf(),
        wu.cursor_ok(cu),
        wu.op is Unlink,
        wl.backup_dir@ == wu.backup_dir@,
        crate::paths::option_view(wl.home) == crate::paths::option_view(wu.home),
        spec_step(wl, cl, el).1 == (ActionView::Backup { target, backup: saved }),
        spec_step(wu, cu, eu).1 == (ActionView::Restore { backup: restored, target }),
    ensures
        saved == restored,
        spec_backup_path(target, wl.backup_dir@, crate::paths::option_view(wl.home)) == Ok::<
            Seq<char>,
            DittoErrorView,
        >(saved),
{
    lemma_resume_kinds(wl, cl);
    lemma_resume_kinds(wu, cu);
}


/// Law: the backup of a file under the home directory lies under the backup
/// directory at the same relative place.
pub proof fn law_backup_mirrors_home(home: Seq<char>, rel: Seq<char>, backup_dir: Seq<char>)
    requires
        !is_absolute(rel),
    ensures
        spec_backup_path(spec_join(home, rel), backup_dir, Some(home)) is Ok,
        components(spec_backup_path(spec_join(home, rel), backup_dir, Some(home))->Ok_0)
            == components(backup_dir) + components(rel),
{
    law_relative_to_join(home, rel);
    let q = spec_relative_to(spec_join(home, rel), home)->Some_0;
    lemma_relative_to(spec_join(home, rel), home);
    lemma_components_join(backup_dir, q);
}

/// The backup of a path under the home directory is the backup directory
/// followed by the path's components below the home directory.
proof fn lemma_backup_components(t: Seq<char>, backup_dir: Seq<char>, home: Seq<char>)
    requires
        spec_backup_path(t, backup_dir, Some(home)) is Ok,
    ensures
        components(home).len() <= components(t).len(),
        components(t).take(components(home).len() as int) == components(home),
        components(spec_backup_path(t, backup_dir, Some(home))->Ok_0) == components(backup_dir)
            + components(t).skip(components(home).len() as int),
{
    lemma_relative_to(t, home);
    lemma_components_join(backup_dir, spec_relative_to(t, home)->Some_0);
}

/// Law: two different files under the home directory never share a backup
/// location, so one backup never overwrites another.
pub proof fn law_distinct_targets_distinct_backups(
    t1: Seq<char>,
    t2: Seq<char>,
    backup_dir: Seq<char>,
    home: Seq<char>,
)
    requires
        spec_backup_path(t1, backup_dir, Some(home)) is Ok,
        spec_backup_path(t2, backup_dir, Some(home)) is Ok,
        components(t1) != components(t2),
    ensures
        components(spec_backup_path(t1, backup_dir, Some(home))->Ok_0) != components(
            spec_backup_path(t2, backup_dir, Some(home))->Ok_0,
        ),
        spec_backup_path(t1, backup_dir, Some(home))->Ok_0 != spec_backup_path(
            t2,
            backup_dir,
            Some(home),
        )->Ok_0,
{
    lemma_backup_components(t1, backup_dir, home);
    lemma_backup_components(t2, backup_dir, home);
    let h = components(home).len() as int;
    let c1 = components(t1);
    let c2 = components(t2);
    let b = components(backup_dir);
    if b + c1.skip(h) == b + c2.skip(h) {
        assert(c1.skip(h) =~= (b + c1.skip(h)).skip(b.len() as int));
        assert(c2.skip(h) =~= (b + c2.skip(h)).skip(b.len() as int));
        assert(c1 =~= c1.take(h) + c1.skip(h));
        assert(c2 =~= c2.take(h) + c2.skip(h));
    }
}

/// Law: with distinct package names, naming one package that the
/// configuration has selects that package alone.
pub proof fn law_single_name_selects_one(
    config: &DittoConfig,
    i: int,
    sel: Seq<usize>,
)
    requires
        names_distinct(config),
        0 <= i < config.packages@.len(),
        is_selection(config, seq![config.name_at(i)], false, sel),
    ensures
        sel == seq![i as usize],
{
    let one = seq![i as usize];
    let req = seq![config.name_at(i)];
    assert forall|j: int|
        0 <= j < config.packages@.len() && is_selected(config, req, false, j) implies exists|
        k: int,
    | 0 <= k < one.len() && #[trigger] one[k] == j by {
        assert(req.contains(config.name_at(j)));
        assert(config.name_at(j) == config.name_at(i));
        assert(j == i);
        assert(one[0] == j);
    }
    assert(req[0] == config.name_at(i));
    assert(is_selected(config, req, false, i));
    assert(is_selection(config, req, false, one));
    law_selection_unique(config, req, false, sel, one);
}

/// A file system, as far as the commands' actions touch it: each path holds
/// a file with its text or a symlink to another path.
pub enum Node {
    File(Seq<char>),
    Link(Seq<char>),
}

/// What an action does to a file system: a backup copies, a removal
/// removes, a symlink is created, a restore moves the backup back; other
/// actions (messages, probes, directories, hooks) leave the files as they are.
pub open spec fn perform(fs: Map<Seq<char>, Node>, a: ActionView) -> Map<Seq<char>, Node> {
    match a {
        ActionView::Backup { target, backup } => if fs.contains_key(target) {
            fs.insert(backup, fs[target])
        } else {
            fs
        },
        ActionView::RemoveFile(p) => fs.remove(p),
        ActionView::CreateSymlink { source, target } => fs.insert(target, Node::Link(source)),
        ActionView::Restore { backup, target } => if fs.contains_key(backup) {
            fs.remove(backup).insert(target, fs[backup])
        } else {
            fs
        },
        _ => fs,
    }
}

/// How a file system answers an action once it is performed.
pub open spec fn answer(fs: Map<Seq<char>, Node>, a: ActionView) -> Event {
    match a {
        ActionView::Probe { target, source } => Event::Probed {
            linked: fs.contains_key(target) && fs[target] == Node::Link(source),
            exists: fs.contains_key(target),
        },
        ActionView::CheckExists(p) => Event::Exists(fs.contains_key(p)),
        _ => Event::Done,
    }
}

/// `n` steps of a walk from cursor `c` and answer `ev`, each action
/// performed on the file system `fs` and answered by it.
pub open spec fn play(w: &Walk, c: CursorView, ev: Event, fs: Map<Seq<char>, Node>, n: nat) -> (
    CursorView,
    Map<Seq<char>, Node>,
)
    decreases n,
{
    if n == 0 {
        (c, fs)
    } else {
        let (c2, a) = spec_step(w, c, ev);
        let fs2 = perform(fs, a);
        play(w, c2, answer(fs2, a), fs2, (n - 1) as nat)
    }
}

/// Law: a backup is found at its place right after it is made, and moving it
/// back after the file was removed gives the file back and leaves no backup.
/// (The backup location must not be the file itself.)
pub proof fn law_backup_then_restore(fs: Map<Seq<char>, Node>, t: Seq<char>, b: Seq<char>)
    requires
        fs.contains_key(t),
        b != t,
    ensures
        ({
            let backed = perform(fs, ActionView::Backup { target: t, backup: b });
            let restored = perform(
                perform(backed, ActionView::RemoveFile(t)),
                ActionView::Restore { backup: b, target: t },
            );
            &&& answer(backed, ActionView::CheckExists(b)) == Event::Exists(true)
            &&& backed[b] == fs[t]
            &&& restored == fs.remove(b)
        }),
{
    let backed = perform(fs, ActionView::Backup { target: t, backup: b });
    let removed = perform(backed, ActionView::RemoveFile(t));
    assert(removed.contains_key(b));
    let restored = perform(removed, ActionView::Restore { backup: b, target: t });
    assert(restored =~= fs.remove(b));
}

/// Law: `link --force` over a file in the way, then `unlink`, gives the file
/// back: after `link` the target is a symlink to its repository file and the
/// file's content is in its backup (replacing any older backup); after
/// `unlink` the file system is as it was before, without a backup. (The
/// backup location must not be the target itself.)
pub proof fn law_force_link_then_unlink_restores(
    wl: &Walk,
    cl: CursorView,
    wu: &Walk,
    cu: CursorView,
    fs: Map<Seq<char>, Node>,
)
    requires
        wl.wf(),
        wl.cursor_ok(cl),
        wl.op == (Op::Link { force: true }),
        !wl.dry_run,
        cl.step is Probed,
        wu.wf(),
        wu.cursor_ok(cu),
        wu.op is Unlink,
        !wu.dry_run,
        cu.step is Probed,
        wu.backup_dir@ == wl.backup_dir@,
        wu.home == wl.home,
        cu.target == cl.target,
        cu.source == cl.source,
        spec_backup_path(cl.target, wl.backup_dir@, crate::paths::option_view(wl.home)) is Ok,
        spec_backup_path(cl.target, wl.backup_dir@, crate::paths::option_view(wl.home))->Ok_0
            != cl.target,
        fs.contains_key(cl.target),
        fs[cl.target] is File,
    ensures
        ({
            let t = cl.target;
            let b = spec_backup_path(t, wl.backup_dir@, crate::paths::option_view(wl.home))->Ok_0;
            let probe = ActionView::Probe { target: t, source: cl.source };
            let linked = play(wl, cl, answer(fs, probe), fs, 4).1;
            let back = play(wu, cu, answer(linked, probe), linked, 4).1;
            &&& linked[t] == Node::Link(cl.source)
            &&& linked[b] == fs[t]
            &&& back == fs.remove(b)
        }),
{
    let t = cl.target;
    let src = cl.source;
    let b = spec_backup_path(t, wl.backup_dir@, crate::paths::option_view(wl.home))->Ok_0;
    let probe = ActionView::Probe { target: t, source: src };
    reveal_with_fuel(play, 5);
    // link: back up, remove, (make the directory,) link.
    let ev0 = answer(fs, probe);
    assert(ev0 == Event::Probed { linked: false, exists: true });
    let (c1, a1) = spec_step(wl, cl, ev0);
    assert(a1 == ActionView::Backup { target: t, backup: b });
    let f1 = perform(fs, a1);
    let (c2, a2) = spec_step(wl, c1, Event::Done);
    assert(a2 == ActionView::RemoveFile(t));
    let f2 = perform(f1, a2);
    let (c3, a3) = spec_step(wl, c2, Event::Done);
    let f3 = perform(f2, a3);
    let (c4, a4) = spec_step(wl, c3, Event::Done);
    let f4 = perform(f3, a4);
    assert(answer(f1, a1) == Event::Done);
    assert(answer(f2, a2) == Event::Done);
    assert(answer(f3, a3) == Event::Done);
    assert(f4 =~= fs.insert(b, fs[t]).insert(t, Node::Link(src)));
    assert(play(wl, cl, ev0, fs, 4).1 == f4);
    // unlink: remove the symlink, report, find the backup, restore it.
    let ev5 = answer(f4, probe);
    assert(ev5 matches Event::Probed { linked, .. } && linked);
    let (u1, d1) = spec_step(wu, cu, ev5);
    assert(d1 == ActionView::RemoveFile(t));
    let g1 = perform(f4, d1);
    let (u2, d2) = spec_step(wu, u1, Event::Done);
    let g2 = perform(g1, d2);
    let (u3, d3) = spec_step(wu, u2, Event::Done);
    assert(d3 == ActionView::CheckExists(b));
    let g3 = perform(g2, d3);
    assert(answer(g3, d3) == Event::Exists(true));
    let (u4, d4) = spec_step(wu, u3, Event::Exists(true));
    assert(d4 == ActionView::Restore { backup: b, target: t });
    let g4 = perform(g3, d4);
    assert(g4 =~= fs.remove(b));
    assert(play(wu, cu, ev5, f4, 4).1 == g4);
}

/// Law: the mapping `add` records leads back to the files it handled: its
/// `src` (`package/name`), taken under the root, is the place the file was
/// moved to, and its `target` (`~/rel`) expands to the place the file came
/// from, up to how separators are written.
pub proof fn law_add_mapping_round_trip(
    root: Seq<char>,
    file: Seq<char>,
    package: Seq<char>,
    home: Seq<char>,
    name: Seq<char>,
    rel: Seq<char>,
)
    requires
        spec_file_name(file) == Some(name),
        spec_relative_to_home(file, Some(home)) == Ok::<Seq<char>, DittoErrorView>(rel),
        package.len() > 0,
    ensures
        components(spec_join(root, package + "/"@ + name)) == components(
            spec_join(spec_join(root, package), name),
        ),
        spec_expand_tilde("~/"@ + rel, Some(home)) matches Ok(t) && components(t) == components(
            file,
        ) && is_absolute(t) == is_absolute(file),
{
    reveal_strlit("/");
    reveal_strlit("~/");
    // The moved file.
    lemma_components_are_names(file);
    let fc = components(file);
    assert(is_name(fc.last()));
    assert(name == fc.last());
    lemma_components_of_name(name);
    let src = package + seq!['/'] + name;
    assert(package + "/"@ + name == src);
    if is_absolute(package) {
        assert(src[0] == '/');
        assert(spec_join(root, package) == package);
        assert(spec_join(root, src) == src);
        lemma_components_concat(package, name);
        lemma_components_join(package, name);
    } else {
        assert(src[0] == package[0]);
        lemma_components_join(root, src);
        lemma_components_concat(package, name);
        lemma_components_join(root, package);
        lemma_components_join(spec_join(root, package), name);
        assert(components(root) + (components(package) + components(name)) =~= (components(root)
            + components(package)) + components(name));
    }
    // The place the file came from.
    let hc = components(home);
    let rest = fc.skip(hc.len() as int);
    lemma_relative_to(file, home);
    let tr = "~/"@ + rel;
    assert(tr.skip(2) =~= rel);
    let t = spec_join(home, rel);
    lemma_components_join(home, rel);
    assert(fc.take(hc.len() as int) + rest =~= fc);
    if home.len() > 0 {
        assert(t[0] == home[0]);
    } else {
        assert(t =~= rel);
    }
}

/// Law: a dry run of `add` only describes what it would do.
pub proof fn law_add_dry_run_only_says(
    config_path: Seq<char>,
    root: Seq<char>,
    file: Seq<char>,
    package: Seq<char>,
    home: Option<Seq<char>>,
    exists: bool,
)
    ensures
        spec_plan(config_path, root, file, package, true, home, exists) matches Ok(acts) ==> forall|
            i: int,
        |
            0 <= i < acts.len() ==> #[trigger] acts[i] is Say,
{
}


/// Strictly increasing.
pub open spec fn increasing(a: Seq<usize>) -> bool {
    forall|k: int, l: int| 0 <= k < l < a.len() ==> a[k] < a[l]
}

/// Two increasing sequences with the same elements are equal.
proof fn lemma_increasing_unique(a: Seq<usize>, b: Seq<usize>)
    requires
        increasing(a),
        increasing(b),
        forall|x: usize| a.contains(x) <==> b.contains(x),
    ensures
        a == b,
    decreases a.len() + b.len(),
{
    if a.len() == 0 {
        if b.len() > 0 {
            assert(b.contains(b[0]));
        }
        assert(a =~= b);
    } else {
        assert(a.contains(a[0]));
        let j = choose|j: int| 0 <= j < b.len() && b[j] == a[0];
        assert(b.contains(b[0]));
        let i = choose|i: int| 0 <= i < a.len() && a[i] == b[0];
        if i > 0 {
            assert(a[0] < a[i]);
        }
        if j > 0 {
            assert(b[0] < b[j]);
        }
        assert(a[0] == b[0]);
        let a2 = a.drop_first();
        let b2 = b.drop_first();
        assert forall|x: usize| a2.contains(x) <==> b2.contains(x) by {
            if a2.contains(x) {
                let k = choose|k: int| 0 <= k < a2.len() && a2[k] == x;
                assert(a[k + 1] == x);
                assert(a[0] < a[k + 1]);
                assert(a.contains(x));
                let m = choose|m: int| 0 <= m < b.len() && b[m] == x;
                assert(m != 0);
                assert(b2[m - 1] == x);
            }
            if b2.contains(x) {
                let k = choose|k: int| 0 <= k < b2.len() && b2[k] == x;
                assert(b[k + 1] == x);
                assert(b[0] < b[k + 1]);
                assert(b.contains(x));
                let m = choose|m: int| 0 <= m < a.len() && a[m] == x;
                assert(m != 0);
                assert(a2[m - 1] == x);
            }
        }
        lemma_increasing_unique(a2, b2);
        assert(a =~= seq![a[0]] + a2);
        assert(b =~= seq![b[0]] + b2);
    }
}

/// Law: the packages a command works on are determined: any two lists that
/// meet `is_selection` (the contract of `select_packages`) are the same.
pub proof fn law_selection_unique(
    config: &DittoConfig,
    requested: Seq<Seq<char>>,
    all: bool,
    s1: Seq<usize>,
    s2: Seq<usize>,
)
    requires
        is_selection(config, requested, all, s1),
        is_selection(config, requested, all, s2),
    ensures
        s1 == s2,
{
    assert forall|x: usize| s1.contains(x) <==> s2.contains(x) by {
        if s1.contains(x) {
            let k = choose|k: int| 0 <= k < s1.len() && s1[k] == x;
            assert(is_selected(config, requested, all, s1[k] as int));
            let m = choose|m: int| 0 <= m < s2.len() && #[trigger] s2[m] == x as int;
            assert(s2[m] == x);
        }
        if s2.contains(x) {
            let k = choose|k: int| 0 <= k < s2.len() && s2[k] == x;
            assert(is_selected(config, requested, all, s2[k] as int));
            let m = choose|m: int| 0 <= m < s1.len() && #[trigger] s1[m] == x as int;
            assert(s1[m] == x);
        }
    }
    lemma_increasing_unique(s1, s2);
}

/// The live place of mapping `j` of the `pkg`-th package a walk works on:
/// its `target`, with a leading `~` expanded to the walk's home directory.
pub open spec fn mapping_target(w: &Walk, pkg: int, j: int) -> Result<Seq<char>, DittoErrorView> {
    spec_expand_tilde(w.package(pkg).files@[j].target@, crate::paths::option_view(w.home))
}

/// The repository file of mapping `j` of the `pkg`-th package: the root
/// joined with its `src`.
pub open spec fn mapping_source(w: &Walk, pkg: int, j: int) -> Seq<char> {
    spec_join(w.root@, w.package(pkg).files@[j].src@)
}

/// What a command asks first about mapping `j`: `diff` whether both of its
/// files exist, the others whether its target is linked; a target that
/// cannot be expanded ends the command.
pub open spec fn visit(w: &Walk, pkg: int, j: int) -> ActionView {
    match mapping_target(w, pkg, j) {
        Err(e) => ActionView::Fail(e),
        Ok(t) => if w.op is Diff {
            ActionView::CheckBoth { source: mapping_source(w, pkg, j), target: t }
        } else {
            ActionView::Probe { target: t, source: mapping_source(w, pkg, j) }
        },
    }
}

/// The step after `c` answered with `ev`, and the one after that answered
/// with `ev2`.
pub open spec fn two_steps(w: &Walk, c: CursorView, ev: Event, ev2: Event) -> (ActionView, (
    CursorView,
    ActionView,
)) {
    (spec_step(w, c, ev).1, spec_step(w, spec_step(w, c, ev).0, ev2))
}

/// Law: a command begins with the first mapping of its first package, once
/// it has announced itself (`status`) or run the package's hook before it.
pub proof fn law_walk_starts_at_first_mapping(w: &Walk, c: CursorView)
    requires
        w.wf(),
        w.cursor_ok(c),
        c.step is Start,
        w.pkg_count() > 0,
        w.file_count(0) > 0,
        w.enters(0),
    ensures
        ({
            let (a1, (c2, a2)) = two_steps(w, c, Event::Start, Event::Done);
            a1 == visit(w, 0, 0) || ((a1 is RunHook || a1 is Say) && a2 == visit(w, 0, 0))
        }),
{
    reveal_with_fuel(spec_resume, 3);
}

/// Law: `link` creates the symlink of every mapping it finds absent, from
/// the mapping's live place to its repository file (after making the
/// directory above, when there is one).
pub proof fn law_link_creates_each_symlink(w: &Walk, c: CursorView)
    requires
        w.wf(),
        w.cursor_ok(c),
        w.op is Link,
        !w.dry_run,
        c.step is Probed,
    ensures
        ({
            let (a1, (c2, a2)) = two_steps(
                w,
                c,
                Event::Probed { linked: false, exists: false },
                Event::Done,
            );
            let link = ActionView::CreateSymlink {
                source: mapping_source(w, c.pkg, c.file),
                target: mapping_target(w, c.pkg, c.file)->Ok_0,
            };
            a1 == link || (a1 is CreateDirAll && a2 == link)
        }),
{
}

/// Law: once `link` has created the symlink of mapping `j`, it reports it
/// and goes on to mapping `j + 1` of the same package, when there is one.
pub proof fn law_link_goes_through_every_mapping(w: &Walk, c: CursorView)
    requires
        w.wf(),
        w.cursor_ok(c),
        w.op is Link,
        c.step is Linked,
        c.file + 1 < w.file_count(c.pkg),
    ensures
        ({
            let (a1, (c2, a2)) = two_steps(w, c, Event::Done, Event::Done);
            &&& a1 is Say
            &&& a2 == visit(w, c.pkg, c.file + 1)
            &&& a2 is Probe ==> c2.pkg == c.pkg && c2.file == c.file + 1
        }),
{
}

/// Law: `unlink` removes the target of every mapping it finds linked; once
/// it has removed it, it reports it and looks for the backup at the target's
/// backup place, restores it when it is there, and then goes on to mapping
/// `j + 1` of the same package, when there is one.
pub proof fn law_unlink_goes_through_every_mapping(w: &Walk, c: CursorView, exists: bool)
    requires
        w.wf(),
        w.cursor_ok(c),
        w.op is Unlink,
        !w.dry_run,
        c.step is Probed,
        c.file + 1 < w.file_count(c.pkg),
        spec_backup_path(c.target, w.backup_dir@, crate::paths::option_view(w.home)) is Ok,
    ensures
        ({
            let t = mapping_target(w, c.pkg, c.file)->Ok_0;
            let b = spec_backup_path(t, w.backup_dir@, crate::paths::option_view(w.home))->Ok_0;
            let (a1, (c2, a2)) = two_steps(
                w,
                c,
                Event::Probed { linked: true, exists },
                Event::Done,
            );
            let (c3, a3) = spec_step(w, c2, Event::Done);
            let (c4, a4) = spec_step(w, c3, Event::Exists(false));
            let (c5, a5) = spec_step(w, c3, Event::Exists(true));
            let (c6, a6) = spec_step(w, c5, Event::Done);
            let (c7, a7) = spec_step(w, c6, Event::Done);
            &&& a1 == ActionView::RemoveFile(t)
            &&& a2 is Say
            &&& a3 == ActionView::CheckExists(b)
            &&& a4 == visit(w, c.pkg, c.file + 1)
            &&& a5 == ActionView::Restore { backup: b, target: t }
            &&& a6 is Say
            &&& a7 == visit(w, c.pkg, c.file + 1)
            &&& a4 is Probe ==> c4.pkg == c.pkg && c4.file == c.file + 1
            &&& a7 is Probe ==> c7.pkg == c.pkg && c7.file == c.file + 1
        }),
{
}

/// Law: `status` reports every mapping, in order, in one line that names the
/// package and the mapping's live place and says whether it is linked, taken
/// by another file, or absent; then it goes on to mapping `j + 1`.
pub proof fn law_status_reports_every_mapping(w: &Walk, c: CursorView, linked: bool, exists: bool)
    requires
        w.wf(),
        w.cursor_ok(c),
        w.op is Status,
        c.step is Probed,
        c.file + 1 < w.file_count(c.pkg),
    ensures
        ({
            let t = mapping_target(w, c.pkg, c.file)->Ok_0;
            let line = w.name(c.pkg) + " --> "@ + t;
            let (a1, (c2, a2)) = two_steps(
                w,
                c,
                Event::Probed { linked, exists },
                Event::Done,
            );
            &&& linked ==> a1 == ActionView::Say(crate::ops::Level::Success, line + " [linked]"@)
            &&& !linked && exists ==> a1 == ActionView::Say(
                crate::ops::Level::Warning,
                line + " [conflict: file exists]"@,
            )
            &&& !linked && !exists ==> a1 == ActionView::Say(
                crate::ops::Level::Info,
                line + " [not linked]"@,
            )
            &&& a2 == visit(w, c.pkg, c.file + 1)
            &&& a2 is Probe ==> c2.pkg == c.pkg && c2.file == c.file + 1
        }),
{
}

/// Law: once both files of a mapping exist, `diff` reads the repository
/// file, then the live file, and shows their line changes exactly when the
/// two texts differ; when they are equal it goes on to mapping `j + 1`.
pub proof fn law_diff_shows_exactly_the_differences(
    w: &Walk,
    c: CursorView,
    s: String,
    t: String,
)
    requires
        w.wf(),
        w.cursor_ok(c),
        w.op is Diff,
        c.step is CheckedBoth,
        c.file + 1 < w.file_count(c.pkg),
    ensures
        ({
            let live = mapping_target(w, c.pkg, c.file)->Ok_0;
            let (a1, (c2, a2)) = two_steps(
                w,
                c,
                Event::Exists(true),
                Event::Contents(Some(s)),
            );
            let (c3, a3) = spec_step(w, c2, Event::Contents(Some(t)));
            &&& a1 == ActionView::ReadFile(mapping_source(w, c.pkg, c.file))
            &&& a2 == ActionView::ReadFile(live)
            &&& a3 is ShowDiff <==> s@ != t@
            &&& s@ != t@ ==> a3 == ActionView::ShowDiff {
                package: w.name(c.pkg),
                target: live,
                changes: crate::text_diff::line_diff(s@, t@),
            }
            &&& s@ == t@ ==> a3 == visit(w, c.pkg, c.file + 1)
        }),
{
}

/// Law: the symlink `add` leaves points at the place the file was moved to:
/// a plan that is not a dry run moves `file` to `root/package/<name>` and
/// then links `file` to that place, and moves and links nothing else.
pub proof fn law_add_links_the_moved_file(
    config_path: Seq<char>,
    root: Seq<char>,
    file: Seq<char>,
    package: Seq<char>,
    home: Option<Seq<char>>,
    exists: bool,
)
    requires
        spec_plan(config_path, root, file, package, false, home, exists) is Ok,
    ensures
        ({
            let v = spec_plan(config_path, root, file, package, false, home, exists)->Ok_0;
            let dest = spec_join(spec_join(root, package), spec_file_name(file)->Some_0);
            &&& exists|i: int, k: int|
                0 <= i < k < v.len() && v[i] == ActionView::Rename { from: file, to: dest }
                    && v[k] == ActionView::CreateSymlink { source: dest, target: file }
            &&& forall|m: int|
                0 <= m < v.len() && v[m] is Rename ==> v[m] == ActionView::Rename {
                    from: file,
                    to: dest,
                }
            &&& forall|m: int|
                0 <= m < v.len() && v[m] is CreateSymlink ==> v[m] == ActionView::CreateSymlink {
                    source: dest,
                    target: file,
                }
        }),
{
    let v = spec_plan(config_path, root, file, package, false, home, exists)->Ok_0;
    let dest = spec_join(spec_join(root, package), spec_file_name(file)->Some_0);
    let off: int = if spec_parent(dest) is Some { 1 } else { 0 };
    assert(v[off] == ActionView::Rename { from: file, to: dest });
    assert(v[off + 2] == ActionView::CreateSymlink { source: dest, target: file });
}

} // verus!
