//! The walk over packages and their files that `status`, `link`, `unlink`
//! and `diff` share. For every selected package, in order: a platform check
//! (`link`), the pre hook, each file mapping in order, the post hook. What
//! happens to one file depends on the command and on what the caller reports
//! about the file system.

use vstd::prelude::*;
use vstd::string::*;

use crate::backup::{backup_path_in, spec_backup_path};
use crate::config::{
    DittoConfig, Package, contains_name, is_selected, names_distinct, platform_allows,
    spec_platform_allows,
};
use crate::error::{DittoError, DittoErrorView};
use crate::ops::{Action, ActionView, Event, Level, cat2, cat3, cat4};
use crate::paths::{
    Platform, expand_tilde_in, join, option_view, parent, result_view, spec_expand_tilde,
    spec_join, spec_parent, tilde_cut_ok, views,
};
use crate::text_diff::{diff_lines, line_diff};

verus! {

/// The command a walk carries out.
#[derive(Clone, Copy)]
pub enum Op {
    Status,
    Link { force: bool },
    /// `nothing_requested`: neither packages nor `--all` were given.
    Unlink { nothing_requested: bool },
    Diff,
}

/// A walk: the command, its flags, the configuration and the indices of the
/// packages it works on, in order.
pub struct Walk {
    pub op: Op,
    pub dry_run: bool,
    pub config: DittoConfig,
    pub selected: Vec<usize>,
    /// The repository root; `src` paths are relative to it.
    pub root: String,
    /// The home directory, when known; `~` in targets needs it.
    pub home: Option<String>,
    /// Where backups go: the root joined with the configured backup directory.
    pub backup_dir: String,
    /// The platform packages are checked against (`link` only).
    pub platform: Option<Platform>,
}

/// Where a walk stands: what its last action was.
#[derive(Clone, Copy, PartialEq, Eq, Structural, Debug)]
pub enum Step {
    /// Nothing has been done yet.
    Start,
    /// `status` announced itself.
    Header,
    /// `unlink` warned that it was given nothing to do.
    NothingToUnlink,
    /// `link` reported that a package is for another platform.
    SkippedPackage,
    PreHookRan,
    /// The current file was probed.
    Probed,
    /// The last action for the current file was performed.
    FileDone,
    /// `link --dry-run --force` reported the backup it would make.
    WouldBackup,
    /// A conflicting file was backed up.
    BackedUp,
    /// A conflicting file was removed after its backup.
    RemovedConflict,
    /// The directory above the target was created.
    MadeDir,
    /// The symlink was created.
    Linked,
    /// The symlink was removed.
    Unlinked,
    /// `unlink` reported the removal.
    SaidUnlinked,
    /// The backup location of the current file was checked.
    BackupProbed,
    /// The backup was moved back.
    Restored,
    /// `diff` checked that both files exist.
    CheckedBoth,
    /// `diff` read the repository copy.
    ReadSource,
    /// `diff` read the live file.
    ReadTarget,
    PostHookRan,
    /// The closing message was shown.
    Closing,
    /// The command has ended.
    Finished,
}

/// The state of a walk: the package (an index into the selection) and file
/// it is at, its last step, whether `diff` found a difference, and the paths
/// (and text) of the current file.
#[derive(Debug)]
pub struct Cursor {
    pub pkg: usize,
    pub file: usize,
    pub step: Step,
    pub diffs: bool,
    pub source: String,
    pub target: String,
    pub backup: String,
    pub held: String,
}

pub struct CursorView {
    pub pkg: int,
    pub file: int,
    pub step: Step,
    pub diffs: bool,
    pub source: Seq<char>,
    pub target: Seq<char>,
    pub backup: Seq<char>,
    pub held: Seq<char>,
}

impl View for Cursor {
    type V = CursorView;

    open spec fn view(&self) -> CursorView {
        CursorView {
            pkg: self.pkg as int,
            file: self.file as int,
            step: self.step,
            diffs: self.diffs,
            source: self.source@,
            target: self.target@,
            backup: self.backup@,
            held: self.held@,
        }
    }
}

/// Every target of package `i` can be expanded without a panic.
pub open spec fn package_targets_ok(config: &DittoConfig, i: int) -> bool {
    forall|j: int|
        0 <= j < config.packages@[i].1.files@.len() ==> tilde_cut_ok(
            #[trigger] config.packages@[i].1.files@[j].target@,
        )
}

/// Whether a command of `op` on `platform` (when known) goes into the files
/// of `package`: not an `unlink` asked for nothing, and not a `link` of a
/// package for other platforms.
pub open spec fn enters(op: Op, platform: Option<Platform>, package: &Package) -> bool {
    &&& !(op matches Op::Unlink { nothing_requested } && nothing_requested)
    &&& (op is Link && platform is Some) ==> spec_platform_allows(package, platform->Some_0)
}

/// The targets a command expands can be expanded without a panic: those of
/// the packages selected by `requested` and `all`, and, on a known
/// `platform`, only of those for it.
pub open spec fn targets_ok(
    config: &DittoConfig,
    requested: Seq<Seq<char>>,
    all: bool,
    platform: Option<Platform>,
) -> bool {
    forall|i: int|
        0 <= i < config.packages@.len() && is_selected(config, requested, all, i) && (
        platform is Some ==> spec_platform_allows(&config.packages@[i].1, platform->Some_0))
            ==> #[trigger] package_targets_ok(config, i)
}

/// Steps at which the cursor is at a file mapping.
pub open spec fn at_file(s: Step) -> bool {
    in_package(s) && !(s is SkippedPackage || s is PreHookRan || s is PostHookRan)
}

/// The steps a walk of `op` can reach.
pub open spec fn step_allowed(op: Op, dry_run: bool, s: Step) -> bool {
    match s {
        Step::Start | Step::Probed | Step::FileDone | Step::Finished => !(op is Diff) || !(s is Probed),
        Step::Header => op is Status,
        Step::NothingToUnlink => op is Unlink,
        Step::SkippedPackage => op is Link,
        Step::MadeDir => op is Link && !dry_run,
        Step::PreHookRan | Step::PostHookRan => (op is Link || op is Unlink) && !dry_run,
        Step::WouldBackup => op matches Op::Link { force } && force && dry_run,
        Step::BackedUp | Step::RemovedConflict => op matches Op::Link { force } && force && !dry_run,
        Step::Linked => op is Link && !dry_run,
        Step::Unlinked | Step::SaidUnlinked | Step::BackupProbed | Step::Restored => op is Unlink
            && !dry_run,
        Step::CheckedBoth | Step::ReadSource | Step::ReadTarget => op is Diff,
        Step::Closing => op is Unlink || op is Diff,
    }
}

/// Steps at which the cursor is inside a package.
pub open spec fn in_package(s: Step) -> bool {
    !(s is Start || s is Header || s is NothingToUnlink || s is Closing || s is Finished)
}

impl Walk {
    /// The selection indexes the configuration, no target the walk expands
    /// panics, and no two packages share a name.
    pub open spec fn wf(&self) -> bool {
        &&& forall|k: int|
            0 <= k < self.selected@.len() ==> #[trigger] self.selected@[k]
                < self.config.packages@.len()
        &&& forall|k: int|
            0 <= k < self.selected@.len() && self.enters(k) ==> package_targets_ok(
                &self.config,
                #[trigger] self.selected@[k] as int,
            )
        &&& names_distinct(&self.config)
    }

    /// The walk goes into the files of its `pkg`-th package (see `enters`).
    pub open spec fn enters(&self, pkg: int) -> bool {
        enters(self.op, self.platform, &self.package(pkg))
    }

    pub open spec fn pkg_count(&self) -> int {
        self.selected@.len() as int
    }

    pub open spec fn package(&self, pkg: int) -> Package {
        self.config.packages@[self.selected@[pkg] as int].1
    }

    pub open spec fn name(&self, pkg: int) -> Seq<char> {
        self.config.packages@[self.selected@[pkg] as int].0@
    }

    pub open spec fn file_count(&self, pkg: int) -> int {
        self.package(pkg).files@.len() as int
    }

    /// The hook run before the files of a package; none in a dry run.
    pub open spec fn pre_hook(&self, pkg: int) -> Option<Seq<char>> {
        if self.dry_run {
            None
        } else {
            self.pre_hook_configured(pkg)
        }
    }

    /// The hook the configuration gives to run before the files of a package.
    pub open spec fn pre_hook_configured(&self, pkg: int) -> Option<Seq<char>> {
        match self.package(pkg).hooks {
            None => None,
            Some(h) => match self.op {
                Op::Link { .. } => option_view(h.pre_link),
                Op::Unlink { .. } => option_view(h.pre_unlink),
                _ => None,
            },
        }
    }

    /// The hook run after the files of a package; none in a dry run.
    pub open spec fn post_hook(&self, pkg: int) -> Option<Seq<char>> {
        if self.dry_run {
            None
        } else {
            self.post_hook_configured(pkg)
        }
    }

    /// The hook the configuration gives to run after the files of a package.
    pub open spec fn post_hook_configured(&self, pkg: int) -> Option<Seq<char>> {
        match self.package(pkg).hooks {
            None => None,
            Some(h) => match self.op {
                Op::Link { .. } => option_view(h.post_link),
                Op::Unlink { .. } => option_view(h.post_unlink),
                _ => None,
            },
        }
    }

    /// A cursor this walk can continue from.
    pub open spec fn cursor_ok(&self, c: CursorView) -> bool {
        &&& 0 <= c.pkg <= self.pkg_count()
        &&& step_allowed(self.op, self.dry_run, c.step)
        &&& in_package(c.step) ==> c.pkg < self.pkg_count()
        &&& at_file(c.step) ==> 0 <= c.file < self.file_count(c.pkg)
        &&& at_file(c.step) ==> c.source == spec_join(
            self.root@,
            self.package(c.pkg).files@[c.file].src@,
        ) && spec_expand_tilde(self.package(c.pkg).files@[c.file].target@, option_view(self.home))
            == Ok::<Seq<char>, DittoErrorView>(c.target)
        &&& (in_package(c.step) && !(c.step is SkippedPackage)) ==> self.enters(c.pkg)
        &&& (c.step is SkippedPackage || c.step is PreHookRan) ==> c.file == 0
        &&& c.step is PostHookRan ==> c.file == self.file_count(c.pkg)
        &&& (c.step is BackedUp || c.step is BackupProbed || c.step is Restored) ==> spec_backup_path(
            c.target,
            self.backup_dir@,
            option_view(self.home),
        ) == Ok::<Seq<char>, DittoErrorView>(c.backup)
    }
}

pub open spec fn at(
    pkg: int,
    file: int,
    step: Step,
    diffs: bool,
    source: Seq<char>,
    target: Seq<char>,
) -> CursorView {
    CursorView { pkg, file, step, diffs, source, target, backup: seq![], held: seq![] }
}

/// The cursor of an ended walk.
pub open spec fn finished() -> CursorView {
    at(0, 0, Step::Finished, false, seq![], seq![])
}

/// After the last package: `unlink` says it is done, `diff` says that all is
/// in sync when it found no difference; otherwise the walk ends.
pub open spec fn spec_closing(w: &Walk, diffs: bool) -> (CursorView, ActionView) {
    let closing = at(w.pkg_count(), 0, Step::Closing, diffs, seq![], seq![]);
    match w.op {
        Op::Unlink { .. } => (closing, ActionView::Say(Level::Success, "Symlinks removed."@)),
        Op::Diff => if diffs {
            (finished(), ActionView::Finish)
        } else {
            (closing, ActionView::Say(Level::Info, "Everything in sync."@))
        },
        _ => (finished(), ActionView::Finish),
    }
}

/// The first file action: the paths of mapping `file` of package `pkg`;
/// `diff` checks that both exist, the others probe the target.
pub open spec fn spec_file_entry(w: &Walk, pkg: int, file: int, diffs: bool) -> (
    CursorView,
    ActionView,
) {
    let m = w.package(pkg).files@[file];
    let source = spec_join(w.root@, m.src@);
    match spec_expand_tilde(m.target@, option_view(w.home)) {
        Err(e) => (finished(), ActionView::Fail(e)),
        Ok(target) => match w.op {
            Op::Diff => (
                at(pkg, file, Step::CheckedBoth, diffs, source, target),
                ActionView::CheckBoth { source, target },
            ),
            _ => (
                at(pkg, file, Step::Probed, diffs, source, target),
                ActionView::Probe { target, source },
            ),
        },
    }
}

/// The next action from position `file` of package `pkg`, where `file == -1`
/// is the start of the package and `file` past the last mapping its end.
pub open spec fn spec_resume(w: &Walk, pkg: int, file: int, diffs: bool) -> (
    CursorView,
    ActionView,
)
    decreases w.pkg_count() - pkg, w.file_count(pkg) - file,
{
    if pkg < 0 || pkg >= w.pkg_count() {
        spec_closing(w, diffs)
    } else if file < 0 {
        if w.op is Link && (w.platform matches Some(p) && !spec_platform_allows(
            &w.package(pkg),
            p,
        )) {
            (
                at(pkg, 0, Step::SkippedPackage, diffs, seq![], seq![]),
                ActionView::Say(Level::Info, "skipping "@ + w.name(pkg) + " (wrong platform)"@),
            )
        } else {
            match w.pre_hook(pkg) {
                Some(cmd) => (
                    at(pkg, 0, Step::PreHookRan, diffs, seq![], seq![]),
                    ActionView::RunHook(cmd),
                ),
                None => spec_resume(w, pkg, 0, diffs),
            }
        }
    } else if file < w.file_count(pkg) {
        spec_file_entry(w, pkg, file, diffs)
    } else {
        match w.post_hook(pkg) {
            Some(cmd) => (
                at(pkg, file, Step::PostHookRan, diffs, seq![], seq![]),
                ActionView::RunHook(cmd),
            ),
            None => spec_resume(w, pkg + 1, -1, diffs),
        }
    }
}

/// `link` after the conflict (if any) is dealt with: the target's directory.
pub open spec fn spec_after_dir(w: &Walk, c: CursorView) -> (CursorView, ActionView) {
    if w.dry_run {
        (
            CursorView { step: Step::FileDone, ..c },
            ActionView::Say(Level::DryRun, "would link "@ + w.name(c.pkg) + " --> "@ + c.target),
        )
    } else {
        (
            CursorView { step: Step::Linked, ..c },
            ActionView::CreateSymlink { source: c.source, target: c.target },
        )
    }
}

/// `link`: create the directory above the target (not in a dry run).
pub open spec fn spec_make_dir(w: &Walk, c: CursorView) -> (CursorView, ActionView) {
    if w.dry_run {
        spec_after_dir(w, c)
    } else {
        match spec_parent(c.target) {
            Some(p) => (CursorView { step: Step::MadeDir, ..c }, ActionView::CreateDirAll(p)),
            None => spec_after_dir(w, c),
        }
    }
}

/// What a command does with a file once it knows whether the target is a
/// symlink to the source (`linked`) and whether it exists.
pub open spec fn spec_after_probe(w: &Walk, c: CursorView, linked: bool, exists: bool) -> (
    CursorView,
    ActionView,
) {
    let name = w.name(c.pkg);
    let done = CursorView { step: Step::FileDone, ..c };
    match w.op {
        Op::Status => (
            done,
            if linked {
                ActionView::Say(Level::Success, name + " --> "@ + c.target + " [linked]"@)
            } else if exists {
                ActionView::Say(
                    Level::Warning,
                    name + " --> "@ + c.target + " [conflict: file exists]"@,
                )
            } else {
                ActionView::Say(Level::Info, name + " --> "@ + c.target + " [not linked]"@)
            },
        ),
        Op::Link { force } => if linked {
            (done, ActionView::Say(Level::Info, c.target + " already linked"@))
        } else if exists {
            if force {
                if w.dry_run {
                    (
                        CursorView { step: Step::WouldBackup, ..c },
                        ActionView::Say(Level::DryRun, "would backup "@ + c.target),
                    )
                } else {
                    match spec_backup_path(c.target, w.backup_dir@, option_view(w.home)) {
                        Err(e) => (finished(), ActionView::Fail(e)),
                        Ok(b) => (
                            CursorView { step: Step::BackedUp, backup: b, ..c },
                            ActionView::Backup { target: c.target, backup: b },
                        ),
                    }
                }
            } else {
                (
                    done,
                    ActionView::Say(
                        Level::Warning,
                        c.target + " conflict, use --force to overwrite"@,
                    ),
                )
            }
        } else {
            spec_make_dir(w, c)
        },
        Op::Unlink { .. } => if linked {
            if w.dry_run {
                (done, ActionView::Say(Level::DryRun, "would remove symlink "@ + c.target))
            } else {
                (CursorView { step: Step::Unlinked, ..c }, ActionView::RemoveFile(c.target))
            }
        } else {
            spec_resume(w, c.pkg, c.file + 1, c.diffs)
        },
        Op::Diff => spec_resume(w, c.pkg, c.file + 1, c.diffs),
    }
}

/// The answer to `Probe` (nothing linked, nothing there for another event).
pub open spec fn probe_result(ev: Event) -> (bool, bool) {
    match ev {
        Event::Probed { linked, exists } => (linked, exists),
        _ => (false, false),
    }
}

/// The answer to `CheckExists` and `CheckBoth` (false for another event).
pub open spec fn exists_result(ev: Event) -> bool {
    match ev {
        Event::Exists(b) => b,
        _ => false,
    }
}

/// One step of a walk: from the cursor and the event that answered its last
/// action, the next cursor and action. A failure ends the walk with its
/// error; an ended walk stays ended.
pub open spec fn spec_step(w: &Walk, c: CursorView, ev: Event) -> (CursorView, ActionView) {
    if c.step is Finished {
        (finished(), ActionView::Finish)
    } else if ev is Failed {
        (finished(), ActionView::Fail(ev->Failed_0@))
    } else {
        match c.step {
            Step::ReadSource => match ev {
                Event::Contents(Some(s)) => (
                    CursorView { step: Step::ReadTarget, held: s@, ..c },
                    ActionView::ReadFile(c.target),
                ),
                _ => spec_resume(w, c.pkg, c.file + 1, c.diffs),
            },
            Step::ReadTarget => match ev {
                Event::Contents(Some(t)) => if c.held == t@ {
                    spec_resume(w, c.pkg, c.file + 1, c.diffs)
                } else {
                    (
                        CursorView { step: Step::FileDone, diffs: true, ..c },
                        ActionView::ShowDiff {
                            package: w.name(c.pkg),
                            target: c.target,
                            changes: line_diff(c.held, t@),
                        },
                    )
                },
                _ => spec_resume(w, c.pkg, c.file + 1, c.diffs),
            },
            _ => spec_step_plain(
                w,
                c,
                probe_result(ev).0,
                probe_result(ev).1,
                exists_result(ev),
            ),
        }
    }
}

/// A step at which the event matters only as a probe answer (`linked`,
/// `exists`) or as an existence answer (`found`).
pub open spec fn spec_step_plain(
    w: &Walk,
    c: CursorView,
    linked: bool,
    exists: bool,
    found: bool,
) -> (CursorView, ActionView) {
    let name = w.name(c.pkg);
    {
        match c.step {
            Step::Start => match w.op {
                Op::Status => (
                    at(0, 0, Step::Header, c.diffs, seq![], seq![]),
                    ActionView::Say(Level::Info, "Checking status..."@),
                ),
                Op::Unlink { nothing_requested } => if nothing_requested {
                    (
                        at(0, 0, Step::NothingToUnlink, c.diffs, seq![], seq![]),
                        ActionView::Say(
                            Level::Warning,
                            "No packages specified to unlink. Use --all to unlink everything."@,
                        ),
                    )
                } else {
                    spec_resume(w, 0, -1, c.diffs)
                },
                _ => spec_resume(w, 0, -1, c.diffs),
            },
            Step::Header => spec_resume(w, 0, -1, c.diffs),
            Step::NothingToUnlink => (finished(), ActionView::Finish),
            Step::SkippedPackage => spec_resume(w, c.pkg + 1, -1, c.diffs),
            Step::PreHookRan => spec_resume(w, c.pkg, 0, c.diffs),
            Step::Probed => spec_after_probe(w, c, linked, exists),
            Step::FileDone => spec_resume(w, c.pkg, c.file + 1, c.diffs),
            Step::WouldBackup => spec_make_dir(w, c),
            Step::BackedUp => (
                CursorView { step: Step::RemovedConflict, ..c },
                ActionView::RemoveFile(c.target),
            ),
            Step::RemovedConflict => spec_make_dir(w, c),
            Step::MadeDir => spec_after_dir(w, c),
            Step::Linked => (
                CursorView { step: Step::FileDone, ..c },
                ActionView::Say(Level::Success, name + " --> "@ + c.target + " symlink created"@),
            ),
            Step::Unlinked => (
                CursorView { step: Step::SaidUnlinked, ..c },
                ActionView::Say(Level::Success, "["@ + name + "] "@ + c.target + " unlinked"@),
            ),
            Step::SaidUnlinked => match spec_backup_path(
                c.target,
                w.backup_dir@,
                option_view(w.home),
            ) {
                Err(e) => (finished(), ActionView::Fail(e)),
                Ok(b) => (
                    CursorView { step: Step::BackupProbed, backup: b, ..c },
                    ActionView::CheckExists(b),
                ),
            },
            Step::BackupProbed => if found {
                (
                    CursorView { step: Step::Restored, ..c },
                    ActionView::Restore { backup: c.backup, target: c.target },
                )
            } else {
                spec_resume(w, c.pkg, c.file + 1, c.diffs)
            },
            Step::Restored => (
                CursorView { step: Step::FileDone, ..c },
                ActionView::Say(
                    Level::Success,
                    "["@ + name + "] "@ + c.target + " restored from backup"@,
                ),
            ),
            Step::CheckedBoth => if found {
                (CursorView { step: Step::ReadSource, ..c }, ActionView::ReadFile(c.source))
            } else {
                spec_resume(w, c.pkg, c.file + 1, c.diffs)
            },
            Step::ReadSource => spec_resume(w, c.pkg, c.file + 1, c.diffs),
            Step::ReadTarget => spec_resume(w, c.pkg, c.file + 1, c.diffs),
            Step::PostHookRan => spec_resume(w, c.pkg + 1, -1, c.diffs),
            Step::Closing => (finished(), ActionView::Finish),
            Step::Finished => (finished(), ActionView::Finish),
        }
    }
}


fn blank(pkg: usize, file: usize, step: Step, diffs: bool) -> (r: Cursor)
    ensures
        r@ == at(pkg as int, file as int, step, diffs, seq![], seq![]),
{
    Cursor {
        pkg,
        file,
        step,
        diffs,
        source: String::new(),
        target: String::new(),
        backup: String::new(),
        held: String::new(),
    }
}

fn finished_cursor() -> (r: Cursor)
    ensures
        r@ == finished(),
{
    blank(0, 0, Step::Finished, false)
}

/// The cursor `c` moved on to `step`.
fn with_step(c: &Cursor, step: Step) -> (r: Cursor)
    ensures
        r@ == (CursorView { step, ..c@ }),
{
    Cursor {
        pkg: c.pkg,
        file: c.file,
        step,
        diffs: c.diffs,
        source: c.source.clone(),
        target: c.target.clone(),
        backup: c.backup.clone(),
        held: c.held.clone(),
    }
}

fn clone_opt(o: &Option<String>) -> (r: Option<String>)
    ensures
        option_view(r) == option_view(*o),
{
    match o {
        Some(s) => Some(s.clone()),
        None => None,
    }
}

fn closing(w: &Walk, diffs: bool) -> (r: (Cursor, Action))
    requires
        w.wf(),
    ensures
        (r.0@, r.1@) == spec_closing(w, diffs),
        w.cursor_ok(r.0@),
{
    let n = w.selected.len();
    match w.op {
        Op::Unlink { .. } => (
            blank(n, 0, Step::Closing, diffs),
            Action::Say(Level::Success, String::from_str("Symlinks removed.")),
        ),
        Op::Diff => if diffs {
            (finished_cursor(), Action::Finish)
        } else {
            (
                blank(n, 0, Step::Closing, diffs),
                Action::Say(Level::Info, String::from_str("Everything in sync.")),
            )
        },
        _ => (finished_cursor(), Action::Finish),
    }
}

fn pre_hook(w: &Walk, pkg: usize) -> (r: Option<String>)
    requires
        w.wf(),
        pkg < w.pkg_count(),
    ensures
        option_view(r) == w.pre_hook(pkg as int),
{
    if w.dry_run {
        return None;
    }
    let idx = w.selected[pkg];
    match &w.config.packages[idx].1.hooks {
        None => None,
        Some(h) => match w.op {
            Op::Link { .. } => clone_opt(&h.pre_link),
            Op::Unlink { .. } => clone_opt(&h.pre_unlink),
            _ => None,
        },
    }
}

fn post_hook(w: &Walk, pkg: usize) -> (r: Option<String>)
    requires
        w.wf(),
        pkg < w.pkg_count(),
    ensures
        option_view(r) == w.post_hook(pkg as int),
{
    if w.dry_run {
        return None;
    }
    let idx = w.selected[pkg];
    match &w.config.packages[idx].1.hooks {
        None => None,
        Some(h) => match w.op {
            Op::Link { .. } => clone_opt(&h.post_link),
            Op::Unlink { .. } => clone_opt(&h.post_unlink),
            _ => None,
        },
    }
}

fn file_entry(w: &Walk, pkg: usize, file: usize, diffs: bool) -> (r: (Cursor, Action))
    requires
        w.wf(),
        pkg < w.pkg_count(),
        file < w.file_count(pkg as int),
        w.enters(pkg as int),
    ensures
        (r.0@, r.1@) == spec_file_entry(w, pkg as int, file as int, diffs),
        w.cursor_ok(r.0@),
{
    let idx = w.selected[pkg];
    let m = &w.config.packages[idx].1.files[file];
    assert(tilde_cut_ok(w.config.packages@[idx as int].1.files@[file as int].target@));
    let source = join(w.root.as_str(), m.src.as_str());
    match expand_tilde_in(m.target.as_str(), &w.home) {
        Err(e) => (finished_cursor(), Action::Fail(e)),
        Ok(target) => {
            let mut c = blank(pkg, file, Step::Probed, diffs);
            c.source = source.clone();
            c.target = target.clone();
            match w.op {
                Op::Diff => {
                    c.step = Step::CheckedBoth;
                    (c, Action::CheckBoth { source, target })
                },
                _ => (c, Action::Probe { target, source }),
            }
        },
    }
}

fn resume(w: &Walk, pkg: usize, start: bool, file: usize, diffs: bool) -> (r: (Cursor, Action))
    requires
        w.wf(),
        pkg <= w.pkg_count(),
        pkg < w.pkg_count() ==> file <= w.file_count(pkg as int),
        !(w.op matches Op::Unlink { nothing_requested } && nothing_requested),
        pkg < w.pkg_count() && !start ==> w.enters(pkg as int),
    ensures
        (r.0@, r.1@) == spec_resume(
            w,
            pkg as int,
            if start {
                -1
            } else {
                file as int
            },
            diffs,
        ),
        w.cursor_ok(r.0@),
    decreases w.pkg_count() - pkg, w.file_count(pkg as int) - (if start {
        -1
    } else {
        file as int
    }),
{
    let n = w.selected.len();
    if pkg >= n {
        return closing(w, diffs);
    }
    let idx = w.selected[pkg];
    if start {
        let gate = match (w.op, &w.platform) {
            (Op::Link { .. }, Some(p)) => platform_allows(&w.config.packages[idx].1, p),
            _ => true,
        };
        if !gate {
            let msg = cat3("skipping ", w.config.packages[idx].0.as_str(), " (wrong platform)");
            return (blank(pkg, 0, Step::SkippedPackage, diffs), Action::Say(Level::Info, msg));
        }
        match pre_hook(w, pkg) {
            Some(cmd) => (blank(pkg, 0, Step::PreHookRan, diffs), Action::RunHook(cmd)),
            None => resume(w, pkg, false, 0, diffs),
        }
    } else if file < w.config.packages[idx].1.files.len() {
        file_entry(w, pkg, file, diffs)
    } else {
        match post_hook(w, pkg) {
            Some(cmd) => (blank(pkg, file, Step::PostHookRan, diffs), Action::RunHook(cmd)),
            None => resume(w, pkg + 1, true, 0, diffs),
        }
    }
}


fn after_dir(w: &Walk, c: &Cursor) -> (r: (Cursor, Action))
    requires
        w.wf(),
        w.cursor_ok(c@),
        c.pkg < w.pkg_count(),
        at_file(c.step),
        w.op is Link,
    ensures
        (r.0@, r.1@) == spec_after_dir(w, c@),
        w.cursor_ok(r.0@),
{
    if w.dry_run {
        let idx = w.selected[c.pkg];
        let msg = cat4("would link ", w.config.packages[idx].0.as_str(), " --> ", c.target.as_str());
        (with_step(c, Step::FileDone), Action::Say(Level::DryRun, msg))
    } else {
        (
            with_step(c, Step::Linked),
            Action::CreateSymlink { source: c.source.clone(), target: c.target.clone() },
        )
    }
}

fn make_dir(w: &Walk, c: &Cursor) -> (r: (Cursor, Action))
    requires
        w.wf(),
        w.cursor_ok(c@),
        c.pkg < w.pkg_count(),
        at_file(c.step),
        w.op is Link,
    ensures
        (r.0@, r.1@) == spec_make_dir(w, c@),
        w.cursor_ok(r.0@),
{
    if w.dry_run {
        return after_dir(w, c);
    }
    match parent(c.target.as_str()) {
        Some(p) => (with_step(c, Step::MadeDir), Action::CreateDirAll(p)),
        None => after_dir(w, c),
    }
}

fn after_probe(w: &Walk, c: &Cursor, linked: bool, exists: bool) -> (r: (Cursor, Action))
    requires
        w.wf(),
        w.cursor_ok(c@),
        c.pkg < w.pkg_count(),
        at_file(c.step),
    ensures
        (r.0@, r.1@) == spec_after_probe(w, c@, linked, exists),
        w.cursor_ok(r.0@),
{
    lengths_fit(w, c);
    let idx = w.selected[c.pkg];
    let name = w.config.packages[idx].0.as_str();
    let target = c.target.as_str();
    match w.op {
        Op::Status => {
            let say = if linked {
                Action::Say(Level::Success, cat4(name, " --> ", target, " [linked]"))
            } else if exists {
                Action::Say(Level::Warning, cat4(name, " --> ", target, " [conflict: file exists]"))
            } else {
                Action::Say(Level::Info, cat4(name, " --> ", target, " [not linked]"))
            };
            (with_step(c, Step::FileDone), say)
        },
        Op::Link { force } => {
            if linked {
                (
                    with_step(c, Step::FileDone),
                    Action::Say(Level::Info, cat2(target, " already linked")),
                )
            } else if exists {
                if force {
                    if w.dry_run {
                        (
                            with_step(c, Step::WouldBackup),
                            Action::Say(Level::DryRun, cat2("would backup ", target)),
                        )
                    } else {
                        match backup_path_in(target, w.backup_dir.as_str(), &w.home) {
                            Err(e) => (finished_cursor(), Action::Fail(e)),
                            Ok(b) => {
                                let mut next = with_step(c, Step::BackedUp);
                                next.backup = b.clone();
                                (next, Action::Backup { target: c.target.clone(), backup: b })
                            },
                        }
                    }
                } else {
                    (
                        with_step(c, Step::FileDone),
                        Action::Say(
                            Level::Warning,
                            cat2(target, " conflict, use --force to overwrite"),
                        ),
                    )
                }
            } else {
                make_dir(w, c)
            }
        },
        Op::Unlink { .. } => {
            if linked {
                if w.dry_run {
                    (
                        with_step(c, Step::FileDone),
                        Action::Say(Level::DryRun, cat2("would remove symlink ", target)),
                    )
                } else {
                    (with_step(c, Step::Unlinked), Action::RemoveFile(c.target.clone()))
                }
            } else {
                resume(w, c.pkg, false, c.file + 1, c.diffs)
            }
        },
        Op::Diff => resume(w, c.pkg, false, c.file + 1, c.diffs),
    }
}


/// A walk over the given selection; backups go to the root joined with the
/// configured backup directory.
pub fn new_walk(
    op: Op,
    dry_run: bool,
    config: DittoConfig,
    selected: Vec<usize>,
    root: &str,
    home: Option<String>,
    platform: Option<Platform>,
) -> (r: Walk)
    requires
        names_distinct(&config),
        forall|k: int| 0 <= k < selected@.len() ==> #[trigger] selected@[k] < config.packages@.len(),
        forall|k: int|
            0 <= k < selected@.len() && enters(op, platform, &config.packages@[selected@[k] as int].1)
                ==> package_targets_ok(&config, #[trigger] selected@[k] as int),
    ensures
        r.wf(),
        r.op == op,
        r.dry_run == dry_run,
        r.config == config,
        r.selected == selected,
        r.root@ == root@,
        r.home == home,
        r.backup_dir@ == spec_join(root@, config.settings.backup_dir@),
        r.platform == platform,
{
    let backup_dir = join(root, config.settings.backup_dir.as_str());
    Walk {
        op,
        dry_run,
        config,
        selected,
        root: String::from_str(root),
        home,
        backup_dir,
        platform,
    }
}

/// The cursor of a walk that has not begun.
pub open spec fn spec_begin() -> CursorView {
    at(0, 0, Step::Start, false, seq![], seq![])
}

/// The cursor of a walk that has not begun (see `spec_begin`).
pub fn begin() -> (r: Cursor)
    ensures
        r@ == spec_begin(),
{
    blank(0, 0, Step::Start, false)
}

/// The packages a walk over a selection goes into have targets that can be
/// expanded, when those of the selected packages (on `platform`, for `link`)
/// can.
pub proof fn lemma_selection_targets(
    config: &DittoConfig,
    requested: Seq<Seq<char>>,
    all: bool,
    op: Op,
    platform: Option<Platform>,
    sel: Seq<usize>,
)
    requires
        targets_ok(config, requested, all, platform),
        crate::config::is_selection(config, requested, all, sel),
        platform is Some ==> op is Link,
    ensures
        forall|k: int|
            0 <= k < sel.len() && enters(op, platform, &config.packages@[sel[k] as int].1)
                ==> package_targets_ok(config, #[trigger] sel[k] as int),
{
    assert forall|k: int|
        0 <= k < sel.len() && enters(op, platform, &config.packages@[sel[k] as int].1)
            implies package_targets_ok(config, #[trigger] sel[k] as int) by {
        assert(sel[k] < config.packages@.len() && is_selected(config, requested, all, sel[k] as int));
    }
}

/// Whether every target of package `i` can be expanded (see `package_targets_ok`).
fn check_package_targets(config: &DittoConfig, i: usize) -> (r: bool)
    requires
        i < config.packages@.len(),
    ensures
        r == package_targets_ok(config, i as int),
{
    let files = &config.packages[i].1.files;
    let mut j: usize = 0;
    while j < files.len()
        invariant
            i < config.packages@.len(),
            files@ == config.packages@[i as int].1.files@,
            j <= files@.len(),
            forall|b: int|
                0 <= b < j ==> tilde_cut_ok(#[trigger] config.packages@[i as int].1.files@[b].target@),
        decreases files@.len() - j,
    {
        let t = files[j].target.as_str();
        let n = t.unicode_len();
        if n > 0 && t.get_char(0) == '~' {
            if n < 2 || t.get_char(1) as u32 >= 128 {
                assert(!tilde_cut_ok(config.packages@[i as int].1.files@[j as int].target@));
                return false;
            }
        }
        j = j + 1;
    }
    true
}

/// Whether the targets a command expands can be expanded (see `targets_ok`).
pub fn check_targets(
    config: &DittoConfig,
    requested: &Vec<String>,
    all: bool,
    platform: &Option<Platform>,
) -> (r: bool)
    ensures
        r == targets_ok(config, views(requested@), all, *platform),
{
    let mut i: usize = 0;
    while i < config.packages.len()
        invariant
            i <= config.packages@.len(),
            forall|a: int|
                0 <= a < i && is_selected(config, views(requested@), all, a) && (*platform is Some
                    ==> spec_platform_allows(&config.packages@[a].1, platform->Some_0))
                    ==> #[trigger] package_targets_ok(config, a),
        decreases config.packages@.len() - i,
    {
        let selected = all || requested.len() == 0 || contains_name(requested, &config.packages[i].0);
        let allowed = match platform {
            None => true,
            Some(p) => platform_allows(&config.packages[i].1, p),
        };
        if selected && allowed && !check_package_targets(config, i) {
            return false;
        }
        i = i + 1;
    }
    true
}

/// The counts a cursor indexes fit in `usize`.
fn lengths_fit(w: &Walk, c: &Cursor)
    requires
        w.wf(),
        w.cursor_ok(c@),
    ensures
        w.pkg_count() <= usize::MAX,
        c.pkg < w.pkg_count() ==> w.file_count(c.pkg as int) <= usize::MAX,
{
    let n = w.selected.len();
    if c.pkg < n {
        let idx = w.selected[c.pkg];
        let _ = w.config.packages[idx].1.files.len();
    }
}

/// One step of a walk (see `spec_step`).
pub fn step(w: &Walk, c: &Cursor, ev: Event) -> (r: (Cursor, Action))
    requires
        w.wf(),
        w.cursor_ok(c@),
    ensures
        (r.0@, r.1@) == spec_step(w, c@, ev),
        w.cursor_ok(r.0@),
{
    if let Step::Finished = c.step {
        return (finished_cursor(), Action::Finish);
    }
    lengths_fit(w, c);
    let (linked, exists) = match &ev {
        Event::Probed { linked, exists } => (*linked, *exists),
        _ => (false, false),
    };
    let found = match &ev {
        Event::Exists(b) => *b,
        _ => false,
    };
    match ev {
        Event::Failed(e) => {
            return (finished_cursor(), Action::Fail(e));
        },
        Event::Contents(text) => {
            return match c.step {
                Step::ReadSource => match text {
                    Some(s) => {
                        let mut next = with_step(c, Step::ReadTarget);
                        next.held = s;
                        (next, Action::ReadFile(c.target.clone()))
                    },
                    None => resume(w, c.pkg, false, c.file + 1, c.diffs),
                },
                Step::ReadTarget => match text {
                    Some(t) => {
                        if c.held == t {
                            resume(w, c.pkg, false, c.file + 1, c.diffs)
                        } else {
                            let idx = w.selected[c.pkg];
                            let changes = diff_lines(c.held.as_str(), t.as_str());
                            let mut next = with_step(c, Step::FileDone);
                            next.diffs = true;
                            (
                                next,
                                Action::ShowDiff {
                                    package: w.config.packages[idx].0.clone(),
                                    target: c.target.clone(),
                                    changes,
                                },
                            )
                        }
                    },
                    None => resume(w, c.pkg, false, c.file + 1, c.diffs),
                },
                _ => step_plain(w, c, linked, exists, found),
            };
        },
        _ => {},
    }
    step_plain(w, c, linked, exists, found)
}

/// A step for an event that is neither a failure nor file contents.
fn step_plain(w: &Walk, c: &Cursor, linked: bool, exists: bool, found: bool) -> (r: (
    Cursor,
    Action,
))
    requires
        w.wf(),
        w.cursor_ok(c@),
        !(c.step is Finished),
    ensures
        (r.0@, r.1@) == spec_step_plain(w, c@, linked, exists, found),
        w.cursor_ok(r.0@),
{
    lengths_fit(w, c);
    match c.step {
        Step::Start => match w.op {
            Op::Status => (
                blank(0, 0, Step::Header, c.diffs),
                Action::Say(Level::Info, String::from_str("Checking status...")),
            ),
            Op::Unlink { nothing_requested } => if nothing_requested {
                (
                    blank(0, 0, Step::NothingToUnlink, c.diffs),
                    Action::Say(
                        Level::Warning,
                        String::from_str(
                            "No packages specified to unlink. Use --all to unlink everything.",
                        ),
                    ),
                )
            } else {
                resume(w, 0, true, 0, c.diffs)
            },
            _ => resume(w, 0, true, 0, c.diffs),
        },
        Step::Header => resume(w, 0, true, 0, c.diffs),
        Step::NothingToUnlink => (finished_cursor(), Action::Finish),
        Step::SkippedPackage => resume(w, c.pkg + 1, true, 0, c.diffs),
        Step::PreHookRan => resume(w, c.pkg, false, 0, c.diffs),
        Step::Probed => after_probe(w, c, linked, exists),
        Step::FileDone => resume(w, c.pkg, false, c.file + 1, c.diffs),
        Step::WouldBackup => make_dir(w, c),
        Step::BackedUp => (with_step(c, Step::RemovedConflict), Action::RemoveFile(c.target.clone())),
        Step::RemovedConflict => make_dir(w, c),
        Step::MadeDir => after_dir(w, c),
        Step::Linked => {
            let idx = w.selected[c.pkg];
            let msg = cat4(
                w.config.packages[idx].0.as_str(),
                " --> ",
                c.target.as_str(),
                " symlink created",
            );
            (with_step(c, Step::FileDone), Action::Say(Level::Success, msg))
        },
        Step::Unlinked => {
            let idx = w.selected[c.pkg];
            let mut msg = cat3("[", w.config.packages[idx].0.as_str(), "] ");
            msg.append(c.target.as_str());
            msg.append(" unlinked");
            (with_step(c, Step::SaidUnlinked), Action::Say(Level::Success, msg))
        },
        Step::SaidUnlinked => match backup_path_in(c.target.as_str(), w.backup_dir.as_str(), &w.home) {
            Err(e) => (finished_cursor(), Action::Fail(e)),
            Ok(b) => {
                let mut next = with_step(c, Step::BackupProbed);
                next.backup = b.clone();
                (next, Action::CheckExists(b))
            },
        },
        Step::BackupProbed => if found {
            (
                with_step(c, Step::Restored),
                Action::Restore { backup: c.backup.clone(), target: c.target.clone() },
            )
        } else {
            resume(w, c.pkg, false, c.file + 1, c.diffs)
        },
        Step::Restored => {
            let idx = w.selected[c.pkg];
            let mut msg = cat3("[", w.config.packages[idx].0.as_str(), "] ");
            msg.append(c.target.as_str());
            msg.append(" restored from backup");
            (with_step(c, Step::FileDone), Action::Say(Level::Success, msg))
        },
        Step::CheckedBoth => if found {
            (with_step(c, Step::ReadSource), Action::ReadFile(c.source.clone()))
        } else {
            resume(w, c.pkg, false, c.file + 1, c.diffs)
        },
        Step::ReadSource => resume(w, c.pkg, false, c.file + 1, c.diffs),
        Step::ReadTarget => resume(w, c.pkg, false, c.file + 1, c.diffs),
        Step::PostHookRan => resume(w, c.pkg + 1, true, 0, c.diffs),
        Step::Closing => (finished_cursor(), Action::Finish),
        Step::Finished => (finished_cursor(), Action::Finish),
    }
}

} // verus!
