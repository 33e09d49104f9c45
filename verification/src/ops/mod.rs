//! The commands. Each one that interleaves decisions with outside work is a
//! state machine: given the event that answered its previous action, it
//! returns its next state and the next action for the caller to perform.

pub mod add;
pub mod diff;
pub mod init;
pub mod link;
pub mod status;
pub mod unlink;
pub mod walk;

use vstd::prelude::*;
use vstd::string::*;

use crate::error::{DittoError, DittoErrorView};

verus! {

/// How a message is presented.
#[derive(Clone, Copy, PartialEq, Eq, Structural, Debug)]
pub enum Level {
    Info,
    Success,
    Warning,
    DryRun,
}

/// The kind of a line in a text diff.
#[derive(Clone, Copy, PartialEq, Eq, Structural, Debug)]
pub enum ChangeKind {
    Equal,
    Delete,
    Insert,
}

/// Work for the caller. Every action but `Finish` and `Fail` is answered
/// with an event: `Done` (or `Failed`) unless noted otherwise.
#[derive(Debug)]
pub enum Action {
    /// Show a message.
    Say(Level, String),
    /// Run a shell command.
    RunHook(String),
    /// Answered with `Probed`: is `target` a symlink to `source`, does it exist.
    Probe { target: String, source: String },
    /// Copy `target` to `backup`, creating the directories above `backup`.
    Backup { target: String, backup: String },
    /// Remove a file or symlink.
    RemoveFile(String),
    /// Create a directory and its missing ancestors.
    CreateDirAll(String),
    /// Create a symlink at `target` that points to `source`.
    CreateSymlink { source: String, target: String },
    /// Answered with `Exists`: does the path exist.
    CheckExists(String),
    /// Move `backup` back to `target`, creating the directories above `target`.
    Restore { backup: String, target: String },
    /// Answered with `Exists`: do both paths exist.
    CheckBoth { source: String, target: String },
    /// Answered with `Contents`: the text of the file, `None` when unreadable.
    ReadFile(String),
    /// Show the line changes from the repository copy to the live file.
    ShowDiff { package: String, target: String, changes: Vec<(ChangeKind, String)> },
    /// Move a file.
    Rename { from: String, to: String },
    /// Add the mapping `src` -> `target` to `package` in the configuration file.
    UpdateConfig { path: String, package: String, src: String, target: String },
    /// The command has ended successfully.
    Finish,
    /// The command has ended with an error.
    Fail(DittoError),
}

/// `Action`, with strings taken by their views.
pub enum ActionView {
    Say(Level, Seq<char>),
    RunHook(Seq<char>),
    Probe { target: Seq<char>, source: Seq<char> },
    Backup { target: Seq<char>, backup: Seq<char> },
    RemoveFile(Seq<char>),
    CreateDirAll(Seq<char>),
    CreateSymlink { source: Seq<char>, target: Seq<char> },
    CheckExists(Seq<char>),
    Restore { backup: Seq<char>, target: Seq<char> },
    CheckBoth { source: Seq<char>, target: Seq<char> },
    ReadFile(Seq<char>),
    ShowDiff { package: Seq<char>, target: Seq<char>, changes: Seq<(ChangeKind, Seq<char>)> },
    Rename { from: Seq<char>, to: Seq<char> },
    UpdateConfig { path: Seq<char>, package: Seq<char>, src: Seq<char>, target: Seq<char> },
    Finish,
    Fail(DittoErrorView),
}

/// Line changes, with their text taken by views.
pub open spec fn changes_view(c: Seq<(ChangeKind, String)>) -> Seq<(ChangeKind, Seq<char>)> {
    c.map_values(|x: (ChangeKind, String)| (x.0, x.1@))
}

impl View for Action {
    type V = ActionView;

    open spec fn view(&self) -> ActionView {
        match self {
            Action::Say(l, m) => ActionView::Say(*l, m@),
            Action::RunHook(c) => ActionView::RunHook(c@),
            Action::Probe { target, source } => ActionView::Probe {
                target: target@,
                source: source@,
            },
            Action::Backup { target, backup } => ActionView::Backup {
                target: target@,
                backup: backup@,
            },
            Action::RemoveFile(p) => ActionView::RemoveFile(p@),
            Action::CreateDirAll(p) => ActionView::CreateDirAll(p@),
            Action::CreateSymlink { source, target } => ActionView::CreateSymlink {
                source: source@,
                target: target@,
            },
            Action::CheckExists(p) => ActionView::CheckExists(p@),
            Action::Restore { backup, target } => ActionView::Restore {
                backup: backup@,
                target: target@,
            },
            Action::CheckBoth { source, target } => ActionView::CheckBoth {
                source: source@,
                target: target@,
            },
            Action::ReadFile(p) => ActionView::ReadFile(p@),
            Action::ShowDiff { package, target, changes } => ActionView::ShowDiff {
                package: package@,
                target: target@,
                changes: changes_view(changes@),
            },
            Action::Rename { from, to } => ActionView::Rename { from: from@, to: to@ },
            Action::UpdateConfig { path, package, src, target } => ActionView::UpdateConfig {
                path: path@,
                package: package@,
                src: src@,
                target: target@,
            },
            Action::Finish => ActionView::Finish,
            Action::Fail(e) => ActionView::Fail(e@),
        }
    }
}

/// What the caller reports after performing an action.
#[derive(Debug)]
pub enum Event {
    /// Nothing has been done yet.
    Start,
    /// The action was performed.
    Done,
    /// The action failed; the command ends with this error.
    Failed(DittoError),
    /// Answer to `Probe`.
    Probed { linked: bool, exists: bool },
    /// Answer to `CheckExists` and `CheckBoth`.
    Exists(bool),
    /// Answer to `ReadFile`.
    Contents(Option<String>),
}

/// The concatenation of two strings.
pub fn cat2(a: &str, b: &str) -> (r: String)
    ensures
        r@ == a@ + b@,
{
    let mut s = String::from_str(a);
    s.append(b);
    s
}

/// The concatenation of three strings.
pub fn cat3(a: &str, b: &str, c: &str) -> (r: String)
    ensures
        r@ == a@ + b@ + c@,
{
    let mut s = String::from_str(a);
    s.append(b);
    s.append(c);
    s
}

/// The concatenation of four strings.
pub fn cat4(a: &str, b: &str, c: &str, d: &str) -> (r: String)
    ensures
        r@ == a@ + b@ + c@ + d@,
{
    let mut s = String::from_str(a);
    s.append(b);
    s.append(c);
    s.append(d);
    s
}

} // verus!
