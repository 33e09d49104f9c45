//! Errors of the library.

use vstd::prelude::*;
use vstd::string::*;

verus! {

/// Everything that can go wrong in a command. Paths are carried as strings.
#[derive(Debug)]
pub enum DittoError {
    ConfigNotFound,
    ConfigParse(String),
    PackageNotFound(String),
    ConflictExists(String),
    SourceNotFound(String),
    BackupFailed { path: String, message: String },
    HookFailed { package: String, message: String },
    GitError(String),
    NotInHome(String),
    /// A failure of outside work (file system, processes), with its message.
    Io(String),
    /// The user's home directory could not be determined.
    HomeNotSet,
    /// No `ditto.toml` in the working directory, its ancestors or `~/.dotfiles`.
    RootNotFound,
    /// The file to bring under management does not exist.
    FileNotFound(String),
    /// The path to bring under management has no file name.
    NoFileName(String),
    /// The configuration has no `files` array for the package.
    FilesArrayMissing(String),
    /// `git clone` did not succeed.
    CloneFailed,
    /// A hook command exited with failure; carries the command.
    HookCommandFailed(String),
    /// The configuration file is no TOML document; carries the parser's message.
    ConfigSyntax(String),
}

/// A `DittoError` with its strings taken by their views.
pub enum DittoErrorView {
    ConfigNotFound,
    ConfigParse(Seq<char>),
    PackageNotFound(Seq<char>),
    ConflictExists(Seq<char>),
    SourceNotFound(Seq<char>),
    BackupFailed { path: Seq<char>, message: Seq<char> },
    HookFailed { package: Seq<char>, message: Seq<char> },
    GitError(Seq<char>),
    NotInHome(Seq<char>),
    Io(Seq<char>),
    HomeNotSet,
    RootNotFound,
    FileNotFound(Seq<char>),
    NoFileName(Seq<char>),
    FilesArrayMissing(Seq<char>),
    CloneFailed,
    HookCommandFailed(Seq<char>),
    ConfigSyntax(Seq<char>),
}

impl View for DittoError {
    type V = DittoErrorView;

    open spec fn view(&self) -> DittoErrorView {
        match self {
            DittoError::ConfigNotFound => DittoErrorView::ConfigNotFound,
            DittoError::ConfigParse(s) => DittoErrorView::ConfigParse(s@),
            DittoError::PackageNotFound(s) => DittoErrorView::PackageNotFound(s@),
            DittoError::ConflictExists(s) => DittoErrorView::ConflictExists(s@),
            DittoError::SourceNotFound(s) => DittoErrorView::SourceNotFound(s@),
            DittoError::BackupFailed { path, message } => DittoErrorView::BackupFailed {
                path: path@,
                message: message@,
            },
            DittoError::HookFailed { package, message } => DittoErrorView::HookFailed {
                package: package@,
                message: message@,
            },
            DittoError::GitError(s) => DittoErrorView::GitError(s@),
            DittoError::NotInHome(s) => DittoErrorView::NotInHome(s@),
            DittoError::Io(s) => DittoErrorView::Io(s@),
            DittoError::HomeNotSet => DittoErrorView::HomeNotSet,
            DittoError::RootNotFound => DittoErrorView::RootNotFound,
            DittoError::FileNotFound(s) => DittoErrorView::FileNotFound(s@),
            DittoError::NoFileName(s) => DittoErrorView::NoFileName(s@),
            DittoError::FilesArrayMissing(s) => DittoErrorView::FilesArrayMissing(s@),
            DittoError::CloneFailed => DittoErrorView::CloneFailed,
            DittoError::HookCommandFailed(s) => DittoErrorView::HookCommandFailed(s@),
            DittoError::ConfigSyntax(s) => DittoErrorView::ConfigSyntax(s@),
        }
    }
}

impl DittoErrorView {
    /// The text shown to the user for the error.
    pub open spec fn message(self) -> Seq<char> {
        match self {
            DittoErrorView::ConfigNotFound => "Config file not found. Run `ditto init` first or create a ditto.toml"@,
            DittoErrorView::ConfigParse(s) => "Failed to parse config: "@ + s,
            DittoErrorView::PackageNotFound(s) => "Package not found: "@ + s,
            DittoErrorView::ConflictExists(s) => "File already exists and is not a symlink: "@ + s,
            DittoErrorView::SourceNotFound(s) => "Symlink target does not exist: "@ + s,
            DittoErrorView::BackupFailed { path, message } => "Backup failed for "@ + path + ": "@
                + message,
            DittoErrorView::HookFailed { package, message } => "Hook failed for package '"@ + package
                + "': "@ + message,
            DittoErrorView::GitError(s) => "Git command failed: "@ + s,
            DittoErrorView::NotInHome(s) => "Path is not inside home directory: "@ + s,
            DittoErrorView::Io(s) => s,
            DittoErrorView::HomeNotSet => "Home directory not set."@,
            DittoErrorView::RootNotFound => "Could not find ditto.toml"@,
            DittoErrorView::FileNotFound(s) => "File not found: "@ + s,
            DittoErrorView::NoFileName(s) => "Could not determine filename for "@ + s,
            DittoErrorView::FilesArrayMissing(s) => "Could not find files array for package '"@ + s
                + "'"@,
            DittoErrorView::CloneFailed => "git clone failed"@,
            DittoErrorView::HookCommandFailed(s) => "Hook failed: "@ + s,
            DittoErrorView::ConfigSyntax(s) => s,
        }
    }
}

/// `prefix` followed by `s`.
fn prefixed(prefix: &str, s: &String) -> (r: String)
    ensures
        r@ == prefix@ + s@,
{
    let mut m = String::from_str(prefix);
    m.append(s.as_str());
    m
}

impl DittoError {
    /// The text shown to the user for the error.
    pub fn message(&self) -> (r: String)
        ensures
            r@ == self@.message(),
    {
        match self {
            DittoError::ConfigNotFound => String::from_str(
                "Config file not found. Run `ditto init` first or create a ditto.toml",
            ),
            DittoError::ConfigParse(s) => prefixed("Failed to parse config: ", s),
            DittoError::PackageNotFound(s) => prefixed("Package not found: ", s),
            DittoError::ConflictExists(s) => prefixed(
                "File already exists and is not a symlink: ",
                s,
            ),
            DittoError::SourceNotFound(s) => prefixed("Symlink target does not exist: ", s),
            DittoError::BackupFailed { path, message } => {
                let mut m = prefixed("Backup failed for ", path);
                m.append(": ");
                m.append(message.as_str());
                m
            },
            DittoError::HookFailed { package, message } => {
                let mut m = prefixed("Hook failed for package '", package);
                m.append("': ");
                m.append(message.as_str());
                m
            },
            DittoError::GitError(s) => prefixed("Git command failed: ", s),
            DittoError::NotInHome(s) => prefixed("Path is not inside home directory: ", s),
            DittoError::Io(s) => s.clone(),
            DittoError::HomeNotSet => String::from_str("Home directory not set."),
            DittoError::RootNotFound => String::from_str("Could not find ditto.toml"),
            DittoError::FileNotFound(s) => prefixed("File not found: ", s),
            DittoError::NoFileName(s) => prefixed("Could not determine filename for ", s),
            DittoError::FilesArrayMissing(s) => {
                let mut m = prefixed("Could not find files array for package '", s);
                m.append("'");
                m
            },
            DittoError::CloneFailed => String::from_str("git clone failed"),
            DittoError::HookCommandFailed(s) => prefixed("Hook failed: ", s),
            DittoError::ConfigSyntax(s) => s.clone(),
        }
    }
}

} // verus!
