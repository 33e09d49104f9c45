//! The command line, as parsed.

use vstd::prelude::*;

verus! {

/// A dotfile manager: the global flags and the command.
#[derive(Debug)]
pub struct Cli {
    pub command: Commands,
    /// Enable dry-run mode
    pub dry_run: bool,
    /// Show detailed output
    pub verbose: bool,
    /// Disable colored output
    pub no_color: bool,
    /// Path to a specific ditto.toml
    pub config: Option<String>,
}

#[derive(Debug)]
pub enum Commands {
    /// Show which mappings are linked, broken or untracked
    Status,
    /// Clone a dotfiles repo and link everything (or a subset)
    Init {
        /// Git URL of the dotfiles repo
        url: String,
        /// Clone destination
        path: String,
        /// Only link specific packages
        packages: Vec<String>,
    },
    /// Create symlinks
    Link {
        /// List of packages to link
        packages: Vec<String>,
        /// Overwrite conflicts
        force: bool,
    },
    /// Remove symlinks and restore backed-up originals
    Unlink {
        /// List of packages to unlink
        packages: Vec<String>,
        /// Unlink all packages
        all: bool,
    },
    /// Move an existing file into the repo and replace it with a symlink
    Add {
        /// Path to the file to add
        path: String,
        /// Target package name
        package: String,
    },
    /// Show text diffs between repo files and live files
    Diff {
        /// Packages to diff
        packages: Vec<String>,
    },
}

} // verus!
