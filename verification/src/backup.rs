//! Where backups of conflicting files are kept.

use vstd::prelude::*;

use crate::error::{DittoError, DittoErrorView};
use crate::paths::{
    join, option_view, relative_to_home_in, result_view, spec_join, spec_relative_to_home,
    system_home_dir,
};

verus! {

/// The backup of `target` lies under `backup_dir` at the place the target
/// has relative to the home directory.
pub open spec fn spec_backup_path(
    target: Seq<char>,
    backup_dir: Seq<char>,
    home: Option<Seq<char>>,
) -> Result<Seq<char>, DittoErrorView> {
    match spec_relative_to_home(target, home) {
        Ok(rel) => Ok(spec_join(backup_dir, rel)),
        Err(e) => Err(e),
    }
}

/// The backup location of `target` for the given home directory.
pub fn backup_path_in(target: &str, backup_dir: &str, home: &Option<String>) -> (r: Result<
    String,
    DittoError,
>)
    ensures
        result_view(r) == spec_backup_path(target@, backup_dir@, option_view(*home)),
{
    match relative_to_home_in(target, home) {
        Ok(rel) => Ok(join(backup_dir, rel.as_str())),
        Err(e) => Err(e),
    }
}

/// The backup location of `target` for the current user's home directory.
pub fn backup_path_for(target: &str, backup_dir: &str) -> (r: Result<String, DittoError>)
    ensures
        exists|home: Option<Seq<char>>|
            result_view(r) == spec_backup_path(target@, backup_dir@, home),
{
    let home = system_home_dir();
    backup_path_in(target, backup_dir, &home)
}

} // verus!
