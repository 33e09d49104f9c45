//! The configuration model (`ditto.toml`) and the choice of packages.

use vstd::prelude::*;
use vstd::string::*;

use crate::error::{DittoError, DittoErrorView};
use crate::paths::{
    Platform, components, join, option_view, parent, spec_join, spec_parent, str_eq, views,
};

verus! {

/// The whole configuration: settings and the packages, each under its name.
#[derive(Debug)]
pub struct DittoConfig {
    pub settings: Settings,
    pub packages: Vec<(String, Package)>,
}

#[derive(Debug)]
pub struct Settings {
    /// Directory, relative to the repository root, that holds backups.
    pub backup_dir: String,
}

/// A group of files that are linked together.
#[derive(Debug)]
pub struct Package {
    pub files: Vec<FileMapping>,
    pub hooks: Option<Hooks>,
    /// When present, the package is linked only on these platforms.
    pub platforms: Option<Vec<String>>,
}

/// A file in the repository (`src`, relative to the root) and the place it
/// is linked to (`target`, which may begin with `~`).
#[derive(Debug)]
pub struct FileMapping {
    pub src: String,
    pub target: String,
}

/// Shell commands run around linking and unlinking a package.
#[derive(Debug)]
pub struct Hooks {
    pub pre_link: Option<String>,
    pub post_link: Option<String>,
    pub pre_unlink: Option<String>,
    pub post_unlink: Option<String>,
}

impl DittoConfig {
    /// The name of the package at `i`.
    pub open spec fn name_at(&self, i: int) -> Seq<char> {
        self.packages@[i].0@
    }
}

/// No two packages share a name: `ditto.toml` keys its packages by name.
pub open spec fn names_distinct(config: &DittoConfig) -> bool {
    forall|i: int, j: int|
        0 <= i < j < config.packages@.len() ==> config.name_at(i) != config.name_at(j)
}

/// Whether no two packages share a name (see `names_distinct`).
pub fn has_distinct_names(config: &DittoConfig) -> (r: bool)
    ensures
        r == names_distinct(config),
{
    let n = config.packages.len();
    let mut j: usize = 0;
    while j < n
        invariant
            n == config.packages@.len(),
            j <= n,
            forall|a: int, b: int| 0 <= a < b < j ==> config.name_at(a) != config.name_at(b),
        decreases n - j,
    {
        let mut i: usize = 0;
        while i < j
            invariant
                n == config.packages@.len(),
                i <= j < n,
                forall|a: int, b: int| 0 <= a < b < j ==> config.name_at(a) != config.name_at(b),
                forall|a: int| 0 <= a < i ==> config.name_at(a) != config.name_at(j as int),
            decreases j - i,
        {
            if config.packages[i].0 == config.packages[j].0 {
                assert(config.name_at(i as int) == config.name_at(j as int));
                return false;
            }
            i = i + 1;
        }
        j = j + 1;
    }
    true
}

/// Package `i` takes part in a command that names `requested` (or all
/// packages, with `all`): every package when none is named, else those named.
pub open spec fn is_selected(
    config: &DittoConfig,
    requested: Seq<Seq<char>>,
    all: bool,
    i: int,
) -> bool {
    all || requested.len() == 0 || requested.contains(config.name_at(i))
}

/// `sel` lists, in increasing order, exactly the indices of the selected packages.
pub open spec fn is_selection(
    config: &DittoConfig,
    requested: Seq<Seq<char>>,
    all: bool,
    sel: Seq<usize>,
) -> bool {
    &&& forall|k: int|
        0 <= k < sel.len() ==> sel[k] < config.packages@.len() && is_selected(
            config,
            requested,
            all,
            #[trigger] sel[k] as int,
        )
    &&& forall|k: int, l: int| 0 <= k < l < sel.len() ==> sel[k] < sel[l]
    &&& forall|i: int|
        0 <= i < config.packages@.len() && is_selected(config, requested, all, i) ==> exists|
            k: int,
        |
            0 <= k < sel.len() && #[trigger] sel[k] == i
}

/// Whether `name` is one of `names`.
pub fn contains_name(names: &Vec<String>, name: &String) -> (r: bool)
    ensures
        r == views(names@).contains(name@),
{
    let mut i: usize = 0;
    while i < names.len()
        invariant
            i <= names@.len(),
            forall|k: int| 0 <= k < i ==> names@[k]@ != name@,
        decreases names@.len() - i,
    {
        if names[i] == *name {
            assert(views(names@)[i as int] == name@);
            return true;
        }
        i = i + 1;
    }
    assert forall|k: int| 0 <= k < views(names@).len() implies views(names@)[k] != name@ by {
        assert(views(names@)[k] == names@[k]@);
    }
    false
}

/// The indices, in configuration order, of the packages a command works on
/// (see `is_selected`).
pub fn select_packages(config: &DittoConfig, requested: &Vec<String>, all: bool) -> (r: Vec<usize>)
    ensures
        is_selection(config, views(requested@), all, r@),
{
    let n = config.packages.len();
    let mut out: Vec<usize> = Vec::new();
    let mut i: usize = 0;
    while i < n
        invariant
            n == config.packages@.len(),
            i <= n,
            forall|k: int|
                0 <= k < out@.len() ==> out@[k] < i && is_selected(
                    config,
                    views(requested@),
                    all,
                    #[trigger] out@[k] as int,
                ),
            forall|k: int, l: int| 0 <= k < l < out@.len() ==> out@[k] < out@[l],
            forall|j: int|
                0 <= j < i && is_selected(config, views(requested@), all, j) ==> exists|k: int|
                    0 <= k < out@.len() && #[trigger] out@[k] == j,
        decreases n - i,
    {
        let take = all || requested.len() == 0 || contains_name(requested, &config.packages[i].0);
        if take {
            let ghost before = out@;
            out.push(i);
            assert forall|j: int|
                0 <= j < i + 1 && is_selected(config, views(requested@), all, j) implies exists|
                k: int,
            | 0 <= k < out@.len() && #[trigger] out@[k] == j by {
                if j == i {
                    assert(out@[before.len() as int] == j);
                } else {
                    let k = choose|k: int| 0 <= k < before.len() && #[trigger] before[k] == j;
                    assert(out@[k] == j);
                }
            }
        }
        i = i + 1;
    }
    out
}

/// A package is linked on `platform` unless it names platforms without it.
pub open spec fn spec_platform_allows(package: &Package, platform: Platform) -> bool {
    match &package.platforms {
        None => true,
        Some(list) => views(list@).contains(platform.spec_name()),
    }
}

/// Whether the package is linked on `platform` (see `spec_platform_allows`).
pub fn platform_allows(package: &Package, platform: &Platform) -> (r: bool)
    ensures
        r == spec_platform_allows(package, *platform),
{
    match &package.platforms {
        None => true,
        Some(list) => contains_name(list, &platform.name()),
    }
}

/// The configuration file of a repository root.
pub open spec fn spec_config_file(root: Seq<char>) -> Seq<char> {
    spec_join(root, "ditto.toml"@)
}

/// The configuration file of a repository root (see `spec_config_file`).
pub fn config_file(root: &str) -> (r: String)
    ensures
        r@ == spec_config_file(root@),
{
    join(root, "ditto.toml")
}

/// The repository root used when no ancestor of the working directory
/// holds a configuration: `~/.dotfiles`.
pub open spec fn spec_fallback_root(home: Seq<char>) -> Seq<char> {
    spec_join(home, ".dotfiles"@)
}

/// `p` and its ancestors, nearest first, as `Path::parent` walks them.
pub open spec fn ancestors(p: Seq<char>) -> Seq<Seq<char>>
    decreases components(p).len(),
{
    match spec_parent(p) {
        None => seq![p],
        Some(q) => {
            proof {
                crate::laws::lemma_components_parent(p);
            }
            seq![p] + ancestors(q)
        },
    }
}

/// The directories searched for `ditto.toml`, in order: `cwd` and its
/// ancestors, then the fallback root when the home directory is known.
pub open spec fn spec_root_candidates(cwd: Seq<char>, home: Option<Seq<char>>) -> Seq<Seq<char>> {
    match home {
        Some(h) => ancestors(cwd) + seq![spec_fallback_root(h)],
        None => ancestors(cwd),
    }
}

/// The directories searched for the repository root (see `spec_root_candidates`).
pub fn root_candidates(cwd: &str, home: &Option<String>) -> (r: Vec<String>)
    ensures
        views(r@) == spec_root_candidates(cwd@, option_view(*home)),
{
    let mut out: Vec<String> = Vec::new();
    let mut cur = String::from_str(cwd);
    assert(views(out@) + ancestors(cur@) =~= ancestors(cwd@));
    loop
        invariant_except_break
            ancestors(cwd@) == views(out@) + ancestors(cur@),
        ensures
            ancestors(cwd@) == views(out@),
        decreases components(cur@).len(),
    {
        let next = parent(cur.as_str());
        proof {
            crate::laws::lemma_components_parent(cur@);
        }
        let ghost before = out@;
        let ghost cur_view = cur@;
        match next {
            None => {
                out.push(cur);
                assert(views(out@) =~= views(before) + seq![cur_view]);
                assert(ancestors(cur_view) == seq![cur_view]);
                break ;
            },
            Some(q) => {
                out.push(cur);
                assert(views(out@) =~= views(before) + seq![cur_view]);
                assert(views(out@) + ancestors(q@) =~= views(before) + (seq![cur_view] + ancestors(
                    q@,
                )));
                cur = q;
            },
        }
    }
    match home {
        Some(h) => {
            let ghost before = out@;
            out.push(join(h.as_str(), ".dotfiles"));
            assert(views(out@) =~= views(before) + seq![spec_fallback_root(h@)]);
            assert(views(out@) =~= ancestors(cwd@) + seq![spec_fallback_root(h@)]);
        },
        None => {
            assert(views(out@) =~= ancestors(cwd@));
        },
    }
    out
}

/// The repository root: the first candidate that holds a configuration;
/// when none does, `HomeNotSet` if the home directory is unknown (the
/// fallback could not be tried), else `RootNotFound`.
pub open spec fn spec_find_root(
    candidates: Seq<Seq<char>>,
    has_config: Seq<bool>,
    home_known: bool,
) -> Result<Seq<char>, DittoErrorView>
    decreases candidates.len(),
{
    if candidates.len() == 0 || has_config.len() == 0 {
        if home_known {
            Err(DittoErrorView::RootNotFound)
        } else {
            Err(DittoErrorView::HomeNotSet)
        }
    } else if has_config[0] {
        Ok(candidates[0])
    } else {
        spec_find_root(candidates.drop_first(), has_config.drop_first(), home_known)
    }
}

/// Picks the repository root, given for each candidate whether it holds
/// `ditto.toml` (see `spec_find_root`).
pub fn find_root(candidates: &Vec<String>, has_config: &Vec<bool>, home: &Option<String>) -> (r:
    Result<String, DittoError>)
    ensures
        crate::paths::result_view(r) == spec_find_root(
            views(candidates@),
            has_config@,
            home is Some,
        ),
{
    let n = if candidates.len() < has_config.len() {
        candidates.len()
    } else {
        has_config.len()
    };
    let mut i: usize = 0;
    assert(views(candidates@).skip(0) =~= views(candidates@));
    assert(has_config@.skip(0) =~= has_config@);
    while i < n
        invariant
            n <= candidates@.len(),
            n <= has_config@.len(),
            n == candidates@.len() || n == has_config@.len(),
            i <= n,
            spec_find_root(views(candidates@), has_config@, home is Some) == spec_find_root(
                views(candidates@).skip(i as int),
                has_config@.skip(i as int),
                home is Some,
            ),
        decreases n - i,
    {
        if has_config[i] {
            return Ok(candidates[i].clone());
        }
        assert(views(candidates@).skip(i as int).drop_first() =~= views(candidates@).skip(
            i + 1,
        ));
        assert(has_config@.skip(i as int).drop_first() =~= has_config@.skip(i + 1));
        i = i + 1;
    }
    match home {
        Some(_) => Err(DittoError::RootNotFound),
        None => Err(DittoError::HomeNotSet),
    }
}

} // verus!
