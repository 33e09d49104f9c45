use std::collections::BTreeMap;

use ditto::config::{DittoConfig, FileMapping, Hooks, Package, Settings};
use ditto::config::has_distinct_names;
use ditto::error::DittoError;
use ditto::hooks::hook_outcome;
use ditto::ops::add::{insert_mapping, plan, resolve_path};
use ditto::ops::walk::{Cursor, Walk, check_targets};
use ditto::ops::{Action, ChangeKind, Event, Level};
use ditto::ops::{diff, init, link, status, unlink};
use ditto::paths::Platform;

const HOME: &str = "/home/alice";
const ROOT: &str = "/repo";

#[derive(Clone, Debug, PartialEq)]
enum Node {
    File(String),
    Link(String),
    Dir,
}

/// A file system in memory that carries out the actions of a command.
struct World {
    nodes: BTreeMap<String, Node>,
    out: Vec<String>,
    hooks: Vec<String>,
    failing_hooks: Vec<String>,
    config_text: String,
}

impl World {
    fn new() -> World {
        World {
            nodes: BTreeMap::new(),
            out: Vec::new(),
            hooks: Vec::new(),
            failing_hooks: Vec::new(),
            config_text: String::new(),
        }
    }

    fn write(&mut self, path: &str, text: &str) {
        self.nodes.insert(path.to_string(), Node::File(text.to_string()));
    }

    fn resolve(&self, path: &str) -> Option<Node> {
        let mut p = path.to_string();
        for _ in 0..16 {
            match self.nodes.get(&p) {
                Some(Node::Link(dest)) => p = dest.clone(),
                other => return other.cloned(),
            }
        }
        None
    }

    fn present(&self, path: &str) -> bool {
        self.resolve(path).is_some()
    }

    fn is_symlink(&self, path: &str) -> bool {
        matches!(self.nodes.get(path), Some(Node::Link(_)))
    }

    fn read(&self, path: &str) -> Option<String> {
        match self.resolve(path) {
            Some(Node::File(t)) => Some(t),
            _ => None,
        }
    }

    fn output(&self) -> String {
        self.out.join("\n")
    }

    /// Performs one action and reports the event that answers it; `None`
    /// once the command has ended.
    fn perform(&mut self, action: Action) -> Result<Option<Event>, DittoError> {
        let ev = match action {
            Action::Say(level, msg) => {
                let prefix = match level {
                    Level::DryRun => "[dry-run] ",
                    _ => "",
                };
                self.out.push(format!("{}{}", prefix, msg));
                Event::Done
            }
            Action::RunHook(cmd) => {
                self.hooks.push(cmd.clone());
                match hook_outcome(&cmd, !self.failing_hooks.contains(&cmd)) {
                    Ok(()) => Event::Done,
                    Err(e) => Event::Failed(e),
                }
            }
            Action::Probe { target, source } => Event::Probed {
                linked: self.nodes.get(&target) == Some(&Node::Link(source)),
                exists: self.present(&target),
            },
            Action::Backup { target, backup } => match self.read(&target) {
                Some(t) => {
                    self.write(&backup, &t);
                    Event::Done
                }
                None => Event::Failed(DittoError::Io("cannot copy".to_string())),
            },
            Action::RemoveFile(p) => match self.nodes.remove(&p) {
                Some(_) => Event::Done,
                None => Event::Failed(DittoError::Io("no such file".to_string())),
            },
            Action::CreateDirAll(p) => {
                if !p.is_empty() {
                    self.nodes.entry(p).or_insert(Node::Dir);
                }
                Event::Done
            }
            Action::CreateSymlink { source, target } => {
                if self.nodes.contains_key(&target) {
                    Event::Failed(DittoError::Io("File exists".to_string()))
                } else {
                    self.nodes.insert(target, Node::Link(source));
                    Event::Done
                }
            }
            Action::CheckExists(p) => Event::Exists(self.present(&p)),
            Action::Restore { backup, target } => match self.nodes.remove(&backup) {
                Some(n) => {
                    self.nodes.insert(target, n);
                    Event::Done
                }
                None => Event::Failed(DittoError::Io("no backup".to_string())),
            },
            Action::CheckBoth { source, target } => Event::Exists(self.present(&source) && self.present(&target)),
            Action::ReadFile(p) => Event::Contents(self.read(&p)),
            Action::ShowDiff { package, target, changes } => {
                self.out.push(format!("\n[diff]  {} --> {}", package, target));
                for (kind, text) in changes {
                    let mark = match kind {
                        ChangeKind::Delete => "- ",
                        ChangeKind::Insert => "+ ",
                        ChangeKind::Equal => "  ",
                    };
                    self.out.push(format!("{}{}", mark, text));
                }
                Event::Done
            }
            Action::Rename { from, to } => match self.nodes.remove(&from) {
                Some(n) => {
                    self.nodes.insert(to, n);
                    Event::Done
                }
                None => Event::Failed(DittoError::Io("no such file".to_string())),
            },
            Action::UpdateConfig { path: _, package, src, target } => {
                match insert_mapping(&self.config_text, &package, &src, &target) {
                    Ok(text) => {
                        self.config_text = text;
                        Event::Done
                    }
                    Err(e) => Event::Failed(e),
                }
            }
            Action::Finish => return Ok(None),
            Action::Fail(e) => return Err(e),
        };
        Ok(Some(ev))
    }

    fn drive(
        &mut self,
        walk: &Walk,
        cursor: Cursor,
        run: fn(&Walk, &Cursor, Event) -> (Cursor, Action),
    ) -> Result<(), DittoError> {
        let mut cursor = cursor;
        let mut ev = Event::Start;
        for _ in 0..10_000 {
            let (next, action) = run(walk, &cursor, ev);
            cursor = next;
            match self.perform(action)? {
                Some(e) => ev = e,
                None => return Ok(()),
            }
        }
        panic!("the walk did not end");
    }
}

fn mapping(src: &str, target: &str) -> FileMapping {
    FileMapping { src: src.to_string(), target: target.to_string() }
}

/// A repository at `ROOT` with one package per (name, target): the package
/// holds `name/<file name of target>` with a marker text.
fn setup_dotfiles_repo(world: &mut World, targets: &[(&str, &str)]) -> DittoConfig {
    let mut packages = Vec::new();
    for (name, target) in targets {
        let file = target.rsplit('/').next().unwrap();
        let src = format!("{}/{}", name, file);
        world.write(&format!("{}/{}", ROOT, src), &format!("# managed by ditto ({})", name));
        packages.push((
            name.to_string(),
            Package { files: vec![mapping(&src, target)], hooks: None, platforms: None },
        ));
    }
    DittoConfig { settings: Settings { backup_dir: ".ditto-backup".to_string() }, packages }
}

fn home() -> Option<String> {
    Some(HOME.to_string())
}

fn names(v: &[&str]) -> Vec<String> {
    v.iter().map(|s| s.to_string()).collect()
}

fn run_link(world: &mut World, config: DittoConfig, packages: &[&str], force: bool, dry_run: bool) -> Result<(), DittoError> {
    let (w, c) = link::start(config, ROOT, home(), &names(packages), force, dry_run, Some(Platform::Linux));
    world.drive(&w, c, link::run)
}

fn run_unlink(world: &mut World, config: DittoConfig, packages: &[&str], all: bool, dry_run: bool) -> Result<(), DittoError> {
    let (w, c) = unlink::start(config, ROOT, home(), &names(packages), all, dry_run);
    world.drive(&w, c, unlink::run)
}

fn run_status(world: &mut World, config: DittoConfig) -> Result<(), DittoError> {
    let (w, c) = status::start(config, ROOT, home());
    world.drive(&w, c, status::run)
}

fn run_diff(world: &mut World, config: DittoConfig, packages: &[&str]) -> Result<(), DittoError> {
    let (w, c) = diff::start(config, ROOT, home(), &names(packages));
    world.drive(&w, c, diff::run)
}

const SHELL_TARGET: &str = "/tmp/t/.zshrc";
const GIT_TARGET: &str = "/tmp/t/.gitconfig";

#[test]
fn link_creates_symlinks_for_all_packages() {
    let mut world = World::new();
    let config = setup_dotfiles_repo(&mut world, &[("shell", SHELL_TARGET)]);
    run_link(&mut world, config, &[], false, false).unwrap();
    assert!(world.output().contains("symlink created"));
    assert!(world.present(SHELL_TARGET));
    assert!(world.is_symlink(SHELL_TARGET));
}

#[test]
fn link_specific_package_only_links_that_package() {
    let mut world = World::new();
    let config = setup_dotfiles_repo(&mut world, &[("shell", SHELL_TARGET), ("git", GIT_TARGET)]);
    run_link(&mut world, config, &["shell"], false, false).unwrap();
    assert!(world.is_symlink(SHELL_TARGET));
    assert!(!world.present(GIT_TARGET));
}

#[test]
fn link_skips_already_linked_files() {
    let mut world = World::new();
    let config = setup_dotfiles_repo(&mut world, &[("shell", SHELL_TARGET)]);
    run_link(&mut world, config, &[], false, false).unwrap();
    let config = setup_dotfiles_repo(&mut world, &[("shell", SHELL_TARGET)]);
    world.out.clear();
    run_link(&mut world, config, &[], false, false).unwrap();
    assert!(world.output().contains("already linked"));
}

#[test]
fn link_warns_on_conflict_without_force() {
    let mut world = World::new();
    world.write(SHELL_TARGET, "existing content");
    let config = setup_dotfiles_repo(&mut world, &[("shell", SHELL_TARGET)]);
    run_link(&mut world, config, &[], false, false).unwrap();
    assert!(world.output().contains("conflict"));
    assert_eq!(world.read(SHELL_TARGET).unwrap(), "existing content");
}

#[test]
fn link_dry_run_does_not_create_symlinks() {
    let mut world = World::new();
    let config = setup_dotfiles_repo(&mut world, &[("shell", SHELL_TARGET)]);
    run_link(&mut world, config, &[], false, true).unwrap();
    assert!(world.output().contains("would link"));
    assert!(!world.present(SHELL_TARGET));
}

#[test]
fn link_force_backs_up_and_unlink_restores() {
    let mut world = World::new();
    let target = "/home/alice/.zshrc";
    world.write(target, "original");
    let config = setup_dotfiles_repo(&mut world, &[("shell", "~/.zshrc")]);
    run_link(&mut world, config, &[], true, false).unwrap();
    assert!(world.is_symlink(target));
    assert_eq!(world.read("/repo/.ditto-backup/.zshrc").unwrap(), "original");
    let config = setup_dotfiles_repo(&mut world, &[("shell", "~/.zshrc")]);
    run_unlink(&mut world, config, &["shell"], false, false).unwrap();
    assert!(!world.is_symlink(target));
    assert_eq!(world.read(target).unwrap(), "original");
    assert!(world.output().contains("[shell] /home/alice/.zshrc restored from backup"));
    assert!(!world.present("/repo/.ditto-backup/.zshrc"));
}

#[test]
fn link_force_dry_run_keeps_the_conflict() {
    let mut world = World::new();
    world.write(SHELL_TARGET, "existing content");
    let config = setup_dotfiles_repo(&mut world, &[("shell", SHELL_TARGET)]);
    run_link(&mut world, config, &[], true, true).unwrap();
    assert!(world.output().contains("would backup /tmp/t/.zshrc"));
    assert!(world.output().contains("would link shell --> /tmp/t/.zshrc"));
    assert_eq!(world.read(SHELL_TARGET).unwrap(), "existing content");
}

#[test]
fn link_force_outside_home_fails() {
    let mut world = World::new();
    world.write(SHELL_TARGET, "existing content");
    let config = setup_dotfiles_repo(&mut world, &[("shell", SHELL_TARGET)]);
    let r = run_link(&mut world, config, &[], true, false);
    assert!(matches!(r, Err(DittoError::NotInHome(p)) if p == SHELL_TARGET));
}

#[test]
fn link_skips_packages_of_other_platforms_and_runs_hooks() {
    let mut world = World::new();
    let mut config = setup_dotfiles_repo(&mut world, &[("mac", "/tmp/t/mac"), ("shell", SHELL_TARGET)]);
    config.packages[0].1.platforms = Some(vec!["macos".to_string()]);
    config.packages[1].1.hooks = Some(Hooks {
        pre_link: Some("echo pre".to_string()),
        post_link: Some("echo post".to_string()),
        pre_unlink: None,
        post_unlink: None,
    });
    run_link(&mut world, config, &[], false, false).unwrap();
    assert!(world.output().contains("skipping mac (wrong platform)"));
    assert!(!world.present("/tmp/t/mac"));
    assert_eq!(world.hooks, vec!["echo pre", "echo post"]);
    assert!(world.is_symlink(SHELL_TARGET));
}

#[test]
fn link_stops_when_a_hook_fails() {
    let mut world = World::new();
    let mut config = setup_dotfiles_repo(&mut world, &[("shell", SHELL_TARGET)]);
    config.packages[0].1.hooks = Some(Hooks {
        pre_link: Some("false".to_string()),
        post_link: None,
        pre_unlink: None,
        post_unlink: None,
    });
    world.failing_hooks.push("false".to_string());
    let r = run_link(&mut world, config, &[], false, false);
    assert!(matches!(r, Err(DittoError::HookCommandFailed(m)) if m == "false"));
    assert!(!world.present(SHELL_TARGET));
}

#[test]
fn status_shows_not_linked_when_no_symlinks_exist() {
    let mut world = World::new();
    let config = setup_dotfiles_repo(&mut world, &[("shell", SHELL_TARGET)]);
    run_status(&mut world, config).unwrap();
    assert!(world.output().contains("not linked"));
    assert!(world.output().starts_with("Checking status..."));
}

#[test]
fn status_shows_linked_after_linking() {
    let mut world = World::new();
    let config = setup_dotfiles_repo(&mut world, &[("shell", SHELL_TARGET)]);
    run_link(&mut world, config, &[], false, false).unwrap();
    let config = setup_dotfiles_repo(&mut world, &[("shell", SHELL_TARGET)]);
    world.out.clear();
    run_status(&mut world, config).unwrap();
    assert!(world.output().contains("linked"));
    assert!(world.output().contains("shell --> /tmp/t/.zshrc [linked]"));
}

#[test]
fn status_shows_conflict_when_non_symlink_exists() {
    let mut world = World::new();
    world.write(SHELL_TARGET, "existing content");
    let config = setup_dotfiles_repo(&mut world, &[("shell", SHELL_TARGET)]);
    run_status(&mut world, config).unwrap();
    assert!(world.output().contains("conflict"));
}

#[test]
fn unlink_removes_symlinks() {
    let mut world = World::new();
    let target = "/home/alice/.ditto-test-1/.zshrc";
    let config = setup_dotfiles_repo(&mut world, &[("shell", target)]);
    run_link(&mut world, config, &[], false, false).unwrap();
    assert!(world.is_symlink(target));
    let config = setup_dotfiles_repo(&mut world, &[("shell", target)]);
    run_unlink(&mut world, config, &[], true, false).unwrap();
    assert!(world.output().contains("unlinked"));
    assert!(!world.present(target));
    assert!(world.present("/repo/shell/.zshrc"));
    assert!(world.output().ends_with("Symlinks removed."));
}

#[test]
fn unlink_without_all_or_packages_warns_user() {
    let mut world = World::new();
    let config = setup_dotfiles_repo(&mut world, &[("shell", SHELL_TARGET)]);
    run_unlink(&mut world, config, &[], false, false).unwrap();
    assert!(world.output().contains("No packages specified"));
}

#[test]
fn unlink_specific_package_only_removes_that_package() {
    let mut world = World::new();
    let shell = "/home/alice/.ditto-test-2/.zshrc";
    let git = "/home/alice/.ditto-test-2/.gitconfig";
    let config = setup_dotfiles_repo(&mut world, &[("shell", shell), ("git", git)]);
    run_link(&mut world, config, &[], false, false).unwrap();
    let config = setup_dotfiles_repo(&mut world, &[("shell", shell), ("git", git)]);
    run_unlink(&mut world, config, &["shell"], false, false).unwrap();
    assert!(!world.present(shell));
    assert!(world.is_symlink(git));
}

#[test]
fn unlink_dry_run_does_not_remove_symlinks() {
    let mut world = World::new();
    let target = "/home/alice/.ditto-test-3/.zshrc";
    let config = setup_dotfiles_repo(&mut world, &[("shell", target)]);
    run_link(&mut world, config, &[], false, false).unwrap();
    let config = setup_dotfiles_repo(&mut world, &[("shell", target)]);
    run_unlink(&mut world, config, &[], true, true).unwrap();
    assert!(world.output().contains("would remove symlink"));
    assert!(world.is_symlink(target));
}

#[test]
fn diff_shows_no_changes_when_files_match() {
    let mut world = World::new();
    let config = setup_dotfiles_repo(&mut world, &[("shell", SHELL_TARGET)]);
    run_link(&mut world, config, &[], false, false).unwrap();
    let config = setup_dotfiles_repo(&mut world, &[("shell", SHELL_TARGET)]);
    world.out.clear();
    run_diff(&mut world, config, &[]).unwrap();
    assert!(world.output().contains("in sync"));
}

#[test]
fn diff_shows_changes_when_target_differs_from_source() {
    let mut world = World::new();
    let config = setup_dotfiles_repo(&mut world, &[("shell", SHELL_TARGET)]);
    world.write(SHELL_TARGET, "modified content");
    run_diff(&mut world, config, &[]).unwrap();
    assert!(world.output().contains("[diff]"));
    assert!(world.output().contains("shell"));
    assert!(world.output().contains("- # managed by ditto (shell)\n"));
    assert!(world.output().contains("+ modified content\n"));
    assert!(!world.output().contains("in sync"));
}

#[test]
fn diff_specific_package_only_diffs_that_package() {
    let mut world = World::new();
    let config = setup_dotfiles_repo(&mut world, &[("shell", SHELL_TARGET), ("git", GIT_TARGET)]);
    world.write(SHELL_TARGET, "modified shell");
    world.write(GIT_TARGET, "modified git");
    run_diff(&mut world, config, &["shell"]).unwrap();
    let stdout = world.output();
    assert!(stdout.contains("shell"));
    assert!(!stdout.contains("git"));
}

#[test]
fn diff_skips_files_where_target_does_not_exist() {
    let mut world = World::new();
    let config = setup_dotfiles_repo(&mut world, &[("shell", SHELL_TARGET)]);
    run_diff(&mut world, config, &[]).unwrap();
    assert!(world.output().contains("in sync"));
}

const CONFIG: &str = "[settings]\nbackup_dir = \".ditto-backup\"\n\n[packages.shell]\nfiles = []\n";

fn run_add(world: &mut World, file: &str, package: &str, dry_run: bool) -> Result<(), DittoError> {
    let file = resolve_path(file, &home())?;
    let actions = plan("/repo/ditto.toml", ROOT, &file, package, dry_run, &home(), world.present(&file))?;
    for a in actions {
        if let Some(Event::Failed(e)) = world.perform(a)? {
            return Err(e);
        }
    }
    Ok(())
}

#[test]
fn add_moves_file_into_repo_and_creates_symlink() {
    let mut world = World::new();
    world.config_text = CONFIG.to_string();
    let file_to_add = "/home/alice/.ditto-test-4/zshrc";
    world.write(file_to_add, "# my zshrc");
    run_add(&mut world, file_to_add, "shell", false).unwrap();
    assert!(world.output().contains("moved"));
    assert!(world.output().contains("symlinked"));
    assert!(world.present("/repo/shell/zshrc"));
    assert_eq!(world.read("/repo/shell/zshrc").unwrap(), "# my zshrc");
    assert!(world.is_symlink(file_to_add));
    assert!(world.config_text.contains("zshrc"));
    assert!(world.config_text.contains("src = \"shell/zshrc\""));
    assert!(world.config_text.contains("target = \"~/.ditto-test-4/zshrc\""));
}

#[test]
fn add_fails_when_file_does_not_exist() {
    let mut world = World::new();
    world.config_text = CONFIG.to_string();
    let r = run_add(&mut world, "/nonexistent/file", "shell", false);
    match r {
        Err(e) => assert!(e.message().contains("File not found")),
        Ok(()) => panic!("expected an error"),
    }
}

#[test]
fn add_dry_run_does_not_move_file() {
    let mut world = World::new();
    world.config_text = CONFIG.to_string();
    let file_to_add = "/home/alice/.ditto-test-5/zshrc";
    world.write(file_to_add, "# my zshrc");
    run_add(&mut world, file_to_add, "shell", true).unwrap();
    assert!(world.output().contains("would move"));
    assert!(world.present(file_to_add));
    assert!(!world.present("/repo/shell/zshrc"));
    assert_eq!(world.config_text, CONFIG);
}

#[test]
fn add_expands_a_leading_tilde() {
    let mut world = World::new();
    world.config_text = CONFIG.to_string();
    world.write("/home/alice/.vimrc", "set nu");
    run_add(&mut world, "~/.vimrc", "shell", false).unwrap();
    assert!(world.is_symlink("/home/alice/.vimrc"));
    assert!(world.config_text.contains("target = \"~/.vimrc\""));
}

#[test]
fn add_outside_home_fails() {
    let mut world = World::new();
    world.write("/etc/hosts", "127.0.0.1");
    let r = run_add(&mut world, "/etc/hosts", "shell", false);
    assert!(matches!(r, Err(DittoError::NotInHome(_))));
    assert!(world.present("/etc/hosts"));
}

#[test]
fn insert_mapping_reports_bad_configs() {
    assert!(matches!(insert_mapping("not = [toml", "shell", "a", "b"), Err(DittoError::ConfigSyntax(_))));
    assert!(matches!(
        insert_mapping(CONFIG, "git", "git/x", "~/x"),
        Err(DittoError::FilesArrayMissing(p)) if p == "git"
    ));
    let edited = insert_mapping("# mine\n[packages.shell]\nfiles = []\n", "shell", "shell/a", "~/a").unwrap();
    assert!(edited.starts_with("# mine\n"));
    assert!(edited.contains("{ src = \"shell/a\", target = \"~/a\" }"));
}

#[test]
fn init_clone_outcome_and_link() {
    assert!(init::clone_outcome(true).is_ok());
    assert!(matches!(init::clone_outcome(false), Err(DittoError::CloneFailed)));
    assert_eq!(init::clone_outcome(false).unwrap_err().message(), "git clone failed");
    let mut world = World::new();
    let config = setup_dotfiles_repo(&mut world, &[("shell", SHELL_TARGET)]);
    let (w, c) = init::start(config, ROOT, home(), &vec![], false, Some(Platform::Linux));
    world.drive(&w, c, link::run).unwrap();
    assert!(world.is_symlink(SHELL_TARGET));
    assert!(init::success_message().contains("transformed"));
}

fn run_init(world: &mut World, cloned: bool, dry_run: bool) -> Result<(), DittoError> {
    init::clone_outcome(cloned)?;
    let config = setup_dotfiles_repo(world, &[("shell", SHELL_TARGET)]);
    let (w, c) = init::start(config, ROOT, home(), &vec![], dry_run, Some(Platform::Linux));
    world.drive(&w, c, link::run)?;
    world.out.push(init::success_message());
    Ok(())
}

#[test]
fn init_clones_repo_and_links() {
    let mut world = World::new();
    run_init(&mut world, true, false).unwrap();
    assert!(world.output().contains("linked"));
    assert!(world.output().contains("transformed"));
    assert!(world.present("/repo/shell/.zshrc"));
    assert!(world.is_symlink(SHELL_TARGET));
}

#[test]
fn init_fails_with_invalid_repo_url() {
    let mut world = World::new();
    let r = run_init(&mut world, false, false);
    assert!(r.is_err());
    assert!(!world.present(SHELL_TARGET));
}

#[test]
fn init_dry_run_does_not_clone() {
    let mut world = World::new();
    run_init(&mut world, true, true).unwrap();
    assert!(!world.present(SHELL_TARGET));
}

#[test]
fn add_plan_without_file_name_fails() {
    let r = plan("/repo/ditto.toml", ROOT, "/home/alice/..", "shell", false, &home(), true);
    assert!(matches!(r, Err(DittoError::NoFileName(p)) if p == "/home/alice/.."));
    let r = plan("/repo/ditto.toml", ROOT, "/", "shell", false, &home(), true);
    assert!(matches!(r, Err(DittoError::NoFileName(_))));
}

fn hooked(pre: &str, post: &str) -> Option<Hooks> {
    Some(Hooks {
        pre_link: Some(pre.to_string()),
        post_link: Some(post.to_string()),
        pre_unlink: Some(pre.to_string()),
        post_unlink: Some(post.to_string()),
    })
}

#[test]
fn dry_runs_run_no_hooks_and_create_no_directories() {
    let mut world = World::new();
    let target = "/home/alice/.config/fresh/rc";
    let mut config = setup_dotfiles_repo(&mut world, &[("shell", target)]);
    config.packages[0].1.hooks = hooked("echo pre", "echo post");
    run_link(&mut world, config, &[], true, true).unwrap();
    assert!(world.hooks.is_empty());
    assert!(!world.present("/home/alice/.config/fresh"));
    assert!(world.output().contains("would link shell --> /home/alice/.config/fresh/rc"));

    let mut config = setup_dotfiles_repo(&mut world, &[("shell", target)]);
    config.packages[0].1.hooks = hooked("echo pre", "echo post");
    run_link(&mut world, config, &[], false, false).unwrap();
    assert_eq!(world.hooks, vec!["echo pre", "echo post"]);
    assert!(world.present("/home/alice/.config/fresh"));

    world.hooks.clear();
    let mut config = setup_dotfiles_repo(&mut world, &[("shell", target)]);
    config.packages[0].1.hooks = hooked("echo pre", "echo post");
    run_unlink(&mut world, config, &[], true, true).unwrap();
    assert!(world.hooks.is_empty());
    assert!(world.is_symlink(target));
}

#[test]
fn hook_outcome_reports_the_command() {
    assert!(hook_outcome("true", true).is_ok());
    let e = hook_outcome("chmod 700 ~/.ssh", false).unwrap_err();
    assert!(matches!(&e, DittoError::HookCommandFailed(c) if c == "chmod 700 ~/.ssh"));
    assert_eq!(e.message(), "Hook failed: chmod 700 ~/.ssh");
}

#[test]
fn insert_mapping_appends_to_the_files_array() {
    let edited = insert_mapping(CONFIG, "shell", "shell/zshrc", "~/.zshrc").unwrap();
    assert!(edited.contains("{ src = \"shell/zshrc\", target = \"~/.zshrc\" }"));
    assert!(edited.starts_with("[settings]\nbackup_dir = \".ditto-backup\"\n"));
    let inline = "packages = { shell = { files = [] } }\n";
    assert!(insert_mapping(inline, "shell", "a", "b").unwrap().contains("src = \"a\""));
    assert!(matches!(insert_mapping("packages = 3\n", "shell", "a", "b"), Err(DittoError::FilesArrayMissing(_))));
    assert!(matches!(
        insert_mapping("[packages.shell]\nfiles = 3\n", "shell", "a", "b"),
        Err(DittoError::FilesArrayMissing(_))
    ));
    let e = insert_mapping("x = ", "shell", "a", "b").unwrap_err();
    assert!(matches!(&e, DittoError::ConfigSyntax(m) if !m.is_empty() && e.message() == *m));
}

#[test]
fn package_names_must_differ() {
    let mut world = World::new();
    let config = setup_dotfiles_repo(&mut world, &[("shell", SHELL_TARGET), ("git", GIT_TARGET)]);
    assert!(has_distinct_names(&config));
    let twice = setup_dotfiles_repo(&mut world, &[("shell", SHELL_TARGET), ("shell", GIT_TARGET)]);
    assert!(!has_distinct_names(&twice));
}

#[test]
fn successful_hook_returns_ok() {
    let result = hook_outcome("true", true);
    assert!(result.is_ok());
}

#[test]
fn failing_hook_returns_error() {
    let result = hook_outcome("false", false);
    assert!(result.is_err());
}

#[test]
fn only_the_targets_a_command_expands_must_be_well_formed() {
    let mut world = World::new();
    let mut config = setup_dotfiles_repo(&mut world, &[("shell", SHELL_TARGET), ("odd", "/tmp/t/odd")]);
    config.packages[1].1.files[0].target = "~".to_string();
    assert!(check_targets(&config, &names(&["shell"]), false, &Some(Platform::Linux)));
    assert!(!check_targets(&config, &names(&[]), false, &Some(Platform::Linux)));
    assert!(!check_targets(&config, &names(&["odd"]), false, &None));
    config.packages[1].1.platforms = Some(vec!["macos".to_string()]);
    assert!(check_targets(&config, &names(&[]), false, &Some(Platform::Linux)));
    assert!(!check_targets(&config, &names(&[]), false, &Some(Platform::MacOs)));
    assert!(!check_targets(&config, &names(&[]), true, &None));
    run_link(&mut world, config, &["shell"], false, false).unwrap();
    assert!(world.is_symlink(SHELL_TARGET));
}

#[test]
fn link_on_an_unknown_platform_filters_nothing() {
    let mut world = World::new();
    let mut config = setup_dotfiles_repo(&mut world, &[("mac", "/tmp/t/mac")]);
    config.packages[0].1.platforms = Some(vec!["macos".to_string()]);
    let (w, c) = link::start(config, ROOT, home(), &vec![], false, false, None);
    world.drive(&w, c, link::run).unwrap();
    assert!(world.is_symlink("/tmp/t/mac"));
}

#[test]
fn add_records_the_target_as_written() {
    let mut world = World::new();
    world.config_text = CONFIG.to_string();
    world.write("/home/alice/cfg//rc", "x");
    run_add(&mut world, "/home/alice/cfg//rc", "shell", false).unwrap();
    assert!(world.config_text.contains("target = \"~/cfg//rc\""));
}
