use ditto::backup::backup_path_in;
use ditto::config::{
    config_file, find_root, root_candidates, select_packages, DittoConfig, FileMapping, Package,
    Settings,
};
use ditto::error::DittoError;
use ditto::paths::{
    expand_tilde_in, file_name, join, parent, path_components, relative_to, relative_to_home_in,
    str_eq, current_platform, Platform,
};

fn home() -> Option<String> {
    Some("/home/alice".to_string())
}

#[test]
fn join_follows_path_join() {
    assert_eq!(join("/home/alice", ".zshrc"), "/home/alice/.zshrc");
    assert_eq!(join("/home/alice/", ".zshrc"), "/home/alice/.zshrc");
    assert_eq!(join("", "a"), "a");
    assert_eq!(join("/repo", "/etc/hosts"), "/etc/hosts");
    assert_eq!(join("a", ""), "a/");
}

#[test]
fn components_skip_empty_and_dot() {
    assert_eq!(path_components("/a//b/./c/"), vec!["a", "b", "c"]);
    assert_eq!(path_components("./x/../y"), vec!["x", "..", "y"]);
    assert!(path_components("/").is_empty());
}

#[test]
fn relative_to_strips_components() {
    assert_eq!(relative_to("/home/alice/.zshrc", "/home/alice"), Some(".zshrc".to_string()));
    assert_eq!(relative_to("/home/alice/a/b", "/home/alice/"), Some("a/b".to_string()));
    assert_eq!(relative_to("/home/alice", "/home/alice"), Some(String::new()));
    assert_eq!(relative_to("/home/alicex/a", "/home/alice"), None);
    assert_eq!(relative_to("home/alice/a", "/home/alice"), None);
}

#[test]
fn relative_to_keeps_the_rest_as_written() {
    assert_eq!(relative_to("/home/alice/a//b/", "/home/alice"), Some("a//b".to_string()));
    assert_eq!(relative_to("/home//alice/./a/./b/.", "/home/alice"), Some("a/./b".to_string()));
    assert_eq!(relative_to("/home/alice//", "/home/alice"), Some(String::new()));
    assert_eq!(relative_to("/a/b", "/"), Some("a/b".to_string()));
    assert_eq!(relative_to("a/b/../c", "a"), Some("b/../c".to_string()));
}

#[test]
fn relative_to_home_reports_errors() {
    let r = relative_to_home_in("/etc/hosts", &home());
    match r {
        Err(DittoError::NotInHome(p)) => assert_eq!(p, "/etc/hosts"),
        _ => panic!("expected NotInHome"),
    }
    assert!(matches!(relative_to_home_in("/home/alice/x", &None), Err(DittoError::HomeNotSet)));
}

#[test]
fn expand_tilde_uses_home() {
    assert_eq!(expand_tilde_in("~/.zshrc", &home()).ok(), Some("/home/alice/.zshrc".to_string()));
    assert_eq!(expand_tilde_in("/etc/hosts", &home()).ok(), Some("/etc/hosts".to_string()));
    assert_eq!(expand_tilde_in("relative", &None).ok(), Some("relative".to_string()));
    assert!(matches!(expand_tilde_in("~/x", &None), Err(DittoError::HomeNotSet)));
    // Everything after the first two characters follows the home directory.
    assert_eq!(expand_tilde_in("~xy", &home()).ok(), Some("/home/alice/y".to_string()));
}

#[test]
fn file_name_and_parent() {
    assert_eq!(file_name("/home/alice/.zshrc"), Some(".zshrc".to_string()));
    assert_eq!(file_name("/home/alice/dir/"), Some("dir".to_string()));
    assert_eq!(file_name("/a/.."), None);
    assert_eq!(file_name("/"), None);
    assert_eq!(parent("/home/alice/.zshrc"), Some("/home/alice".to_string()));
    assert_eq!(parent("/x"), Some("/".to_string()));
    assert_eq!(parent("x"), Some(String::new()));
    assert_eq!(parent("/"), None);
}

#[test]
fn backup_path_mirrors_home() {
    let b = backup_path_in("/home/alice/.config/nvim/init.lua", "/repo/.ditto-backup", &home());
    assert_eq!(b.ok(), Some("/repo/.ditto-backup/.config/nvim/init.lua".to_string()));
    assert!(matches!(
        backup_path_in("/etc/hosts", "/repo/.ditto-backup", &home()),
        Err(DittoError::NotInHome(_))
    ));
}

#[test]
fn distinct_targets_get_distinct_backups() {
    let d = "/repo/.ditto-backup";
    let a = backup_path_in("/home/alice/.config/a", d, &home()).ok().unwrap();
    let b = backup_path_in("/home/alice/.config/b", d, &home()).ok().unwrap();
    let c = backup_path_in("/home/alice/.config-a", d, &home()).ok().unwrap();
    assert_ne!(a, b);
    assert_ne!(a, c);
    assert_eq!(backup_path_in("/home/alice//.config/a", d, &home()).ok().unwrap(), a);
}

#[test]
fn platform_names() {
    assert!(matches!(Platform::from_os("macos"), Some(Platform::MacOs)));
    assert!(matches!(Platform::from_os("linux"), Some(Platform::Linux)));
    assert!(Platform::from_os("windows").is_none());
    assert_eq!(Platform::Linux.name(), "linux");
    assert!(str_eq("abc", "abc"));
    assert!(!str_eq("abc", "abd"));
}

fn package(src: &str, target: &str) -> Package {
    Package {
        files: vec![FileMapping { src: src.to_string(), target: target.to_string() }],
        hooks: None,
        platforms: None,
    }
}

fn config() -> DittoConfig {
    DittoConfig {
        settings: Settings { backup_dir: ".ditto-backup".to_string() },
        packages: vec![
            ("shell".to_string(), package("shell/.zshrc", "~/.zshrc")),
            ("git".to_string(), package("git/.gitconfig", "~/.gitconfig")),
            ("ssh".to_string(), package("ssh/", "~/.ssh/")),
        ],
    }
}

#[test]
fn selection_keeps_configuration_order() {
    let c = config();
    assert_eq!(select_packages(&c, &vec![], false), vec![0, 1, 2]);
    assert_eq!(select_packages(&c, &vec!["ssh".to_string(), "shell".to_string()], false), vec![0, 2]);
    assert_eq!(select_packages(&c, &vec!["nope".to_string()], false), Vec::<usize>::new());
    assert_eq!(select_packages(&c, &vec!["git".to_string()], true), vec![0, 1, 2]);
}

#[test]
fn root_search_walks_up_then_falls_back() {
    let c = root_candidates("/home/alice/dots/sub", &home());
    assert_eq!(
        c,
        vec!["/home/alice/dots/sub", "/home/alice/dots", "/home/alice", "/home", "/", "/home/alice/.dotfiles"]
    );
    assert_eq!(root_candidates("/a", &None), vec!["/a", "/"]);
    let found = find_root(&c, &vec![false, true, false, false, false, true], &home());
    assert_eq!(found.ok(), Some("/home/alice/dots".to_string()));
    let none = find_root(&c, &vec![false; 6], &home());
    assert!(matches!(none, Err(DittoError::RootNotFound)));
    let c2 = root_candidates("/a", &None);
    assert!(matches!(find_root(&c2, &vec![false, false], &None), Err(DittoError::HomeNotSet)));
    assert_eq!(config_file("/home/alice/.dotfiles"), "/home/alice/.dotfiles/ditto.toml");
}

#[test]
fn error_messages() {
    assert_eq!(DittoError::HomeNotSet.message(), "Home directory not set.");
    assert_eq!(DittoError::RootNotFound.message(), "Could not find ditto.toml");
    assert_eq!(
        DittoError::NotInHome("/etc".to_string()).message(),
        "Path is not inside home directory: /etc"
    );
    assert_eq!(DittoError::FileNotFound("/x".to_string()).message(), "File not found: /x");
    assert_eq!(
        DittoError::FilesArrayMissing("shell".to_string()).message(),
        "Could not find files array for package 'shell'"
    );
    assert_eq!(
        DittoError::HookFailed { package: "p".to_string(), message: "boom".to_string() }.message(),
        "Hook failed for package 'p': boom"
    );
    assert_eq!(
        DittoError::BackupFailed { path: "/x".to_string(), message: "no".to_string() }.message(),
        "Backup failed for /x: no"
    );
    assert_eq!(DittoError::Io("disk".to_string()).message(), "disk");
    assert_eq!(DittoError::GitError("fetch".to_string()).message(), "Git command failed: fetch");
    assert_eq!(DittoError::CloneFailed.message(), "git clone failed");
    assert_eq!(DittoError::HookCommandFailed("false".to_string()).message(), "Hook failed: false");
    assert_eq!(DittoError::ConfigSyntax("bad".to_string()).message(), "bad");
    assert_eq!(DittoError::ConfigParse("bad".to_string()).message(), "Failed to parse config: bad");
    assert_eq!(DittoError::PackageNotFound("x".to_string()).message(), "Package not found: x");
    assert_eq!(DittoError::ConflictExists("/x".to_string()).message(), "File already exists and is not a symlink: /x");
    assert_eq!(DittoError::SourceNotFound("/x".to_string()).message(), "Symlink target does not exist: /x");
    assert_eq!(DittoError::NoFileName("/".to_string()).message(), "Could not determine filename for /");
    assert!(DittoError::ConfigNotFound.message().starts_with("Config file not found."));
}

#[test]
fn current_platform_names_supported_systems() {
    assert!(matches!(current_platform("macos"), Platform::MacOs));
    assert!(matches!(current_platform("linux"), Platform::Linux));
    assert!(Platform::from_os("windows").is_none());
}
