use cache_cleaner::paths::{join_path, MacPaths};

#[test]
fn test_home_returns_valid_path() {
    let home = MacPaths::home();
    assert!(!home.is_empty());
}

#[test]
fn test_browser_cache_paths() {
    let chrome = MacPaths::chrome_cache();
    assert!(chrome.contains("Library/Caches/Google/Chrome"));

    let safari = MacPaths::safari_cache();
    assert!(safari.contains("com.apple.Safari"));

    let firefox = MacPaths::firefox_profiles();
    assert!(firefox.contains("Firefox"));

    let arc = MacPaths::arc_cache();
    assert!(arc.contains("company.thebrowser.Browser"));
}

#[test]
fn test_package_manager_paths() {
    let npm = MacPaths::npm_cache();
    assert!(npm.contains(".npm"));

    let yarn = MacPaths::yarn_cache();
    assert!(yarn.contains("Yarn"));

    let pip = MacPaths::pip_cache();
    assert!(pip.contains("pip"));

    let cargo = MacPaths::cargo_cache();
    assert!(cargo.contains(".cargo"));
}

#[test]
fn test_xcode_paths() {
    let derived = MacPaths::xcode_derived_data();
    assert!(derived.contains("DerivedData"));

    let archives = MacPaths::xcode_archives();
    assert!(archives.contains("Archives"));

    let simulators = MacPaths::xcode_simulators();
    assert!(simulators.contains("CoreSimulator"));
}

#[test]
fn test_system_paths() {
    let tmp = MacPaths::tmp();
    assert_eq!(tmp, "/tmp");

    let system_caches = MacPaths::system_caches();
    assert_eq!(system_caches, "/Library/Caches");

    let system_logs = MacPaths::system_logs();
    assert_eq!(system_logs, "/var/log");
}

#[test]
fn test_is_system_path() {
    assert!(MacPaths::is_system_path("/System/Library"));
    assert!(MacPaths::is_system_path("/usr/bin"));
    assert!(MacPaths::is_system_path("/bin/bash"));
    assert!(MacPaths::is_system_path("/private/var/db/test"));

    assert!(!MacPaths::is_system_path("/Users/test"));
    assert!(!MacPaths::is_system_path("/Applications"));
    assert!(!MacPaths::is_system_path("/tmp"));
}

#[test]
fn test_all_cache_paths_not_empty() {
    let paths = MacPaths::all_cache_paths();
    assert!(!paths.is_empty());
    assert!(paths.len() >= 10);

    for (name, path) in &paths {
        assert!(!name.is_empty());
        assert!(!path.is_empty());
    }
}

#[test]
fn test_user_directories() {
    let trash = MacPaths::trash();
    assert!(trash.contains(".Trash"));

    let downloads = MacPaths::downloads();
    assert!(downloads.contains("Downloads"));

    let documents = MacPaths::documents();
    assert!(documents.contains("Documents"));
}

#[test]
fn test_ios_paths() {
    let backups = MacPaths::ios_backups();
    assert!(backups.contains("MobileSync/Backup"));
}

#[test]
fn joins_with_one_separator() {
    assert_eq!(join_path("/Users/me", ".npm"), "/Users/me/.npm");
    assert_eq!(join_path("/", "tmp"), "/tmp");
    assert_eq!(join_path("", "a/b"), "a/b");
    assert_eq!(MacPaths::applications(), "/Applications");
    assert_eq!(MacPaths::var_folders(), "/private/var/folders");
    assert!(MacPaths::cache_dir().ends_with("/.cache"));
    assert!(MacPaths::mail_downloads().ends_with("Mail Downloads"));
}
