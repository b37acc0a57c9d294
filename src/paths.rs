//! Locations of the caches and user folders that the cleaner knows, under
//! the user's home directory or at fixed system paths.
use vstd::prelude::*;
use crate::text::{chars_of, push_all, push_str_chars, starts_with, starts_with_str, string_of};

verus! {

/// `rel` appended to `base` with one separator, as `Path::join` does for a
/// relative `rel`.
pub open spec fn path_join(base: Seq<char>, rel: Seq<char>) -> Seq<char> {
    if base.len() == 0 || base.last() == '/' {
        base + rel
    } else {
        base + seq!['/'] + rel
    }
}

/// `p` is `rel` under some home directory.
pub open spec fn under_home(p: Seq<char>, rel: Seq<char>) -> bool {
    exists|h: Seq<char>| p == #[trigger] path_join(h, rel)
}

/// `rel` appended to `base` with one separator.
pub fn join_path(base: &str, rel: &str) -> (r: String)
    ensures
        r@ == path_join(base@, rel@),
{
    let b = chars_of(base);
    let mut out: Vec<char> = Vec::new();
    push_all(&mut out, &b);
    if b.len() > 0 && b[b.len() - 1] != '/' {
        out.push('/');
    }
    push_str_chars(&mut out, rel);
    assert(out@ =~= path_join(base@, rel@));
    string_of(&out)
}

/// Relies on `dirs::home_dir`: the user's home directory, where the platform
/// gives one. Nothing is assumed of its value.
#[verifier::external_body]
pub(crate) fn home_dir_string() -> (r: Option<String>) {
    match dirs::home_dir() {
        Some(p) => Some(p.to_string_lossy().into_owned()),
        None => None,
    }
}

/// Paths of the cleaner's well-known locations.
pub struct MacPaths;

impl MacPaths {
    /// The user's home directory, or "/" where none is known.
    pub fn home() -> (r: String) {
        match home_dir_string() {
            Some(h) => h,
            None => "/".to_owned(),
        }
    }

    fn under_home(rel: &str) -> (r: String)
        ensures
            under_home(r@, rel@),
    {
        let h = MacPaths::home();
        let r = join_path(h.as_str(), rel);
        assert(r@ == path_join(h@, rel@));
        r
    }

    /// Chrome's cache.
    pub fn chrome_cache() -> (r: String)
        ensures
            under_home(r@, "Library/Caches/Google/Chrome"@),
    {
        MacPaths::under_home("Library/Caches/Google/Chrome")
    }

    /// The cache of Chrome's default profile.
    pub fn chrome_default_cache() -> (r: String)
        ensures
            under_home(r@, "Library/Caches/Google/Chrome/Default/Cache"@),
    {
        MacPaths::under_home("Library/Caches/Google/Chrome/Default/Cache")
    }

    /// Safari's cache.
    pub fn safari_cache() -> (r: String)
        ensures
            under_home(r@, "Library/Caches/com.apple.Safari"@),
    {
        MacPaths::under_home("Library/Caches/com.apple.Safari")
    }

    /// Firefox's profile caches.
    pub fn firefox_profiles() -> (r: String)
        ensures
            under_home(r@, "Library/Caches/Firefox/Profiles"@),
    {
        MacPaths::under_home("Library/Caches/Firefox/Profiles")
    }

    /// Arc's cache.
    pub fn arc_cache() -> (r: String)
        ensures
            under_home(r@, "Library/Caches/company.thebrowser.Browser"@),
    {
        MacPaths::under_home("Library/Caches/company.thebrowser.Browser")
    }

    /// npm's content cache.
    pub fn npm_cache() -> (r: String)
        ensures
            under_home(r@, ".npm/_cacache"@),
    {
        MacPaths::under_home(".npm/_cacache")
    }

    /// Yarn's cache.
    pub fn yarn_cache() -> (r: String)
        ensures
            under_home(r@, "Library/Caches/Yarn"@),
    {
        MacPaths::under_home("Library/Caches/Yarn")
    }

    /// pnpm's store.
    pub fn pnpm_cache() -> (r: String)
        ensures
            under_home(r@, "Library/pnpm/store"@),
    {
        MacPaths::under_home("Library/pnpm/store")
    }

    /// pip's cache.
    pub fn pip_cache() -> (r: String)
        ensures
            under_home(r@, ".cache/pip"@),
    {
        MacPaths::under_home(".cache/pip")
    }

    /// CocoaPods' cache.
    pub fn cocoapods_cache() -> (r: String)
        ensures
            under_home(r@, "Library/Caches/CocoaPods"@),
    {
        MacPaths::under_home("Library/Caches/CocoaPods")
    }

    /// Gradle's caches.
    pub fn gradle_cache() -> (r: String)
        ensures
            under_home(r@, ".gradle/caches"@),
    {
        MacPaths::under_home(".gradle/caches")
    }

    /// Cargo's registry cache.
    pub fn cargo_cache() -> (r: String)
        ensures
            under_home(r@, ".cargo/registry"@),
    {
        MacPaths::under_home(".cargo/registry")
    }

    /// Xcode's DerivedData.
    pub fn xcode_derived_data() -> (r: String)
        ensures
            under_home(r@, "Library/Developer/Xcode/DerivedData"@),
    {
        MacPaths::under_home("Library/Developer/Xcode/DerivedData")
    }

    /// Xcode's archives.
    pub fn xcode_archives() -> (r: String)
        ensures
            under_home(r@, "Library/Developer/Xcode/Archives"@),
    {
        MacPaths::under_home("Library/Developer/Xcode/Archives")
    }

    /// The simulator devices.
    pub fn xcode_simulators() -> (r: String)
        ensures
            under_home(r@, "Library/Developer/CoreSimulator/Devices"@),
    {
        MacPaths::under_home("Library/Developer/CoreSimulator/Devices")
    }

    /// The user's caches.
    pub fn user_caches() -> (r: String)
        ensures
            under_home(r@, "Library/Caches"@),
    {
        MacPaths::under_home("Library/Caches")
    }

    /// The user's logs.
    pub fn user_logs() -> (r: String)
        ensures
            under_home(r@, "Library/Logs"@),
    {
        MacPaths::under_home("Library/Logs")
    }

    /// The user's trash.
    pub fn trash() -> (r: String)
        ensures
            under_home(r@, ".Trash"@),
    {
        MacPaths::under_home(".Trash")
    }

    /// The downloads folder.
    pub fn downloads() -> (r: String)
        ensures
            under_home(r@, "Downloads"@),
    {
        MacPaths::under_home("Downloads")
    }

    /// The documents folder.
    pub fn documents() -> (r: String)
        ensures
            under_home(r@, "Documents"@),
    {
        MacPaths::under_home("Documents")
    }

    /// iOS device backups.
    pub fn ios_backups() -> (r: String)
        ensures
            under_home(r@, "Library/Application Support/MobileSync/Backup"@),
    {
        MacPaths::under_home("Library/Application Support/MobileSync/Backup")
    }

    /// Mail's downloads.
    pub fn mail_downloads() -> (r: String)
        ensures
            under_home(r@, "Library/Containers/com.apple.mail/Data/Library/Mail Downloads"@),
    {
        MacPaths::under_home("Library/Containers/com.apple.mail/Data/Library/Mail Downloads")
    }

    /// The generic cache directory.
    pub fn cache_dir() -> (r: String)
        ensures
            under_home(r@, ".cache"@),
    {
        MacPaths::under_home(".cache")
    }

    /// The system caches.
    pub fn system_caches() -> (r: String)
        ensures
            r@ == "/Library/Caches"@,
    {
        "/Library/Caches".to_owned()
    }

    /// The system logs.
    pub fn system_logs() -> (r: String)
        ensures
            r@ == "/var/log"@,
    {
        "/var/log".to_owned()
    }

    /// The temporary directory.
    pub fn tmp() -> (r: String)
        ensures
            r@ == "/tmp"@,
    {
        "/tmp".to_owned()
    }

    /// The per-user temporary folders.
    pub fn var_folders() -> (r: String)
        ensures
            r@ == "/private/var/folders"@,
    {
        "/private/var/folders".to_owned()
    }

    /// The applications folder.
    pub fn applications() -> (r: String)
        ensures
            r@ == "/Applications"@,
    {
        "/Applications".to_owned()
    }

    /// Whether `path` lies in a protected system location: it begins with
    /// /System, /usr, /bin, /sbin, /private/var/db or /private/var/root.
    pub fn is_system_path(path: &str) -> (r: bool)
        ensures
            r == is_system_path_spec(path@),
    {
        let p = chars_of(path);
        starts_with_str(&p, "/System") || starts_with_str(&p, "/usr") || starts_with_str(&p, "/bin")
            || starts_with_str(&p, "/sbin") || starts_with_str(&p, "/private/var/db")
            || starts_with_str(&p, "/private/var/root")
    }

    /// The named cache locations that a full scan covers.
    pub fn all_cache_paths() -> (r: Vec<(String, String)>)
        ensures
            r@.len() == 16,
            forall|k: int| 0 <= k < 16 ==> (#[trigger] r@[k]).0@ == cache_names()[k],
            forall|k: int| 0 <= k < 16 ==> under_home((#[trigger] r@[k]).1@, cache_locations()[k]),
    {
        let mut v: Vec<(String, String)> = Vec::new();
        v.push(("Chrome Cache".to_owned(), MacPaths::chrome_cache()));
        v.push(("Safari Cache".to_owned(), MacPaths::safari_cache()));
        v.push(("Firefox Profiles".to_owned(), MacPaths::firefox_profiles()));
        v.push(("Arc Cache".to_owned(), MacPaths::arc_cache()));
        v.push(("npm Cache".to_owned(), MacPaths::npm_cache()));
        v.push(("Yarn Cache".to_owned(), MacPaths::yarn_cache()));
        v.push(("pnpm Cache".to_owned(), MacPaths::pnpm_cache()));
        v.push(("pip Cache".to_owned(), MacPaths::pip_cache()));
        v.push(("CocoaPods Cache".to_owned(), MacPaths::cocoapods_cache()));
        v.push(("Gradle Cache".to_owned(), MacPaths::gradle_cache()));
        v.push(("Cargo Cache".to_owned(), MacPaths::cargo_cache()));
        v.push(("Xcode DerivedData".to_owned(), MacPaths::xcode_derived_data()));
        v.push(("Xcode Archives".to_owned(), MacPaths::xcode_archives()));
        v.push(("Xcode Simulators".to_owned(), MacPaths::xcode_simulators()));
        v.push(("User Caches".to_owned(), MacPaths::user_caches()));
        v.push(("Cache Directory".to_owned(), MacPaths::cache_dir()));
        assert(v@.len() == 16);
        v
    }
}

/// A path in a protected system location.
pub open spec fn is_system_path_spec(p: Seq<char>) -> bool {
    starts_with(p, "/System"@) || starts_with(p, "/usr"@) || starts_with(p, "/bin"@) || starts_with(
        p,
        "/sbin"@,
    ) || starts_with(p, "/private/var/db"@) || starts_with(p, "/private/var/root"@)
}

/// The names of the locations that a full scan covers.
pub open spec fn cache_names() -> Seq<Seq<char>> {
    seq![
        "Chrome Cache"@,
        "Safari Cache"@,
        "Firefox Profiles"@,
        "Arc Cache"@,
        "npm Cache"@,
        "Yarn Cache"@,
        "pnpm Cache"@,
        "pip Cache"@,
        "CocoaPods Cache"@,
        "Gradle Cache"@,
        "Cargo Cache"@,
        "Xcode DerivedData"@,
        "Xcode Archives"@,
        "Xcode Simulators"@,
        "User Caches"@,
        "Cache Directory"@,
    ]
}

/// The locations, relative to the home directory, that a full scan covers.
pub open spec fn cache_locations() -> Seq<Seq<char>> {
    seq![
        "Library/Caches/Google/Chrome"@,
        "Library/Caches/com.apple.Safari"@,
        "Library/Caches/Firefox/Profiles"@,
        "Library/Caches/company.thebrowser.Browser"@,
        ".npm/_cacache"@,
        "Library/Caches/Yarn"@,
        "Library/pnpm/store"@,
        ".cache/pip"@,
        "Library/Caches/CocoaPods"@,
        ".gradle/caches"@,
        ".cargo/registry"@,
        "Library/Developer/Xcode/DerivedData"@,
        "Library/Developer/Xcode/Archives"@,
        "Library/Developer/CoreSimulator/Devices"@,
        "Library/Caches"@,
        ".cache"@,
    ]
}

} // verus!
