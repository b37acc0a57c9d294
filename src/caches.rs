//! The disk caches that the cleaner knows, what a scan reports of one, and
//! the decisions of cleaning one.
use vstd::prelude::*;
use crate::paths::{under_home, MacPaths};
use crate::text::{chars_eq_str, chars_of, lower_chars, lower_of, push_all, push_decimal, push_str_chars, string_of, decimal};

verus! {

/// A kind of cache.
#[derive(Clone, Copy, Debug, PartialEq, Eq, Structural)]
pub enum CacheType {
    Npm,
    Chrome,
    CacheDir,
    VSCode,
    Cursor,
    Safari,
    Firefox,
    Arc,
    Yarn,
    Pnpm,
    Pip,
    CocoaPods,
    Gradle,
    Cargo,
    XcodeDerivedData,
    XcodeArchives,
    XcodeSimulators,
    SystemCaches,
    UserLogs,
    TempFiles,
    IosBackups,
}

/// The cache type that a lower-case name stands for.
pub open spec fn cache_type_named(l: Seq<char>) -> Option<CacheType> {
    if l == "npm"@ {
        Some(CacheType::Npm)
    } else if l == "chrome"@ {
        Some(CacheType::Chrome)
    } else if l == "cache_dir"@ || l == "cachedir"@ {
        Some(CacheType::CacheDir)
    } else if l == "vscode"@ || l == "code"@ {
        Some(CacheType::VSCode)
    } else if l == "cursor"@ {
        Some(CacheType::Cursor)
    } else if l == "safari"@ {
        Some(CacheType::Safari)
    } else if l == "firefox"@ {
        Some(CacheType::Firefox)
    } else if l == "arc"@ {
        Some(CacheType::Arc)
    } else if l == "yarn"@ {
        Some(CacheType::Yarn)
    } else if l == "pnpm"@ {
        Some(CacheType::Pnpm)
    } else if l == "pip"@ {
        Some(CacheType::Pip)
    } else if l == "cocoapods"@ {
        Some(CacheType::CocoaPods)
    } else if l == "gradle"@ {
        Some(CacheType::Gradle)
    } else if l == "cargo"@ {
        Some(CacheType::Cargo)
    } else if l == "xcode_derived_data"@ || l == "xcodederiveddata"@ {
        Some(CacheType::XcodeDerivedData)
    } else if l == "xcode_archives"@ || l == "xcodearchives"@ {
        Some(CacheType::XcodeArchives)
    } else if l == "xcode_simulators"@ || l == "xcodesimulators"@ {
        Some(CacheType::XcodeSimulators)
    } else if l == "system_caches"@ || l == "systemcaches"@ {
        Some(CacheType::SystemCaches)
    } else if l == "user_logs"@ || l == "userlogs"@ {
        Some(CacheType::UserLogs)
    } else if l == "temp_files"@ || l == "tempfiles"@ || l == "tmp"@ {
        Some(CacheType::TempFiles)
    } else if l == "ios_backups"@ || l == "iosbackups"@ {
        Some(CacheType::IosBackups)
    } else {
        None
    }
}

impl CacheType {
    /// The cache type that a lower-case name stands for.
    pub fn from_lowercase(l: &str) -> (r: Option<CacheType>)
        ensures
            r == cache_type_named(l@),
    {
        let c = chars_of(l);
        if chars_eq_str(&c, "npm") {
            Some(CacheType::Npm)
        } else if chars_eq_str(&c, "chrome") {
            Some(CacheType::Chrome)
        } else if chars_eq_str(&c, "cache_dir") || chars_eq_str(&c, "cachedir") {
            Some(CacheType::CacheDir)
        } else if chars_eq_str(&c, "vscode") || chars_eq_str(&c, "code") {
            Some(CacheType::VSCode)
        } else if chars_eq_str(&c, "cursor") {
            Some(CacheType::Cursor)
        } else if chars_eq_str(&c, "safari") {
            Some(CacheType::Safari)
        } else if chars_eq_str(&c, "firefox") {
            Some(CacheType::Firefox)
        } else if chars_eq_str(&c, "arc") {
            Some(CacheType::Arc)
        } else if chars_eq_str(&c, "yarn") {
            Some(CacheType::Yarn)
        } else if chars_eq_str(&c, "pnpm") {
            Some(CacheType::Pnpm)
        } else if chars_eq_str(&c, "pip") {
            Some(CacheType::Pip)
        } else if chars_eq_str(&c, "cocoapods") {
            Some(CacheType::CocoaPods)
        } else if chars_eq_str(&c, "gradle") {
            Some(CacheType::Gradle)
        } else if chars_eq_str(&c, "cargo") {
            Some(CacheType::Cargo)
        } else if chars_eq_str(&c, "xcode_derived_data") || chars_eq_str(&c, "xcodederiveddata") {
            Some(CacheType::XcodeDerivedData)
        } else if chars_eq_str(&c, "xcode_archives") || chars_eq_str(&c, "xcodearchives") {
            Some(CacheType::XcodeArchives)
        } else if chars_eq_str(&c, "xcode_simulators") || chars_eq_str(&c, "xcodesimulators") {
            Some(CacheType::XcodeSimulators)
        } else if chars_eq_str(&c, "system_caches") || chars_eq_str(&c, "systemcaches") {
            Some(CacheType::SystemCaches)
        } else if chars_eq_str(&c, "user_logs") || chars_eq_str(&c, "userlogs") {
            Some(CacheType::UserLogs)
        } else if chars_eq_str(&c, "temp_files") || chars_eq_str(&c, "tempfiles") || chars_eq_str(&c, "tmp") {
            Some(CacheType::TempFiles)
        } else if chars_eq_str(&c, "ios_backups") || chars_eq_str(&c, "iosbackups") {
            Some(CacheType::IosBackups)
        } else {
            None
        }
    }

    /// The cache type that a name stands for, in any case; an error that
    /// names the text otherwise.
    pub fn from_str(s: &str) -> (r: Result<CacheType, String>)
        ensures
            r matches Ok(t) ==> cache_type_named(lower_of(s@)) == Some(t),
            r matches Err(m) ==> cache_type_named(lower_of(s@)) is None && m@
                == "Unknown cache type: "@ + s@,
    {
        let c = chars_of(s);
        let l = lower_chars(&c);
        let ls = string_of(&l);
        match CacheType::from_lowercase(ls.as_str()) {
            Some(t) => Ok(t),
            None => {
                let mut m: Vec<char> = Vec::new();
                push_str_chars(&mut m, "Unknown cache type: ");
                push_all(&mut m, &c);
                Err(string_of(&m))
            },
        }
    }
}

/// What a scan reports of one cache directory.
#[derive(Clone, Debug)]
pub struct CacheInfo {
    pub cache_type: CacheType,
    pub path: String,
    pub size: u64,
    pub exists: bool,
    pub item_count: usize,
}

/// Outcome of cleaning one cache directory.
#[derive(Clone, Debug)]
pub struct CleanResult {
    pub cache_type: CacheType,
    pub freed_bytes: u64,
    pub items_removed: usize,
    pub success: bool,
    pub message: String,
    pub dry_run: bool,
}

/// One IndexedDB store of a browser profile.
#[derive(Clone, Debug)]
pub struct IndexedDbItem {
    pub profile: String,
    pub origin: String,
    pub path: String,
    pub size: u64,
    pub over_threshold: bool,
}

/// Outcome of cleaning IndexedDB stores.
#[derive(Clone, Debug)]
pub struct IndexedDbCleanResult {
    pub total_freed_bytes: u64,
    pub items_removed: usize,
    pub dry_run: bool,
}

/// One cache directory above the large-cache threshold.
#[derive(Clone, Debug)]
pub struct LargeCacheEntry {
    pub name: String,
    pub path: String,
    pub size_bytes: u64,
}

/// Outcome of removing large caches.
#[derive(Clone, Debug)]
pub struct LargeCachesCleanResult {
    pub total_freed_bytes: u64,
    pub items_removed: usize,
    pub success: bool,
    pub message: String,
}

/// One npm cache directory.
#[derive(Clone, Debug)]
pub struct NpmCacheEntry {
    pub name: String,
    pub path: String,
    pub size_bytes: u64,
    pub relative_path: String,
}

/// Outcome of removing npm caches.
#[derive(Clone, Debug)]
pub struct NpmCachesCleanResult {
    pub total_freed_bytes: u64,
    pub items_removed: usize,
    pub success: bool,
    pub message: String,
}

/// Threshold above which a cache directory is large: 1 GiB.
pub const ONE_GB: u64 = 1073741824;

/// What measuring a directory found: that it is missing, its size and item
/// count, or why it could not be measured.
#[derive(Clone, Debug)]
pub enum Measurement {
    Missing,
    Measured(u64, usize),
    Failed(String),
}

/// What a scan reports of a directory: its measured size and item count when
/// it could be measured, else nothing and "does not exist".
pub open spec fn info_ok(info: CacheInfo, t: CacheType, path: Seq<char>, m: Measurement) -> bool {
    &&& info.cache_type == t
    &&& info.path@ == path
    &&& match m {
        Measurement::Measured(size, count) => info.size == size && info.item_count == count
            && info.exists,
        _ => info.size == 0 && info.item_count == 0 && !info.exists,
    }
}

/// The scan report of a cache directory at `path`.
pub fn cache_info(cache_type: CacheType, path: String, m: &Measurement) -> (r: CacheInfo)
    ensures
        info_ok(r, cache_type, path@, *m),
{
    let (size, item_count, exists) = match m {
        Measurement::Measured(s, c) => (*s, *c, true),
        _ => (0, 0, false),
    };
    CacheInfo { cache_type, path, size, exists, item_count }
}

/// The scan report of Safari's cache, from the measurement of `MacPaths::safari_cache`.
pub fn get_safari_cache_info(m: &Measurement) -> (r: CacheInfo)
    ensures
        under_home(r.path@, "Library/Caches/com.apple.Safari"@),
        info_ok(r, CacheType::Safari, r.path@, *m),
{
    cache_info(CacheType::Safari, MacPaths::safari_cache(), m)
}

/// The scan report of Firefox's profile caches.
pub fn get_firefox_cache_info(m: &Measurement) -> (r: CacheInfo)
    ensures
        under_home(r.path@, "Library/Caches/Firefox/Profiles"@),
        info_ok(r, CacheType::Firefox, r.path@, *m),
{
    cache_info(CacheType::Firefox, MacPaths::firefox_profiles(), m)
}

/// The scan report of Arc's cache.
pub fn get_arc_cache_info(m: &Measurement) -> (r: CacheInfo)
    ensures
        under_home(r.path@, "Library/Caches/company.thebrowser.Browser"@),
        info_ok(r, CacheType::Arc, r.path@, *m),
{
    cache_info(CacheType::Arc, MacPaths::arc_cache(), m)
}

/// The scan report of Yarn's cache.
pub fn get_yarn_cache_info(m: &Measurement) -> (r: CacheInfo)
    ensures
        under_home(r.path@, "Library/Caches/Yarn"@),
        info_ok(r, CacheType::Yarn, r.path@, *m),
{
    cache_info(CacheType::Yarn, MacPaths::yarn_cache(), m)
}

/// The scan report of pnpm's store.
pub fn get_pnpm_cache_info(m: &Measurement) -> (r: CacheInfo)
    ensures
        under_home(r.path@, "Library/pnpm/store"@),
        info_ok(r, CacheType::Pnpm, r.path@, *m),
{
    cache_info(CacheType::Pnpm, MacPaths::pnpm_cache(), m)
}

/// The scan report of pip's cache.
pub fn get_pip_cache_info(m: &Measurement) -> (r: CacheInfo)
    ensures
        under_home(r.path@, ".cache/pip"@),
        info_ok(r, CacheType::Pip, r.path@, *m),
{
    cache_info(CacheType::Pip, MacPaths::pip_cache(), m)
}

/// The scan report of CocoaPods' cache.
pub fn get_cocoapods_cache_info(m: &Measurement) -> (r: CacheInfo)
    ensures
        under_home(r.path@, "Library/Caches/CocoaPods"@),
        info_ok(r, CacheType::CocoaPods, r.path@, *m),
{
    cache_info(CacheType::CocoaPods, MacPaths::cocoapods_cache(), m)
}

/// The scan report of Gradle's caches.
pub fn get_gradle_cache_info(m: &Measurement) -> (r: CacheInfo)
    ensures
        under_home(r.path@, ".gradle/caches"@),
        info_ok(r, CacheType::Gradle, r.path@, *m),
{
    cache_info(CacheType::Gradle, MacPaths::gradle_cache(), m)
}

/// The scan report of Cargo's registry cache.
pub fn get_cargo_cache_info(m: &Measurement) -> (r: CacheInfo)
    ensures
        under_home(r.path@, ".cargo/registry"@),
        info_ok(r, CacheType::Cargo, r.path@, *m),
{
    cache_info(CacheType::Cargo, MacPaths::cargo_cache(), m)
}

/// The scan report of Xcode's DerivedData.
pub fn get_xcode_derived_data_info(m: &Measurement) -> (r: CacheInfo)
    ensures
        under_home(r.path@, "Library/Developer/Xcode/DerivedData"@),
        info_ok(r, CacheType::XcodeDerivedData, r.path@, *m),
{
    cache_info(CacheType::XcodeDerivedData, MacPaths::xcode_derived_data(), m)
}

/// The scan report of Xcode's archives.
pub fn get_xcode_archives_info(m: &Measurement) -> (r: CacheInfo)
    ensures
        under_home(r.path@, "Library/Developer/Xcode/Archives"@),
        info_ok(r, CacheType::XcodeArchives, r.path@, *m),
{
    cache_info(CacheType::XcodeArchives, MacPaths::xcode_archives(), m)
}

/// The scan report of the simulator devices.
pub fn get_xcode_simulators_info(m: &Measurement) -> (r: CacheInfo)
    ensures
        under_home(r.path@, "Library/Developer/CoreSimulator/Devices"@),
        info_ok(r, CacheType::XcodeSimulators, r.path@, *m),
{
    cache_info(CacheType::XcodeSimulators, MacPaths::xcode_simulators(), m)
}

pub open spec fn is_xcode(t: CacheType) -> bool {
    t == CacheType::XcodeDerivedData || t == CacheType::XcodeArchives || t
        == CacheType::XcodeSimulators
}

/// The directory of an Xcode cache; none for another cache type.
pub fn xcode_cache_path(cache_type: CacheType) -> (r: Option<String>)
    ensures
        r is Some == is_xcode(cache_type),
{
    match cache_type {
        CacheType::XcodeDerivedData => Some(MacPaths::xcode_derived_data()),
        CacheType::XcodeArchives => Some(MacPaths::xcode_archives()),
        CacheType::XcodeSimulators => Some(MacPaths::xcode_simulators()),
        _ => None,
    }
}

/// The next step of cleaning a cache directory: finished with a result, or
/// the directory is to be removed, which frees `size` bytes in `items` items.
#[derive(Debug)]
pub enum CleanStep {
    Done(CleanResult),
    Remove { size: u64, items: usize },
}

/// A clean result that removed nothing.
pub open spec fn removes_nothing(r: CleanResult, t: CacheType, dry_run: bool) -> bool {
    r.cache_type == t && r.freed_bytes == 0 && r.items_removed == 0 && r.dry_run == dry_run
}

fn result_with(
    cache_type: CacheType,
    freed_bytes: u64,
    items_removed: usize,
    success: bool,
    message: Vec<char>,
    dry_run: bool,
) -> (r: CleanResult)
    ensures
        r.cache_type == cache_type,
        r.freed_bytes == freed_bytes,
        r.items_removed == items_removed,
        r.success == success,
        r.message@ == message@,
        r.dry_run == dry_run,
{
    CleanResult {
        cache_type,
        freed_bytes,
        items_removed,
        success,
        message: string_of(&message),
        dry_run,
    }
}

fn text_chars(s: &str) -> (r: Vec<char>)
    ensures
        r@ == s@,
{
    chars_of(s)
}

/// Decides how to clean an Xcode cache, given the measurement of its
/// directory: a cache type of another kind fails; a missing directory
/// succeeds with nothing to do; a failed measurement fails; a dry run reports
/// what would be freed; otherwise the directory is to be removed.
pub fn clean_xcode_cache(cache_type: CacheType, dry_run: bool, m: &Measurement) -> (r: CleanStep)
    ensures
        !is_xcode(cache_type) ==> (r matches CleanStep::Done(c) && removes_nothing(
            c,
            cache_type,
            dry_run,
        ) && !c.success && c.message@ == "Invalid Xcode cache type"@),
        is_xcode(cache_type) && m is Missing ==> (r matches CleanStep::Done(c) && removes_nothing(
            c,
            cache_type,
            dry_run,
        ) && c.success && c.message@ == "Cache directory does not exist"@),
        is_xcode(cache_type) && m is Failed ==> (r matches CleanStep::Done(c) && removes_nothing(
            c,
            cache_type,
            dry_run,
        ) && !c.success && c.message@ == "Failed to calculate size: "@ + m->Failed_0@),
        is_xcode(cache_type) && dry_run && m is Measured ==> (r matches CleanStep::Done(c)
            && c.cache_type == cache_type && c.freed_bytes == m->Measured_0 && c.items_removed
            == m->Measured_1 && c.success && c.dry_run && c.message@ == "Would clean "@ + decimal(
            m->Measured_1 as nat,
        ) + " items ("@ + decimal(m->Measured_0 as nat) + " bytes)"@),
        is_xcode(cache_type) && !dry_run && m is Measured ==> r == (CleanStep::Remove {
            size: m->Measured_0,
            items: m->Measured_1,
        }),

{
    if !(cache_type == CacheType::XcodeDerivedData || cache_type == CacheType::XcodeArchives
        || cache_type == CacheType::XcodeSimulators) {
        return CleanStep::Done(
            result_with(cache_type, 0, 0, false, text_chars("Invalid Xcode cache type"), dry_run),
        );
    }
    match m {
        Measurement::Missing => CleanStep::Done(
            result_with(cache_type, 0, 0, true, text_chars("Cache directory does not exist"), dry_run),
        ),
        Measurement::Failed(e) => {
            let mut msg = text_chars("Failed to calculate size: ");
            push_str_chars(&mut msg, e.as_str());
            CleanStep::Done(result_with(cache_type, 0, 0, false, msg, dry_run))
        },
        Measurement::Measured(size, items) => {
            if dry_run {
                let mut msg = text_chars("Would clean ");
                push_decimal(&mut msg, *items as u64);
                push_str_chars(&mut msg, " items (");
                push_decimal(&mut msg, *size);
                push_str_chars(&mut msg, " bytes)");
                CleanStep::Done(result_with(cache_type, *size, *items, true, msg, dry_run))
            } else {
                CleanStep::Remove { size: *size, items: *items }
            }
        },
    }
}

/// The name of an Xcode cache in messages.
pub open spec fn xcode_label(t: CacheType) -> Seq<char> {
    if t == CacheType::XcodeDerivedData {
        "DerivedData"@
    } else if t == CacheType::XcodeArchives {
        "Archives"@
    } else {
        "Simulators"@
    }
}

/// The result of removing an Xcode cache directory that held `size` bytes in
/// `items` items: all of it freed when the removal succeeded, nothing when it
/// failed.
pub fn xcode_clean_finished(
    cache_type: CacheType,
    dry_run: bool,
    size: u64,
    items: usize,
    removal: Result<(), String>,
) -> (r: CleanResult)
    requires
        is_xcode(cache_type),
    ensures
        r.cache_type == cache_type,
        r.dry_run == dry_run,
        r.success == removal is Ok,
        removal is Ok ==> r.freed_bytes == size && r.items_removed == items && r.message@
            == "Successfully cleaned Xcode "@ + xcode_label(cache_type),
        removal is Err ==> r.freed_bytes == 0 && r.items_removed == 0 && r.message@
            == "Failed to clean "@ + xcode_label(cache_type) + ": "@ + removal->Err_0@,
{
    let label: &str = if cache_type == CacheType::XcodeDerivedData {
        "DerivedData"
    } else if cache_type == CacheType::XcodeArchives {
        "Archives"
    } else {
        "Simulators"
    };
    match removal {
        Ok(()) => {
            let mut msg = text_chars("Successfully cleaned Xcode ");
            push_str_chars(&mut msg, label);
            result_with(cache_type, size, items, true, msg, dry_run)
        },
        Err(e) => {
            let mut msg = text_chars("Failed to clean ");
            push_str_chars(&mut msg, label);
            push_str_chars(&mut msg, ": ");
            push_str_chars(&mut msg, e.as_str());
            result_with(cache_type, 0, 0, false, msg, dry_run)
        },
    }
}

} // verus!
