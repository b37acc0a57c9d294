//! Folders outside the known caches: how a folder's location is classified
//! and explained, user-defined scanners, and the records that folder scans
//! and cleanups report.
use vstd::prelude::*;
use crate::paths::{home_dir_string, join_path, path_join};
use crate::sizes::{one_decimal, rounded_tenths, tenths};
use crate::text::{
    chars_of, contains, contains_str, decimal, lower_chars, lower_of, push_decimal, push_str_chars, starts_with, starts_with_str, string_of, string_views,
};

verus! {

/// Where a folder lies, as far as cleaning it is concerned.
#[derive(Clone, Copy, Debug, PartialEq, Eq, Structural)]
pub enum LocationType {
    Cache,
    Log,
    Dev,
    AppSupport,
    Unknown,
}

/// The location type of a folder, from its lower-case path.
pub open spec fn location_of_lower(l: Seq<char>) -> LocationType {
    if contains(l, "deriveddata"@) || contains(l, "xcode"@) {
        LocationType::Dev
    } else if contains(l, "/logs"@) {
        LocationType::Log
    } else if contains(l, "caches"@) || contains(l, ".cache"@) || contains(l, ".npm"@) || contains(
        l,
        ".yarn"@,
    ) {
        LocationType::Cache
    } else if contains(l, "application support"@) {
        LocationType::AppSupport
    } else {
        LocationType::Unknown
    }
}

/// The location type of a folder, from its lower-case path.
pub fn location_of_lowercase(l: &str) -> (r: LocationType)
    ensures
        r == location_of_lower(l@),
{
    let c = chars_of(l);
    if contains_str(&c, "deriveddata") || contains_str(&c, "xcode") {
        LocationType::Dev
    } else if contains_str(&c, "/logs") {
        LocationType::Log
    } else if contains_str(&c, "caches") || contains_str(&c, ".cache") || contains_str(&c, ".npm")
        || contains_str(&c, ".yarn") {
        LocationType::Cache
    } else if contains_str(&c, "application support") {
        LocationType::AppSupport
    } else {
        LocationType::Unknown
    }
}

/// The location type of a folder from its path, in any case: development
/// caches (DerivedData, Xcode), logs, caches, application support, or unknown.
pub fn determine_location_type(path: &str) -> (r: LocationType)
    ensures
        r == location_of_lower(lower_of(path@)),
{
    let c = chars_of(path);
    let l = lower_chars(&c);
    let ls = string_of(&l);
    location_of_lowercase(ls.as_str())
}

/// What the reasons for suggesting a folder are made from.
#[derive(Clone, Debug)]
pub struct FolderFeatures {
    pub size_mb: u64,
    pub last_accessed_days: Option<u64>,
    pub location_type: LocationType,
}

/// The reasons for suggesting a folder: its size ("Large size: 2.0 GB" from
/// 1024 MB, else "Size: 500 MB"), how long it has not been accessed (from 30
/// days), and the kind of location it is in.
pub open spec fn folder_reasons(f: FolderFeatures) -> Seq<Seq<char>> {
    seq![
        if f.size_mb >= 1024 {
            "Large size: "@ + one_decimal(tenths(f.size_mb as nat, 1024)) + " GB"@
        } else {
            "Size: "@ + decimal(f.size_mb as nat) + " MB"@
        },
    ] + (match f.last_accessed_days {
        Some(d) if d >= 30 => seq!["Not accessed for "@ + decimal(d as nat) + " days"@],
        _ => Seq::empty(),
    }) + match f.location_type {
        LocationType::Cache => seq!["Cache directory"@],
        LocationType::Log => seq!["Log directory"@],
        LocationType::Dev => seq!["Development cache"@],
        _ => Seq::empty(),
    }
}

/// The reasons for suggesting a folder with the given features.
pub fn generate_reasons(features: &FolderFeatures) -> (r: Vec<String>)
    ensures
        string_views(r@) == folder_reasons(*features),
{
    let mut reasons: Vec<String> = Vec::new();
    let mut first: Vec<char> = Vec::new();
    if features.size_mb >= 1024 {
        push_str_chars(&mut first, "Large size: ");
        let t = rounded_tenths(features.size_mb, 1024);
        push_decimal(&mut first, t / 10);
        first.push('.');
        first.push(crate::text::digit_to_char(t % 10));
        push_str_chars(&mut first, " GB");
    } else {
        push_str_chars(&mut first, "Size: ");
        push_decimal(&mut first, features.size_mb);
        push_str_chars(&mut first, " MB");
    }
    reasons.push(string_of(&first));
    match features.last_accessed_days {
        Some(d) => {
            if d >= 30 {
                let mut m: Vec<char> = Vec::new();
                push_str_chars(&mut m, "Not accessed for ");
                push_decimal(&mut m, d);
                push_str_chars(&mut m, " days");
                reasons.push(string_of(&m));
            }
        },
        None => {},
    }
    match features.location_type {
        LocationType::Cache => reasons.push("Cache directory".to_owned()),
        LocationType::Log => reasons.push("Log directory".to_owned()),
        LocationType::Dev => reasons.push("Development cache".to_owned()),
        _ => {},
    }
    assert(string_views(reasons@) =~= folder_reasons(*features));
    reasons
}

/// Outcome of removing suggested folders.
#[derive(Clone, Debug)]
pub struct SmartSuggestionsCleanResult {
    pub total_freed_bytes: u64,
    pub items_removed: usize,
    pub success: bool,
    pub message: String,
}

/// When a folder was last used, in seconds since the Unix epoch.
#[derive(Clone, Debug)]
pub struct FolderAccessInfo {
    pub path: String,
    pub size_bytes: u64,
    pub last_accessed: Option<u64>,
    pub last_modified: Option<u64>,
    pub item_count: usize,
}

/// Whole days between the last access and `now_secs` (seconds since the
/// Unix epoch); none where the access time is unknown.
pub fn days_since_access(info: &FolderAccessInfo, now_secs: u64) -> (r: Option<u64>)
    requires
        info.last_accessed matches Some(a) ==> a <= now_secs,
    ensures
        r == match info.last_accessed {
            Some(a) => Some(((now_secs - a) / 86400) as u64),
            None => None::<u64>,
        },
{
    match info.last_accessed {
        Some(a) => Some((now_secs - a) / 86400),
        None => None,
    }
}

/// Whether the user has granted the access that scanning needs.
#[derive(Clone, Copy, Debug)]
pub struct PermissionStatus {
    pub full_disk_access: bool,
    pub home_accessible: bool,
}

/// What a scanner reports of the folder it watches.
#[derive(Clone, Debug)]
pub struct ScanResult {
    pub id: String,
    pub name: String,
    pub path: String,
    pub size_bytes: u64,
    pub item_count: usize,
    pub exists: bool,
}

/// Outcome of cleaning a scanner's folder.
#[derive(Clone, Debug)]
pub struct CleanResultGeneric {
    pub id: String,
    pub freed_bytes: u64,
    pub items_removed: usize,
    pub success: bool,
    pub message: String,
    pub dry_run: bool,
}

/// A user-defined scanner: an id, a display name and a folder ("~/" stands
/// for the home directory).
#[derive(Clone, Debug)]
pub struct CustomScannerConfig {
    pub id: String,
    pub name: String,
    pub path: String,
    pub min_size_mb: Option<u64>,
}

/// The configured scanners without those whose id is `id`, in order.
pub open spec fn without_id(s: Seq<CustomScannerConfig>, id: Seq<char>) -> Seq<CustomScannerConfig>
    decreases s.len(),
{
    if s.len() == 0 {
        Seq::empty()
    } else if s.last().id@ == id {
        without_id(s.drop_last(), id)
    } else {
        without_id(s.drop_last(), id).push(s.last())
    }
}

/// The application's settings: the user-defined scanners, at most one per id.
#[derive(Clone, Debug)]
pub struct AppConfig {
    pub custom_scanners: Vec<CustomScannerConfig>,
}

impl AppConfig {
    /// Settings with no scanner.
    pub fn new() -> (r: AppConfig)
        ensures
            r.custom_scanners@.len() == 0,
    {
        AppConfig { custom_scanners: Vec::new() }
    }

    fn drop_id(&mut self, id: &str)
        ensures
            final(self).custom_scanners@ == without_id(old(self).custom_scanners@, id@),
    {
        let ghost orig = self.custom_scanners@;
        let n = self.custom_scanners.len();
        let mut rev: Vec<CustomScannerConfig> = Vec::new();
        while self.custom_scanners.len() > 0
            invariant
                orig.len() == n,
                self.custom_scanners@ == orig.subrange(0, self.custom_scanners@.len() as int),
                rev@.len() + self.custom_scanners@.len() == n,
                forall|j: int| 0 <= j < rev@.len() ==> rev@[j] == orig[n - 1 - j],
            decreases self.custom_scanners@.len(),
        {
            let x = self.custom_scanners.pop().unwrap();
            rev.push(x);
        }
        let idc = chars_of(id);
        let mut kept: Vec<CustomScannerConfig> = Vec::new();
        let mut t: usize = 0;
        assert(kept@ =~= without_id(orig.subrange(0, 0), id@));
        while rev.len() > 0
            invariant
                orig.len() == n,
                idc@ == id@,
                rev@.len() + t == n,
                forall|j: int| 0 <= j < rev@.len() ==> rev@[j] == orig[n - 1 - j],
                kept@ == without_id(orig.subrange(0, t as int), id@),
            decreases rev@.len(),
        {
            let x = rev.pop().unwrap();
            assert(x == orig[t as int]);
            let ghost sub = orig.subrange(0, t + 1);
            assert(sub.drop_last() =~= orig.subrange(0, t as int));
            let xc = chars_of(x.id.as_str());
            if !crate::text::chars_eq(&xc, &idc) {
                kept.push(x);
            }
            t = t + 1;
        }
        assert(orig.subrange(0, n as int) =~= orig);
        self.custom_scanners = kept;
    }

    /// Adds a scanner, replacing any with the same id.
    pub fn add_scanner(&mut self, config: CustomScannerConfig)
        ensures
            final(self).custom_scanners@ == without_id(old(self).custom_scanners@, config.id@).push(
                config,
            ),
    {
        let id = config.id.clone();
        self.drop_id(id.as_str());
        self.custom_scanners.push(config);
    }

    /// Removes the scanners with id `id`; whether there was one.
    pub fn remove_scanner(&mut self, id: &str) -> (r: bool)
        ensures
            final(self).custom_scanners@ == without_id(old(self).custom_scanners@, id@),
            r == (final(self).custom_scanners@.len() < old(self).custom_scanners@.len()),
    {
        let before = self.custom_scanners.len();
        self.drop_id(id);
        self.custom_scanners.len() < before
    }
}

/// A scanner's folder with "~/" read as the home directory `home`.
pub open spec fn resolved_under(path: Seq<char>, home: Seq<char>) -> Seq<char> {
    if starts_with(path, "~/"@) {
        path_join(home, path.subrange(2, path.len() as int))
    } else {
        path
    }
}

/// A user-defined scanner with its folder resolved.
pub struct CustomScanner {
    config: CustomScannerConfig,
    resolved_path: String,
}

impl CustomScanner {
    /// The scanner's settings.
    pub closed spec fn settings(&self) -> CustomScannerConfig {
        self.config
    }

    /// The folder that the scanner watches.
    pub closed spec fn folder(&self) -> Seq<char> {
        self.resolved_path@
    }

    /// A scanner for `config`; an error where its folder starts with "~/" and
    /// no home directory is known.
    pub fn new(config: CustomScannerConfig) -> (r: Result<CustomScanner, String>)
        ensures
            r matches Ok(s) ==> (s.settings() == config && exists|h: Seq<char>|
                s.folder() == #[trigger] resolved_under(config.path@, h)),
            !starts_with(config.path@, "~/"@) ==> (r matches Ok(s) && s.folder() == config.path@),
            r is Err ==> starts_with(config.path@, "~/"@),
    {
        let p = chars_of(config.path.as_str());
        if starts_with_str(&p, "~/") {
            proof {
                reveal_strlit("~/");
            }
            match home_dir_string() {
                Some(h) => {
                    let mut rest: Vec<char> = Vec::new();
                    let mut i: usize = 2;
                    while i < p.len()
                        invariant
                            2 <= i <= p.len(),
                            rest@ == p@.subrange(2, i as int),
                        decreases p.len() - i,
                    {
                        rest.push(p[i]);
                        i = i + 1;
                        assert(rest@ =~= p@.subrange(2, i as int));
                    }
                    let rs = string_of(&rest);
                    let resolved = join_path(h.as_str(), rs.as_str());
                    assert(resolved@ == resolved_under(config.path@, h@));
                    Ok(CustomScanner { config, resolved_path: resolved })
                },
                None => Err("Cannot find home directory".to_owned()),
            }
        } else {
            let resolved = config.path.clone();
            assert(resolved@ == resolved_under(config.path@, Seq::empty()));
            Ok(CustomScanner { config, resolved_path: resolved })
        }
    }

    /// The scanner's settings.
    pub fn config(&self) -> (r: &CustomScannerConfig)
        ensures
            *r == self.settings(),
    {
        &self.config
    }

    /// The folder that the scanner watches.
    pub fn resolved_path(&self) -> (r: &String)
        ensures
            r@ == self.folder(),
    {
        &self.resolved_path
    }
}

} // verus!
