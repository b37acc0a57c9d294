use cache_cleaner::caches::{
    clean_xcode_cache, get_safari_cache_info, get_yarn_cache_info, xcode_cache_path,
    xcode_clean_finished, CacheType, CleanStep, LargeCacheEntry, Measurement, ONE_GB,
};
use cache_cleaner::folders::{
    days_since_access, determine_location_type, generate_reasons, AppConfig, CustomScanner,
    CustomScannerConfig, FolderAccessInfo, FolderFeatures, LocationType,
};

#[test]
fn test_one_gb_constant() {
    assert_eq!(ONE_GB, 1_073_741_824);
    assert_eq!(ONE_GB, 1024 * 1024 * 1024);
}

#[test]
fn test_large_cache_entry_sorting() {
    let mut entries = vec![
        LargeCacheEntry { name: "small".to_string(), path: "/small".to_string(), size_bytes: 1_000_000 },
        LargeCacheEntry { name: "large".to_string(), path: "/large".to_string(), size_bytes: 5_000_000_000 },
        LargeCacheEntry { name: "medium".to_string(), path: "/medium".to_string(), size_bytes: 2_000_000_000 },
    ];

    entries.sort_by(|a, b| b.size_bytes.cmp(&a.size_bytes));

    assert_eq!(entries[0].name, "large");
    assert_eq!(entries[1].name, "medium");
    assert_eq!(entries[2].name, "small");
}

#[test]
fn test_location_type_cache() {
    assert_eq!(determine_location_type("/Library/Caches/app"), LocationType::Cache);
    assert_eq!(determine_location_type("~/.cache/test"), LocationType::Cache);
    assert_eq!(determine_location_type("~/.npm"), LocationType::Cache);
}

#[test]
fn test_location_type_log() {
    assert_eq!(determine_location_type("/Library/Logs/app"), LocationType::Log);
}

#[test]
fn test_location_type_dev() {
    assert_eq!(determine_location_type("/Library/Developer/Xcode/DerivedData"), LocationType::Dev);
}

#[test]
fn location_type_other_kinds() {
    assert_eq!(determine_location_type("/Users/me/Library/Application Support/App"), LocationType::AppSupport);
    assert_eq!(determine_location_type("/Users/me/Music"), LocationType::Unknown);
}

#[test]
fn test_generate_reasons_large_size() {
    let features = FolderFeatures { size_mb: 2048, last_accessed_days: None, location_type: LocationType::Unknown };
    let reasons = generate_reasons(&features);
    assert!(reasons.iter().any(|r| r.contains("GB")));
}

#[test]
fn test_generate_reasons_small_size() {
    let features = FolderFeatures { size_mb: 500, last_accessed_days: None, location_type: LocationType::Unknown };
    let reasons = generate_reasons(&features);
    assert!(reasons.iter().any(|r| r.contains("MB")));
}

#[test]
fn test_generate_reasons_age() {
    let features = FolderFeatures { size_mb: 100, last_accessed_days: Some(90), location_type: LocationType::Unknown };
    let reasons = generate_reasons(&features);
    assert!(reasons.iter().any(|r| r.contains("Not accessed")));
}

#[test]
fn test_generate_reasons_location() {
    let features = FolderFeatures { size_mb: 100, last_accessed_days: None, location_type: LocationType::Cache };
    let reasons = generate_reasons(&features);
    assert!(reasons.iter().any(|r| r.contains("Cache")));
}

#[test]
fn reasons_exact_text() {
    let features = FolderFeatures { size_mb: 1536, last_accessed_days: Some(45), location_type: LocationType::Dev };
    assert_eq!(
        generate_reasons(&features),
        vec!["Large size: 1.5 GB".to_string(), "Not accessed for 45 days".to_string(), "Development cache".to_string()]
    );
    let features = FolderFeatures { size_mb: 10, last_accessed_days: Some(29), location_type: LocationType::Log };
    assert_eq!(generate_reasons(&features), vec!["Size: 10 MB".to_string(), "Log directory".to_string()]);
}

#[test]
fn days_since_last_access() {
    let mut info = FolderAccessInfo {
        path: "/x".to_string(),
        size_bytes: 0,
        last_accessed: Some(1_000),
        last_modified: None,
        item_count: 0,
    };
    assert_eq!(days_since_access(&info, 1_000 + 3 * 86_400 + 5), Some(3));
    info.last_accessed = None;
    assert_eq!(days_since_access(&info, 5), None);
}

fn scanner(id: &str, path: &str) -> CustomScannerConfig {
    CustomScannerConfig { id: id.to_string(), name: format!("{} scanner", id), path: path.to_string(), min_size_mb: None }
}

#[test]
fn scanners_are_unique_by_id() {
    let mut config = AppConfig::new();
    config.add_scanner(scanner("a", "/a"));
    config.add_scanner(scanner("b", "/b"));
    config.add_scanner(scanner("a", "/a2"));
    let ids: Vec<&str> = config.custom_scanners.iter().map(|s| s.id.as_str()).collect();
    assert_eq!(ids, vec!["b", "a"]);
    assert_eq!(config.custom_scanners[1].path, "/a2");
    assert!(config.remove_scanner("b"));
    assert!(!config.remove_scanner("b"));
    assert_eq!(config.custom_scanners.len(), 1);
}

#[test]
fn custom_scanner_resolves_home() {
    let s = CustomScanner::new(scanner("x", "/data/cache")).unwrap();
    assert_eq!(s.resolved_path(), "/data/cache");
    assert_eq!(s.config().id, "x");
    let s = CustomScanner::new(scanner("y", "~/stuff")).unwrap();
    assert!(s.resolved_path().ends_with("/stuff"));
    assert!(!s.resolved_path().starts_with("~"));
}

#[test]
fn cache_type_names() {
    assert!(matches!(CacheType::from_str("NPM"), Ok(CacheType::Npm)));
    assert!(matches!(CacheType::from_str("code"), Ok(CacheType::VSCode)));
    assert!(matches!(CacheType::from_str("tmp"), Ok(CacheType::TempFiles)));
    assert!(matches!(CacheType::from_str("XcodeDerivedData"), Ok(CacheType::XcodeDerivedData)));
    match CacheType::from_str("Nope") {
        Err(m) => assert_eq!(m, "Unknown cache type: Nope"),
        Ok(_) => panic!("expected an error"),
    }
}

#[test]
fn cache_info_from_measurement() {
    let info = get_safari_cache_info(&Measurement::Measured(10, 2));
    assert!(info.path.ends_with("Library/Caches/com.apple.Safari"));
    assert_eq!((info.size, info.item_count, info.exists), (10, 2, true));
    let info = get_yarn_cache_info(&Measurement::Failed("denied".to_string()));
    assert_eq!((info.size, info.item_count, info.exists), (0, 0, false));
}

#[test]
fn xcode_clean_decisions() {
    assert!(xcode_cache_path(CacheType::Npm).is_none());
    match clean_xcode_cache(CacheType::Npm, false, &Measurement::Missing) {
        CleanStep::Done(r) => {
            assert!(!r.success);
            assert_eq!(r.message, "Invalid Xcode cache type");
        }
        _ => panic!("expected a result"),
    }
    match clean_xcode_cache(CacheType::XcodeArchives, false, &Measurement::Missing) {
        CleanStep::Done(r) => assert!(r.success),
        _ => panic!("expected a result"),
    }
    match clean_xcode_cache(CacheType::XcodeArchives, true, &Measurement::Measured(2048, 3)) {
        CleanStep::Done(r) => {
            assert_eq!(r.message, "Would clean 3 items (2048 bytes)");
            assert_eq!(r.freed_bytes, 2048);
        }
        _ => panic!("expected a result"),
    }
    match clean_xcode_cache(CacheType::XcodeSimulators, false, &Measurement::Measured(7, 1)) {
        CleanStep::Remove { size, items } => assert_eq!((size, items), (7, 1)),
        _ => panic!("expected a removal"),
    }
    let r = xcode_clean_finished(CacheType::XcodeDerivedData, false, 7, 1, Ok(()));
    assert_eq!(r.message, "Successfully cleaned Xcode DerivedData");
    assert_eq!(r.freed_bytes, 7);
    let r = xcode_clean_finished(CacheType::XcodeSimulators, false, 7, 1, Err("busy".to_string()));
    assert_eq!(r.message, "Failed to clean Simulators: busy");
    assert_eq!(r.freed_bytes, 0);
}
