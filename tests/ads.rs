use cache_cleaner::ads::AdManager;
use cache_cleaner::monetization::{AdConfig, AdError, AdEventType};

fn manager() -> AdManager {
    let mut config = AdConfig::default();
    config.publisher_id = "pub-1".to_string();
    config.ad_unit_id = "unit-9".to_string();
    AdManager::new(config)
}

#[test]
fn request_ad_for_free_user() {
    let mut m = manager();
    let req = m.request_ad(false, 1_700_000_000, 42).unwrap();
    assert_eq!(req.ad_id, "ad_1700000000_42");
    assert_eq!(req.provider, "adsense");
    assert_eq!(req.format, "rewarded_video");
    assert_eq!(req.publisher_id, "pub-1");
    assert_eq!(req.ad_unit_id, "unit-9");
    assert_eq!(req.duration_seconds, 15);
    assert_eq!(m.active_ads().len(), 1);
    assert!(!m.active_ads()[0].completed);
    assert_eq!(m.events()[0].event_type, AdEventType::Requested);
    assert_eq!(m.ad_completed("ad_1700000000_42").unwrap(), false);
}

#[test]
fn premium_user_needs_no_ad() {
    let mut m = manager();
    assert!(matches!(m.request_ad(true, 5, 1), Err(AdError::NotRequired)));
    assert!(m.active_ads().is_empty());
    assert_eq!(m.events().len(), 1);
    assert_eq!(m.events()[0].event_type, AdEventType::Skipped);
}

#[test]
fn ad_lifecycle() {
    let mut m = manager();
    let id = m.request_ad(false, 100, 7).unwrap().ad_id;
    m.mark_ad_loaded(&id, 101).unwrap();
    m.mark_ad_started(&id, 102).unwrap();
    m.mark_ad_completed(&id, 117).unwrap();
    let ad = &m.active_ads()[0];
    assert!(ad.completed);
    assert_eq!(ad.load_start_time, Some(102));
    assert_eq!(ad.completion_time, Some(117));
    assert!(m.ad_completed(&id).unwrap());
    let kinds: Vec<AdEventType> = m.events().iter().map(|e| e.event_type).collect();
    assert_eq!(
        kinds,
        vec![AdEventType::Requested, AdEventType::Loaded, AdEventType::Started, AdEventType::Completed]
    );
    m.mark_ad_failed(&id, "network".to_string(), 120).unwrap();
    assert_eq!(m.events()[4].error.as_deref(), Some("network"));
}

#[test]
fn unknown_ad_is_an_error() {
    let mut m = manager();
    assert!(matches!(m.mark_ad_completed("nope", 1), Err(AdError::AdNotFound(ref id)) if id == "nope"));
    assert!(matches!(m.mark_ad_started("nope", 1), Err(AdError::AdNotFound(_))));
    assert!(matches!(m.mark_ad_loaded("nope", 1), Err(AdError::AdNotFound(_))));
    assert!(matches!(m.mark_ad_failed("nope", "x".to_string(), 1), Err(AdError::AdNotFound(_))));
    assert!(matches!(m.ad_completed("nope"), Err(AdError::AdNotFound(_))));
    assert!(m.events().is_empty());
}
