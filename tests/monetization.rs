use cache_cleaner::monetization::{
    AdConfig, AdError, ErrorSeverity, MonetizationError, PaddleConfig, PaymentError,
    PaymentManagerError, PremiumServiceError, PremiumStorage, RetryConfig, StorageError,
};

#[test]
fn test_retry_config_default() {
    let config = RetryConfig::default();
    assert_eq!(config.max_retries, 3);
    assert_eq!(config.initial_delay_ms, 1000);
    assert!(config.exponential_backoff);
}

#[test]
fn test_api_base_url() {
    let mut config = PaddleConfig {
        api_key: "test".to_string(),
        vendor_id: "test".to_string(),
        product_id: "test".to_string(),
        test_mode: true,
        webhook_key: None,
    };

    assert_eq!(config.api_base_url(), "https://sandbox-api.paddle.com");

    config.test_mode = false;
    assert_eq!(config.api_base_url(), "https://api.paddle.com");
}

#[test]
fn test_storage_creation() {
    let storage = PremiumStorage::new("/tmp/premium_status.json".to_string(), vec![0u8; 32]).unwrap();
    assert_eq!(storage.storage_path(), "/tmp/premium_status.json");
}

#[test]
fn test_invalid_key_length() {
    let result = PremiumStorage::new("/tmp/premium_status.json".to_string(), vec![0u8; 16]);
    assert!(result.is_err());
    assert!(matches!(result, Err(StorageError::KeyGeneration(_))));
}

#[test]
fn test_default_storage_path() {
    let path = PremiumStorage::default_storage_path().unwrap();
    assert!(path.contains(".cache-cleaner"));
    assert!(path.ends_with("premium_status.json"));
}

#[test]
fn default_storage_uses_a_device_key() {
    let storage = PremiumStorage::with_default_path().unwrap();
    assert!(storage.storage_path().ends_with(".cache-cleaner/premium_status.json"));
}

#[test]
fn ad_config_defaults() {
    let c = AdConfig::default();
    assert_eq!(c.duration_seconds, 15);
    assert_eq!(c.max_retries, 3);
    assert_eq!(c.retry_delay_ms, 1000);
    assert_eq!(c.completion_timeout_seconds, 30);
    assert!(c.publisher_id.is_empty());
}

#[test]
fn test_user_message() {
    let error = MonetizationError::Ad(AdError::NotRequired);
    let msg = error.user_message();
    assert!(msg.contains("premium"));
    assert!(msg.contains("not required"));
}

#[test]
fn test_severity() {
    let error = MonetizationError::Ad(AdError::NotRequired);
    assert_eq!(error.severity(), ErrorSeverity::Low);

    let error = MonetizationError::Storage(StorageError::Encryption("test".to_string()));
    assert_eq!(error.severity(), ErrorSeverity::Critical);
}

#[test]
fn test_retryable() {
    let error = MonetizationError::Ad(AdError::LoadFailed("test".to_string()));
    assert!(error.is_retryable());

    let error = MonetizationError::Ad(AdError::NotRequired);
    assert!(!error.is_retryable());
}

#[test]
fn nested_error_messages() {
    let e = MonetizationError::Payment(PaymentManagerError::PaddleError(PaymentError::ApiError("503".to_string())));
    assert_eq!(e.user_message(), "Payment provider error. Please try again later. (API request failed: 503)");
    assert!(e.is_retryable());
    assert_eq!(e.severity(), ErrorSeverity::High);
    let e = MonetizationError::Premium(PremiumServiceError::StorageError(StorageError::Migration("v0".to_string())));
    assert_eq!(e.user_message(), "Premium service error. Please try again. (Storage error: Migration error: v0)");
    let e = MonetizationError::Network("offline".to_string());
    assert_eq!(e.severity(), ErrorSeverity::Medium);
    assert_eq!(AdError::Timeout.message(), "Ad timeout: ad did not complete in time");
}
