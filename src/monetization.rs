//! Records of the premium-access layer that gates destructive commands:
//! ad and payment settings and errors, retry settings, and the location and
//! key of the encrypted premium-status store.
use vstd::prelude::*;
use sha2::Digest;
use crate::paths::{home_dir_string, join_path, path_join};
use crate::text::{push_str_chars, string_of};

verus! {

/// A request for one rewarded ad.
#[derive(Clone, Debug)]
pub struct AdRequest {
    pub ad_id: String,
    pub provider: String,
    pub publisher_id: String,
    pub ad_unit_id: String,
    pub duration_seconds: u64,
    pub format: String,
}

/// Settings of the ad gate.
#[derive(Clone, Debug)]
pub struct AdConfig {
    pub publisher_id: String,
    pub ad_unit_id: String,
    pub duration_seconds: u64,
    pub max_retries: u32,
    pub retry_delay_ms: u64,
    pub completion_timeout_seconds: u64,
}

impl Default for AdConfig {
    /// No publisher or unit; 15 s ads, 3 retries 1000 ms apart, 30 s to complete.
    fn default() -> (r: AdConfig)
        ensures
            r.publisher_id@.len() == 0,
            r.ad_unit_id@.len() == 0,
            r.duration_seconds == 15,
            r.max_retries == 3,
            r.retry_delay_ms == 1000,
            r.completion_timeout_seconds == 30,
    {
        AdConfig {
            publisher_id: String::new(),
            ad_unit_id: String::new(),
            duration_seconds: 15,
            max_retries: 3,
            retry_delay_ms: 1000,
            completion_timeout_seconds: 30,
        }
    }
}

/// What happened to an ad.
#[derive(Clone, Copy, Debug, PartialEq, Eq, Structural)]
pub enum AdEventType {
    Requested,
    Loaded,
    Started,
    Completed,
    LoadFailed,
    Timeout,
    Skipped,
    Blocked,
}

/// Why an ad could not be shown.
#[derive(Clone, Debug)]
pub enum AdError {
    LoadFailed(String),
    Timeout,
    Blocked,
    NotRequired,
    SdkError(String),
    AdNotFound(String),
    InvalidConfig(String),
}

/// How serious an error is.
#[derive(Clone, Copy, Debug, PartialEq, Eq, Structural)]
pub enum ErrorSeverity {
    Low,
    Medium,
    High,
    Critical,
}

/// How an operation is retried.
#[derive(Clone, Debug)]
pub struct RetryConfig {
    pub max_retries: u32,
    pub initial_delay_ms: u64,
    pub exponential_backoff: bool,
    pub max_delay_ms: Option<u64>,
}

impl Default for RetryConfig {
    /// Three retries from 1000 ms, doubling, at most 10 s apart.
    fn default() -> (r: RetryConfig)
        ensures
            r.max_retries == 3,
            r.initial_delay_ms == 1000,
            r.exponential_backoff,
            r.max_delay_ms == Some(10000u64),
    {
        RetryConfig {
            max_retries: 3,
            initial_delay_ms: 1000,
            exponential_backoff: true,
            max_delay_ms: Some(10000),
        }
    }
}

/// State of a payment.
#[derive(Clone, Copy, Debug, PartialEq, Eq, Structural)]
pub enum PaymentStatus {
    Pending,
    Processing,
    Completed,
    Failed,
    Refunded,
}

/// Why a payment could not be handled.
#[derive(Clone, Debug)]
pub enum PaymentError {
    ConfigError(String),
    ApiError(String),
    InvalidResponse(String),
    NetworkError(String),
    VerificationFailed(String),
}

/// The envelope of a payment-provider response.
#[derive(Clone, Debug)]
pub struct PaddleApiResponse<T> {
    pub success: bool,
    pub response: Option<T>,
    pub error: Option<PaddleError>,
}

/// An error that the payment provider reports.
#[derive(Clone, Debug)]
pub struct PaddleError {
    pub message: String,
    pub code: Option<i32>,
}

/// Settings of the payment provider.
#[derive(Clone, Debug)]
pub struct PaddleConfig {
    pub api_key: String,
    pub vendor_id: String,
    pub product_id: String,
    pub test_mode: bool,
    pub webhook_key: Option<String>,
}

impl PaddleConfig {
    /// The provider's API base: the sandbox in test mode, else production.
    pub fn api_base_url(&self) -> (r: &'static str)
        ensures
            self.test_mode ==> r@ == "https://sandbox-api.paddle.com"@,
            !self.test_mode ==> r@ == "https://api.paddle.com"@,
    {
        if self.test_mode {
            "https://sandbox-api.paddle.com"
        } else {
            "https://api.paddle.com"
        }
    }
}

/// Why the premium-status store could not be used.
#[derive(Clone, Debug)]
pub enum StorageError {
    Storage(String),
    Encryption(String),
    Decryption(String),
    Serialization(String),
    InvalidData(String),
    Migration(String),
    KeyGeneration(String),
}

/// Why the payment manager could not complete a purchase.
#[derive(Clone, Debug)]
pub enum PaymentManagerError {
    NetworkError(String),
    VerificationFailed(String),
    InvalidReceipt(String),
    Timeout,
    PaddleError(PaymentError),
    ConfigError(String),
    StorageError(StorageError),
}

/// Why the premium service could not answer.
#[derive(Clone, Debug)]
pub enum PremiumServiceError {
    StorageError(StorageError),
    PaymentManagerError(PaymentManagerError),
    VerificationFailed(String),
    InvalidStatus(String),
    DeviceIdError(String),
}

/// The text that `AdError` displays.
pub open spec fn ad_error_text(e: AdError) -> Seq<char>
{
    match e {
        AdError::LoadFailed(m) => "Ad loading failed: "@ + m@,
        AdError::Timeout => "Ad timeout: ad did not complete in time"@,
        AdError::Blocked => "Ad blocked: ad blocker detected"@,
        AdError::NotRequired => "Premium user: ad not required"@,
        AdError::SdkError(m) => "Ad SDK error: "@ + m@,
        AdError::AdNotFound(m) => "Ad ID not found: "@ + m@,
        AdError::InvalidConfig(m) => "Invalid ad configuration: "@ + m@,
    }
}

impl AdError {
    /// The text that this error displays.
    pub fn message(&self) -> (r: String)
        ensures
            r@ == ad_error_text(*self),
    {
        match self {
            AdError::LoadFailed(m) => {
                let mut t: Vec<char> = Vec::new();
                push_str_chars(&mut t, "Ad loading failed: ");
                push_str_chars(&mut t, m.as_str());
                string_of(&t)
            },
            AdError::Timeout => "Ad timeout: ad did not complete in time".to_owned(),
            AdError::Blocked => "Ad blocked: ad blocker detected".to_owned(),
            AdError::NotRequired => "Premium user: ad not required".to_owned(),
            AdError::SdkError(m) => {
                let mut t: Vec<char> = Vec::new();
                push_str_chars(&mut t, "Ad SDK error: ");
                push_str_chars(&mut t, m.as_str());
                string_of(&t)
            },
            AdError::AdNotFound(m) => {
                let mut t: Vec<char> = Vec::new();
                push_str_chars(&mut t, "Ad ID not found: ");
                push_str_chars(&mut t, m.as_str());
                string_of(&t)
            },
            AdError::InvalidConfig(m) => {
                let mut t: Vec<char> = Vec::new();
                push_str_chars(&mut t, "Invalid ad configuration: ");
                push_str_chars(&mut t, m.as_str());
                string_of(&t)
            },
        }
    }
}

/// The text that `PaymentError` displays.
pub open spec fn payment_error_text(e: PaymentError) -> Seq<char>
{
    match e {
        PaymentError::ConfigError(m) => "Configuration error: "@ + m@,
        PaymentError::ApiError(m) => "API request failed: "@ + m@,
        PaymentError::InvalidResponse(m) => "Invalid response: "@ + m@,
        PaymentError::NetworkError(m) => "Network error: "@ + m@,
        PaymentError::VerificationFailed(m) => "Payment verification failed: "@ + m@,
    }
}

impl PaymentError {
    /// The text that this error displays.
    pub fn message(&self) -> (r: String)
        ensures
            r@ == payment_error_text(*self),
    {
        match self {
            PaymentError::ConfigError(m) => {
                let mut t: Vec<char> = Vec::new();
                push_str_chars(&mut t, "Configuration error: ");
                push_str_chars(&mut t, m.as_str());
                string_of(&t)
            },
            PaymentError::ApiError(m) => {
                let mut t: Vec<char> = Vec::new();
                push_str_chars(&mut t, "API request failed: ");
                push_str_chars(&mut t, m.as_str());
                string_of(&t)
            },
            PaymentError::InvalidResponse(m) => {
                let mut t: Vec<char> = Vec::new();
                push_str_chars(&mut t, "Invalid response: ");
                push_str_chars(&mut t, m.as_str());
                string_of(&t)
            },
            PaymentError::NetworkError(m) => {
                let mut t: Vec<char> = Vec::new();
                push_str_chars(&mut t, "Network error: ");
                push_str_chars(&mut t, m.as_str());
                string_of(&t)
            },
            PaymentError::VerificationFailed(m) => {
                let mut t: Vec<char> = Vec::new();
                push_str_chars(&mut t, "Payment verification failed: ");
                push_str_chars(&mut t, m.as_str());
                string_of(&t)
            },
        }
    }
}

/// The text that `StorageError` displays.
pub open spec fn storage_error_text(e: StorageError) -> Seq<char>
{
    match e {
        StorageError::Storage(m) => "Storage error: "@ + m@,
        StorageError::Encryption(m) => "Encryption error: "@ + m@,
        StorageError::Decryption(m) => "Decryption error: "@ + m@,
        StorageError::Serialization(m) => "Serialization error: "@ + m@,
        StorageError::InvalidData(m) => "Invalid data: "@ + m@,
        StorageError::Migration(m) => "Migration error: "@ + m@,
        StorageError::KeyGeneration(m) => "Key generation error: "@ + m@,
    }
}

impl StorageError {
    /// The text that this error displays.
    pub fn message(&self) -> (r: String)
        ensures
            r@ == storage_error_text(*self),
    {
        match self {
            StorageError::Storage(m) => {
                let mut t: Vec<char> = Vec::new();
                push_str_chars(&mut t, "Storage error: ");
                push_str_chars(&mut t, m.as_str());
                string_of(&t)
            },
            StorageError::Encryption(m) => {
                let mut t: Vec<char> = Vec::new();
                push_str_chars(&mut t, "Encryption error: ");
                push_str_chars(&mut t, m.as_str());
                string_of(&t)
            },
            StorageError::Decryption(m) => {
                let mut t: Vec<char> = Vec::new();
                push_str_chars(&mut t, "Decryption error: ");
                push_str_chars(&mut t, m.as_str());
                string_of(&t)
            },
            StorageError::Serialization(m) => {
                let mut t: Vec<char> = Vec::new();
                push_str_chars(&mut t, "Serialization error: ");
                push_str_chars(&mut t, m.as_str());
                string_of(&t)
            },
            StorageError::InvalidData(m) => {
                let mut t: Vec<char> = Vec::new();
                push_str_chars(&mut t, "Invalid data: ");
                push_str_chars(&mut t, m.as_str());
                string_of(&t)
            },
            StorageError::Migration(m) => {
                let mut t: Vec<char> = Vec::new();
                push_str_chars(&mut t, "Migration error: ");
                push_str_chars(&mut t, m.as_str());
                string_of(&t)
            },
            StorageError::KeyGeneration(m) => {
                let mut t: Vec<char> = Vec::new();
                push_str_chars(&mut t, "Key generation error: ");
                push_str_chars(&mut t, m.as_str());
                string_of(&t)
            },
        }
    }
}

/// The text that `PaymentManagerError` displays.
pub open spec fn payment_manager_error_text(e: PaymentManagerError) -> Seq<char>
{
    match e {
        PaymentManagerError::NetworkError(m) => "Network error: "@ + m@,
        PaymentManagerError::VerificationFailed(m) => "Payment verification failed: "@ + m@,
        PaymentManagerError::InvalidReceipt(m) => "Invalid receipt: "@ + m@,
        PaymentManagerError::Timeout => "Payment timeout"@,
        PaymentManagerError::PaddleError(inner) => "Paddle API error: "@ + payment_error_text(inner),
        PaymentManagerError::ConfigError(m) => "Configuration error: "@ + m@,
        PaymentManagerError::StorageError(inner) => "Storage error: "@ + storage_error_text(inner),
    }
}

impl PaymentManagerError {
    /// The text that this error displays.
    pub fn message(&self) -> (r: String)
        ensures
            r@ == payment_manager_error_text(*self),
    {
        match self {
            PaymentManagerError::NetworkError(m) => {
                let mut t: Vec<char> = Vec::new();
                push_str_chars(&mut t, "Network error: ");
                push_str_chars(&mut t, m.as_str());
                string_of(&t)
            },
            PaymentManagerError::VerificationFailed(m) => {
                let mut t: Vec<char> = Vec::new();
                push_str_chars(&mut t, "Payment verification failed: ");
                push_str_chars(&mut t, m.as_str());
                string_of(&t)
            },
            PaymentManagerError::InvalidReceipt(m) => {
                let mut t: Vec<char> = Vec::new();
                push_str_chars(&mut t, "Invalid receipt: ");
                push_str_chars(&mut t, m.as_str());
                string_of(&t)
            },
            PaymentManagerError::Timeout => "Payment timeout".to_owned(),
            PaymentManagerError::PaddleError(inner) => {
                let m = inner.message();
                let mut t: Vec<char> = Vec::new();
                push_str_chars(&mut t, "Paddle API error: ");
                push_str_chars(&mut t, m.as_str());
                string_of(&t)
            },
            PaymentManagerError::ConfigError(m) => {
                let mut t: Vec<char> = Vec::new();
                push_str_chars(&mut t, "Configuration error: ");
                push_str_chars(&mut t, m.as_str());
                string_of(&t)
            },
            PaymentManagerError::StorageError(inner) => {
                let m = inner.message();
                let mut t: Vec<char> = Vec::new();
                push_str_chars(&mut t, "Storage error: ");
                push_str_chars(&mut t, m.as_str());
                string_of(&t)
            },
        }
    }
}

/// The text that `PremiumServiceError` displays.
pub open spec fn premium_service_error_text(e: PremiumServiceError) -> Seq<char>
{
    match e {
        PremiumServiceError::StorageError(inner) => "Storage error: "@ + storage_error_text(inner),
        PremiumServiceError::PaymentManagerError(inner) => "Payment manager error: "@ + payment_manager_error_text(inner),
        PremiumServiceError::VerificationFailed(m) => "Verification failed: "@ + m@,
        PremiumServiceError::InvalidStatus(m) => "Invalid status: "@ + m@,
        PremiumServiceError::DeviceIdError(m) => "Device ID generation failed: "@ + m@,
    }
}

impl PremiumServiceError {
    /// The text that this error displays.
    pub fn message(&self) -> (r: String)
        ensures
            r@ == premium_service_error_text(*self),
    {
        match self {
            PremiumServiceError::StorageError(inner) => {
                let m = inner.message();
                let mut t: Vec<char> = Vec::new();
                push_str_chars(&mut t, "Storage error: ");
                push_str_chars(&mut t, m.as_str());
                string_of(&t)
            },
            PremiumServiceError::PaymentManagerError(inner) => {
                let m = inner.message();
                let mut t: Vec<char> = Vec::new();
                push_str_chars(&mut t, "Payment manager error: ");
                push_str_chars(&mut t, m.as_str());
                string_of(&t)
            },
            PremiumServiceError::VerificationFailed(m) => {
                let mut t: Vec<char> = Vec::new();
                push_str_chars(&mut t, "Verification failed: ");
                push_str_chars(&mut t, m.as_str());
                string_of(&t)
            },
            PremiumServiceError::InvalidStatus(m) => {
                let mut t: Vec<char> = Vec::new();
                push_str_chars(&mut t, "Invalid status: ");
                push_str_chars(&mut t, m.as_str());
                string_of(&t)
            },
            PremiumServiceError::DeviceIdError(m) => {
                let mut t: Vec<char> = Vec::new();
                push_str_chars(&mut t, "Device ID generation failed: ");
                push_str_chars(&mut t, m.as_str());
                string_of(&t)
            },
        }
    }
}

/// Any error of the premium-access layer.
#[derive(Clone, Debug)]
pub enum MonetizationError {
    Ad(AdError),
    Payment(PaymentManagerError),
    Premium(PremiumServiceError),
    Storage(StorageError),
    Paddle(PaymentError),
    Network(String),
    Config(String),
    Timeout(String),
    InvalidInput(String),
    Unknown(String),
}

/// The message shown to users for an error, without technical wording
/// beyond the detail in parentheses.
pub open spec fn user_message_text(e: MonetizationError) -> Seq<char> {
    match e {
        MonetizationError::Ad(AdError::NotRequired) => "You have premium access. Ads are not required."@,
        MonetizationError::Ad(AdError::LoadFailed(m)) => "Unable to load advertisement. Please try again. ("@ + m@ + ")"@,
        MonetizationError::Ad(AdError::Timeout) => "Advertisement timed out. Please try again."@,
        MonetizationError::Ad(AdError::Blocked) => "Advertisement was blocked. Please disable ad blockers."@,
        MonetizationError::Ad(AdError::SdkError(m)) => "Advertisement service error. Please try again later. ("@ + m@ + ")"@,
        MonetizationError::Ad(AdError::AdNotFound(m)) => "Advertisement not found. Please request a new ad. (ID: "@ + m@ + ")"@,
        MonetizationError::Ad(AdError::InvalidConfig(m)) => "Advertisement configuration error. Please contact support. ("@ + m@ + ")"@,
        MonetizationError::Payment(PaymentManagerError::NetworkError(m)) => "Network error while processing payment. Please check your connection. ("@ + m@ + ")"@,
        MonetizationError::Payment(PaymentManagerError::VerificationFailed(m)) => "Payment verification failed. Please contact support. ("@ + m@ + ")"@,
        MonetizationError::Payment(PaymentManagerError::InvalidReceipt(m)) => "Invalid payment receipt. Please contact support. ("@ + m@ + ")"@,
        MonetizationError::Payment(PaymentManagerError::Timeout) => "Payment processing timed out. Please try again."@,
        MonetizationError::Payment(PaymentManagerError::PaddleError(e)) => "Payment provider error. Please try again later. ("@ + payment_error_text(e) + ")"@,
        MonetizationError::Payment(PaymentManagerError::ConfigError(m)) => "Payment configuration error. Please contact support. ("@ + m@ + ")"@,
        MonetizationError::Payment(PaymentManagerError::StorageError(e)) => "Storage error while processing payment. Please try again. ("@ + storage_error_text(e) + ")"@,
        MonetizationError::Premium(PremiumServiceError::VerificationFailed(m)) => "Premium status verification failed. Please try again. ("@ + m@ + ")"@,
        MonetizationError::Premium(PremiumServiceError::InvalidStatus(m)) => "Invalid premium status. Please contact support. ("@ + m@ + ")"@,
        MonetizationError::Premium(PremiumServiceError::DeviceIdError(m)) => "Device identification error. Please restart the app. ("@ + m@ + ")"@,
        MonetizationError::Premium(e) => "Premium service error. Please try again. ("@ + premium_service_error_text(e) + ")"@,
        MonetizationError::Storage(StorageError::Storage(m)) => "Storage error. Please check file permissions. ("@ + m@ + ")"@,
        MonetizationError::Storage(StorageError::Encryption(m)) => "Encryption error. Please restart the app. ("@ + m@ + ")"@,
        MonetizationError::Storage(StorageError::Decryption(m)) => "Decryption error. Please restart the app. ("@ + m@ + ")"@,
        MonetizationError::Storage(StorageError::Serialization(m)) => "Data format error. Please restart the app. ("@ + m@ + ")"@,
        MonetizationError::Storage(StorageError::InvalidData(m)) => "Invalid data. Please restart the app. ("@ + m@ + ")"@,
        MonetizationError::Storage(e) => "Storage error. Please restart the app. ("@ + storage_error_text(e) + ")"@,
        MonetizationError::Paddle(e) => "Payment provider error. Please try again later. ("@ + payment_error_text(e) + ")"@,
        MonetizationError::Network(m) => "Network error. Please check your internet connection. ("@ + m@ + ")"@,
        MonetizationError::Config(m) => "Configuration error. Please contact support. ("@ + m@ + ")"@,
        MonetizationError::Timeout(m) => "Operation timed out. Please try again. ("@ + m@ + ")"@,
        MonetizationError::InvalidInput(m) => "Invalid input. Please check your request. ("@ + m@ + ")"@,
        MonetizationError::Unknown(m) => "An unexpected error occurred. Please try again. ("@ + m@ + ")"@,
    }
}

/// How serious an error is: an ad that a premium user need not watch is
/// informational; timeouts, blocked ads and network trouble are warnings;
/// storage faults and unknown errors are critical; the rest are errors.
pub open spec fn severity_of(e: MonetizationError) -> ErrorSeverity {
    match e {
        MonetizationError::Ad(AdError::NotRequired) => ErrorSeverity::Low,
        MonetizationError::Ad(AdError::Timeout) => ErrorSeverity::Medium,
        MonetizationError::Ad(AdError::Blocked) => ErrorSeverity::Medium,
        MonetizationError::Payment(PaymentManagerError::Timeout) => ErrorSeverity::Medium,
        MonetizationError::Network(_) => ErrorSeverity::Medium,
        MonetizationError::Storage(_) => ErrorSeverity::Critical,
        MonetizationError::Unknown(_) => ErrorSeverity::Critical,
        _ => ErrorSeverity::High,
    }
}

/// Whether the operation that failed may be tried again: failed or timed-out
/// ads, SDK errors, network trouble, payment timeouts and provider errors,
/// failed premium verifications and timeouts.
pub open spec fn retryable(e: MonetizationError) -> bool {
    match e {
        MonetizationError::Ad(AdError::LoadFailed(_)) => true,
        MonetizationError::Ad(AdError::Timeout) => true,
        MonetizationError::Ad(AdError::SdkError(_)) => true,
        MonetizationError::Payment(PaymentManagerError::NetworkError(_)) => true,
        MonetizationError::Payment(PaymentManagerError::Timeout) => true,
        MonetizationError::Payment(PaymentManagerError::PaddleError(_)) => true,
        MonetizationError::Premium(PremiumServiceError::VerificationFailed(_)) => true,
        MonetizationError::Network(_) => true,
        MonetizationError::Timeout(_) => true,
        _ => false,
    }
}

fn framed(pre: &str, detail: &str, post: &str) -> (r: String)
    ensures
        r@ == pre@ + detail@ + post@,
{
    let mut t: Vec<char> = Vec::new();
    push_str_chars(&mut t, pre);
    push_str_chars(&mut t, detail);
    push_str_chars(&mut t, post);
    string_of(&t)
}

impl MonetizationError {
    /// The message shown to users for this error.
    pub fn user_message(&self) -> (r: String)
        ensures
            r@ == user_message_text(*self),
    {
        match self {
            MonetizationError::Ad(AdError::NotRequired) => "You have premium access. Ads are not required.".to_owned(),
            MonetizationError::Ad(AdError::LoadFailed(m)) => framed("Unable to load advertisement. Please try again. (", m.as_str(), ")"),
            MonetizationError::Ad(AdError::Timeout) => "Advertisement timed out. Please try again.".to_owned(),
            MonetizationError::Ad(AdError::Blocked) => "Advertisement was blocked. Please disable ad blockers.".to_owned(),
            MonetizationError::Ad(AdError::SdkError(m)) => framed("Advertisement service error. Please try again later. (", m.as_str(), ")"),
            MonetizationError::Ad(AdError::AdNotFound(m)) => framed("Advertisement not found. Please request a new ad. (ID: ", m.as_str(), ")"),
            MonetizationError::Ad(AdError::InvalidConfig(m)) => framed("Advertisement configuration error. Please contact support. (", m.as_str(), ")"),
            MonetizationError::Payment(PaymentManagerError::NetworkError(m)) => framed("Network error while processing payment. Please check your connection. (", m.as_str(), ")"),
            MonetizationError::Payment(PaymentManagerError::VerificationFailed(m)) => framed("Payment verification failed. Please contact support. (", m.as_str(), ")"),
            MonetizationError::Payment(PaymentManagerError::InvalidReceipt(m)) => framed("Invalid payment receipt. Please contact support. (", m.as_str(), ")"),
            MonetizationError::Payment(PaymentManagerError::Timeout) => "Payment processing timed out. Please try again.".to_owned(),
            MonetizationError::Payment(PaymentManagerError::PaddleError(e)) => {
                let d = e.message();
                framed("Payment provider error. Please try again later. (", d.as_str(), ")")
            },
            MonetizationError::Payment(PaymentManagerError::ConfigError(m)) => framed("Payment configuration error. Please contact support. (", m.as_str(), ")"),
            MonetizationError::Payment(PaymentManagerError::StorageError(e)) => {
                let d = e.message();
                framed("Storage error while processing payment. Please try again. (", d.as_str(), ")")
            },
            MonetizationError::Premium(PremiumServiceError::VerificationFailed(m)) => framed("Premium status verification failed. Please try again. (", m.as_str(), ")"),
            MonetizationError::Premium(PremiumServiceError::InvalidStatus(m)) => framed("Invalid premium status. Please contact support. (", m.as_str(), ")"),
            MonetizationError::Premium(PremiumServiceError::DeviceIdError(m)) => framed("Device identification error. Please restart the app. (", m.as_str(), ")"),
            MonetizationError::Premium(e) => {
                let d = e.message();
                framed("Premium service error. Please try again. (", d.as_str(), ")")
            },
            MonetizationError::Storage(StorageError::Storage(m)) => framed("Storage error. Please check file permissions. (", m.as_str(), ")"),
            MonetizationError::Storage(StorageError::Encryption(m)) => framed("Encryption error. Please restart the app. (", m.as_str(), ")"),
            MonetizationError::Storage(StorageError::Decryption(m)) => framed("Decryption error. Please restart the app. (", m.as_str(), ")"),
            MonetizationError::Storage(StorageError::Serialization(m)) => framed("Data format error. Please restart the app. (", m.as_str(), ")"),
            MonetizationError::Storage(StorageError::InvalidData(m)) => framed("Invalid data. Please restart the app. (", m.as_str(), ")"),
            MonetizationError::Storage(e) => {
                let d = e.message();
                framed("Storage error. Please restart the app. (", d.as_str(), ")")
            },
            MonetizationError::Paddle(e) => {
                let d = e.message();
                framed("Payment provider error. Please try again later. (", d.as_str(), ")")
            },
            MonetizationError::Network(m) => framed("Network error. Please check your internet connection. (", m.as_str(), ")"),
            MonetizationError::Config(m) => framed("Configuration error. Please contact support. (", m.as_str(), ")"),
            MonetizationError::Timeout(m) => framed("Operation timed out. Please try again. (", m.as_str(), ")"),
            MonetizationError::InvalidInput(m) => framed("Invalid input. Please check your request. (", m.as_str(), ")"),
            MonetizationError::Unknown(m) => framed("An unexpected error occurred. Please try again. (", m.as_str(), ")"),
        }
    }

    /// How serious this error is.
    pub fn severity(&self) -> (r: ErrorSeverity)
        ensures
            r == severity_of(*self),
    {
        match self {
            MonetizationError::Ad(AdError::NotRequired) => ErrorSeverity::Low,
            MonetizationError::Ad(AdError::Timeout) => ErrorSeverity::Medium,
            MonetizationError::Ad(AdError::Blocked) => ErrorSeverity::Medium,
            MonetizationError::Payment(PaymentManagerError::Timeout) => ErrorSeverity::Medium,
            MonetizationError::Network(_) => ErrorSeverity::Medium,
            MonetizationError::Storage(_) => ErrorSeverity::Critical,
            MonetizationError::Unknown(_) => ErrorSeverity::Critical,
            _ => ErrorSeverity::High,
        }
    }

    /// Whether the operation that failed may be tried again.
    pub fn is_retryable(&self) -> (r: bool)
        ensures
            r == retryable(*self),
    {
        match self {
            MonetizationError::Ad(AdError::LoadFailed(_)) => true,
            MonetizationError::Ad(AdError::Timeout) => true,
            MonetizationError::Ad(AdError::SdkError(_)) => true,
            MonetizationError::Payment(PaymentManagerError::NetworkError(_)) => true,
            MonetizationError::Payment(PaymentManagerError::Timeout) => true,
            MonetizationError::Payment(PaymentManagerError::PaddleError(_)) => true,
            MonetizationError::Premium(PremiumServiceError::VerificationFailed(_)) => true,
            MonetizationError::Network(_) => true,
            MonetizationError::Timeout(_) => true,
            _ => false,
        }
    }
}

/// What `sha2::Sha256` gives for the UTF-8 bytes of `s`.
pub uninterp spec fn sha256_utf8(s: Seq<char>) -> Seq<u8>;

/// Relies on `sha2::Sha256::digest`: the SHA-256 digest of the UTF-8 bytes of
/// `s`; its output size is `U32`, 32 bytes.
#[verifier::external_body]
fn sha256_of_text(s: &str) -> (r: Vec<u8>)
    ensures
        r@ == sha256_utf8(s@),
        r@.len() == 32,
{
    sha2::Sha256::digest(s.as_bytes()).to_vec()
}

/// The salt mixed into the device key.
pub const KEY_SALT: &'static str = "cache-cleaner-premium-storage-v1";

/// Where the store lives, relative to the home directory.
pub const STORAGE_FILE: &'static str = ".cache-cleaner/premium_status.json";

/// The encrypted store of the premium status: a file and a 32-byte key.
pub struct PremiumStorage {
    storage_path: String,
    encryption_key: Vec<u8>,
}

impl PremiumStorage {
    pub closed spec fn path_view(&self) -> Seq<char> {
        self.storage_path@
    }

    pub closed spec fn key_view(&self) -> Seq<u8> {
        self.encryption_key@
    }

    /// A store at `storage_path` with `encryption_key`; an error unless the
    /// key has the 32 bytes that AES-256 needs.
    pub fn new(storage_path: String, encryption_key: Vec<u8>) -> (r: Result<PremiumStorage, StorageError>)
        ensures
            (r is Ok) == (encryption_key@.len() == 32),
            r matches Ok(s) ==> (s.path_view() == storage_path@ && s.key_view() == encryption_key@),
            r matches Err(e) ==> (e matches StorageError::KeyGeneration(m) && m@
                == "Encryption key must be 32 bytes for AES-256"@),
    {
        if encryption_key.len() != 32 {
            return Err(
                StorageError::KeyGeneration("Encryption key must be 32 bytes for AES-256".to_owned()),
            );
        }
        Ok(PremiumStorage { storage_path, encryption_key })
    }

    /// The store's default file, under the home directory; an error where no
    /// home directory is known.
    pub fn default_storage_path() -> (r: Result<String, StorageError>)
        ensures
            r matches Ok(p) ==> exists|h: Seq<char>| p@ == #[trigger] path_join(h, STORAGE_FILE@),
    {
        match home_dir_string() {
            Some(h) => {
                let p = join_path(h.as_str(), STORAGE_FILE);
                assert(p@ == path_join(h@, STORAGE_FILE@));
                Ok(p)
            },
            None => Err(StorageError::Storage("Cannot find home directory".to_owned())),
        }
    }

    /// The device key: the SHA-256 digest of the home directory followed by
    /// the salt, or of the salt alone where no home directory is known.
    fn generate_device_key() -> (r: Vec<u8>)
        ensures
            r@.len() == 32,
            exists|h: Seq<char>| r@ == #[trigger] sha256_utf8(h + KEY_SALT@),
    {
        let mut text: Vec<char> = Vec::new();
        match home_dir_string() {
            Some(h) => push_str_chars(&mut text, h.as_str()),
            None => {},
        }
        let ghost h = text@;
        push_str_chars(&mut text, KEY_SALT);
        let s = string_of(&text);
        let r = sha256_of_text(s.as_str());
        assert(r@ == sha256_utf8(h + KEY_SALT@));
        r
    }

    /// The store at its default file with the device key.
    pub fn with_default_path() -> (r: Result<PremiumStorage, StorageError>)
        ensures
            r matches Ok(s) ==> (s.key_view().len() == 32 && exists|h: Seq<char>|
                s.path_view() == #[trigger] path_join(h, STORAGE_FILE@)),
    {
        let path = match PremiumStorage::default_storage_path() {
            Ok(p) => p,
            Err(e) => return Err(e),
        };
        let key = PremiumStorage::generate_device_key();
        PremiumStorage::new(path, key)
    }

    /// The store's file.
    pub fn storage_path(&self) -> (r: &str)
        ensures
            r@ == self.path_view(),
    {
        self.storage_path.as_str()
    }
}

} // verus!
