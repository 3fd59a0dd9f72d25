//! Configuration of the pipeline.
//!
//! The configuration is an explicit value constructed once at startup and
//! passed by reference into every component that needs it; the library
//! never reads ambient global state. The caller (which may read a
//! process environment or a dotenv file) fills a [`SecretConfig`] and
//! hands it in.

use vstd::prelude::*;
use vstd::string::*;

use crate::errors::AniRustError;

verus! {

/// The configuration keys the pipeline reads.
#[allow(non_camel_case_types)]
#[derive(Debug)]
pub enum EnvVar {
    MAX_RETRIES_ATTEMPTS,
    REQWEST_ERROR_WEBHOOK,
    NO_PROXIES_AVAILABLE_ERROR_WEBHOOK,
    FAILED_TO_FETCH_AFTER_RETRIES_ERROR_WEBHOOK,
    UTILS_ERROR_WEBHOOK,
    UNKNOWN_ERROR_WEBHOOK,
    HTTP_URL,
    SOCK4_URL,
    SOCK5_URL,
    HIANIME_DOMAINS,
    USER_AGENT_HEADER,
    ACCEPT_ENCODING_HEADER,
    ACCEPT_HEADER,
}

impl EnvVar {
    /// The environment-variable key of this configuration entry.
    pub fn as_str(&self) -> (s: &str)
        ensures
            s@ == spec_env_key(*self),
    {
        match self {
            EnvVar::MAX_RETRIES_ATTEMPTS => "MAX_RETRIES_ATTEMPTS",
            EnvVar::REQWEST_ERROR_WEBHOOK => "REQWEST_ERROR_WEBHOOK",
            EnvVar::NO_PROXIES_AVAILABLE_ERROR_WEBHOOK => "NO_PROXIES_AVAILABLE_ERROR_WEBHOOK",
            EnvVar::FAILED_TO_FETCH_AFTER_RETRIES_ERROR_WEBHOOK => {
                "FAILED_TO_FETCH_AFTER_RETRIES_ERROR_WEBHOOK"
            },
            EnvVar::UTILS_ERROR_WEBHOOK => "UTILS_ERROR_WEBHOOK",
            EnvVar::UNKNOWN_ERROR_WEBHOOK => "UNKNOWN_ERROR_WEBHOOK",
            EnvVar::HTTP_URL => "HTTP_URL",
            EnvVar::SOCK4_URL => "SOCK4_URL",
            EnvVar::SOCK5_URL => "SOCK5_URL",
            EnvVar::HIANIME_DOMAINS => "HIANIME_DOMAINS",
            EnvVar::USER_AGENT_HEADER => "USER_AGENT_HEADER",
            EnvVar::ACCEPT_ENCODING_HEADER => "ACCEPT_ENCODING_HEADER",
            EnvVar::ACCEPT_HEADER => "ACCEPT_HEADER",
        }
    }
}

/// The environment-variable key of each configuration entry.
pub open spec fn spec_env_key(v: EnvVar) -> Seq<char> {
    match v {
        EnvVar::MAX_RETRIES_ATTEMPTS => "MAX_RETRIES_ATTEMPTS"@,
        EnvVar::REQWEST_ERROR_WEBHOOK => "REQWEST_ERROR_WEBHOOK"@,
        EnvVar::NO_PROXIES_AVAILABLE_ERROR_WEBHOOK => "NO_PROXIES_AVAILABLE_ERROR_WEBHOOK"@,
        EnvVar::FAILED_TO_FETCH_AFTER_RETRIES_ERROR_WEBHOOK => "FAILED_TO_FETCH_AFTER_RETRIES_ERROR_WEBHOOK"@,
        EnvVar::UTILS_ERROR_WEBHOOK => "UTILS_ERROR_WEBHOOK"@,
        EnvVar::UNKNOWN_ERROR_WEBHOOK => "UNKNOWN_ERROR_WEBHOOK"@,
        EnvVar::HTTP_URL => "HTTP_URL"@,
        EnvVar::SOCK4_URL => "SOCK4_URL"@,
        EnvVar::SOCK5_URL => "SOCK5_URL"@,
        EnvVar::HIANIME_DOMAINS => "HIANIME_DOMAINS"@,
        EnvVar::USER_AGENT_HEADER => "USER_AGENT_HEADER"@,
        EnvVar::ACCEPT_ENCODING_HEADER => "ACCEPT_ENCODING_HEADER"@,
        EnvVar::ACCEPT_HEADER => "ACCEPT_HEADER"@,
    }
}

/// The full configuration snapshot, one string per [`EnvVar`] key.
#[derive(Debug, Clone)]
pub struct SecretConfig {
    pub max_retries_attempts: String,
    pub reqwest_error_webhook: String,
    pub no_proxies_available_error_webhook: String,
    pub failed_to_fetch_after_retries_error_webhook: String,
    pub utils_error_webhook: String,
    pub unknown_error_webhook: String,
    pub http_url: String,
    pub sock4_url: String,
    pub sock5_url: String,
    pub hianime_domains: String,
    pub user_agent_header: String,
    pub accept_encoding_header: String,
    pub accept_header: String,
}

impl SecretConfig {
    /// Builds a configuration snapshot out of its thirteen entries.
    pub fn new(
        max_retries_attempts: String,
        reqwest_error_webhook: String,
        no_proxies_available_error_webhook: String,
        failed_to_fetch_after_retries_error_webhook: String,
        utils_error_webhook: String,
        unknown_error_webhook: String,
        http_url: String,
        sock4_url: String,
        sock5_url: String,
        hianime_domains: String,
        user_agent_header: String,
        accept_encoding_header: String,
        accept_header: String,
    ) -> (r: Self)
        ensures
            r.max_retries_attempts == max_retries_attempts,
            r.reqwest_error_webhook == reqwest_error_webhook,
            r.no_proxies_available_error_webhook == no_proxies_available_error_webhook,
            r.failed_to_fetch_after_retries_error_webhook
                == failed_to_fetch_after_retries_error_webhook,
            r.utils_error_webhook == utils_error_webhook,
            r.unknown_error_webhook == unknown_error_webhook,
            r.http_url == http_url,
            r.sock4_url == sock4_url,
            r.sock5_url == sock5_url,
            r.hianime_domains == hianime_domains,
            r.user_agent_header == user_agent_header,
            r.accept_encoding_header == accept_encoding_header,
            r.accept_header == accept_header,
    {
        Self {
            max_retries_attempts,
            reqwest_error_webhook,
            no_proxies_available_error_webhook,
            failed_to_fetch_after_retries_error_webhook,
            utils_error_webhook,
            unknown_error_webhook,
            http_url,
            sock4_url,
            sock5_url,
            hianime_domains,
            user_agent_header,
            accept_encoding_header,
            accept_header,
        }
    }

    /// The configured value of one key.
    pub fn get(&self, var: &EnvVar) -> (r: String)
        ensures
            r@ == spec_config_value(*self, *var),
    {
        match var {
            EnvVar::MAX_RETRIES_ATTEMPTS => self.max_retries_attempts.clone(),
            EnvVar::REQWEST_ERROR_WEBHOOK => self.reqwest_error_webhook.clone(),
            EnvVar::NO_PROXIES_AVAILABLE_ERROR_WEBHOOK => {
                self.no_proxies_available_error_webhook.clone()
            },
            EnvVar::FAILED_TO_FETCH_AFTER_RETRIES_ERROR_WEBHOOK => {
                self.failed_to_fetch_after_retries_error_webhook.clone()
            },
            EnvVar::UTILS_ERROR_WEBHOOK => self.utils_error_webhook.clone(),
            EnvVar::UNKNOWN_ERROR_WEBHOOK => self.unknown_error_webhook.clone(),
            EnvVar::HTTP_URL => self.http_url.clone(),
            EnvVar::SOCK4_URL => self.sock4_url.clone(),
            EnvVar::SOCK5_URL => self.sock5_url.clone(),
            EnvVar::HIANIME_DOMAINS => self.hianime_domains.clone(),
            EnvVar::USER_AGENT_HEADER => self.user_agent_header.clone(),
            EnvVar::ACCEPT_ENCODING_HEADER => self.accept_encoding_header.clone(),
            EnvVar::ACCEPT_HEADER => self.accept_header.clone(),
        }
    }

    /// The webhook URL that the given error kind reports to. Error kinds
    /// the telemetry does not distinguish share the unknown-error hook;
    /// a missing domain reports nowhere.
    pub fn webhook_url(&self, error: &AniRustError) -> (r: String)
        ensures
            r@ == spec_webhook_url(*self, *error),
    {
        match error {
            AniRustError::NetworkError(_) => self.reqwest_error_webhook.clone(),
            AniRustError::NoProxiesAvailable => self.no_proxies_available_error_webhook.clone(),
            AniRustError::FailedToFetchAfterRetries => {
                self.failed_to_fetch_after_retries_error_webhook.clone()
            },
            AniRustError::ParseIntError(_) => self.utils_error_webhook.clone(),
            AniRustError::NoDomainExists(_) => String::new(),
            AniRustError::ObfuscationStale => self.unknown_error_webhook.clone(),
            AniRustError::DecryptionFailed => self.unknown_error_webhook.clone(),
            AniRustError::NoMatchingServer => self.unknown_error_webhook.clone(),
            AniRustError::UnknownError(_) => self.unknown_error_webhook.clone(),
        }
    }
}

/// The configured value of one key.
pub open spec fn spec_config_value(c: SecretConfig, v: EnvVar) -> Seq<char> {
    match v {
        EnvVar::MAX_RETRIES_ATTEMPTS => c.max_retries_attempts@,
        EnvVar::REQWEST_ERROR_WEBHOOK => c.reqwest_error_webhook@,
        EnvVar::NO_PROXIES_AVAILABLE_ERROR_WEBHOOK => c.no_proxies_available_error_webhook@,
        EnvVar::FAILED_TO_FETCH_AFTER_RETRIES_ERROR_WEBHOOK => c.failed_to_fetch_after_retries_error_webhook@,
        EnvVar::UTILS_ERROR_WEBHOOK => c.utils_error_webhook@,
        EnvVar::UNKNOWN_ERROR_WEBHOOK => c.unknown_error_webhook@,
        EnvVar::HTTP_URL => c.http_url@,
        EnvVar::SOCK4_URL => c.sock4_url@,
        EnvVar::SOCK5_URL => c.sock5_url@,
        EnvVar::HIANIME_DOMAINS => c.hianime_domains@,
        EnvVar::USER_AGENT_HEADER => c.user_agent_header@,
        EnvVar::ACCEPT_ENCODING_HEADER => c.accept_encoding_header@,
        EnvVar::ACCEPT_HEADER => c.accept_header@,
    }
}

/// The webhook URL each error kind reports to.
pub open spec fn spec_webhook_url(c: SecretConfig, e: AniRustError) -> Seq<char> {
    match e {
        AniRustError::NetworkError(_) => c.reqwest_error_webhook@,
        AniRustError::NoProxiesAvailable => c.no_proxies_available_error_webhook@,
        AniRustError::FailedToFetchAfterRetries => c.failed_to_fetch_after_retries_error_webhook@,
        AniRustError::ParseIntError(_) => c.utils_error_webhook@,
        AniRustError::NoDomainExists(_) => Seq::empty(),
        AniRustError::ObfuscationStale => c.unknown_error_webhook@,
        AniRustError::DecryptionFailed => c.unknown_error_webhook@,
        AniRustError::NoMatchingServer => c.unknown_error_webhook@,
        AniRustError::UnknownError(_) => c.unknown_error_webhook@,
    }
}

/// Hands back the configuration snapshot the caller supplied, unchanged:
/// the pipeline keeps no ambient copy of it.
pub fn initialize_secret(secret: Option<SecretConfig>) -> (r: Option<SecretConfig>)
    ensures
        r == secret,
{
    secret
}

/// A single typed configuration entry, as reported to an operator.
#[derive(Debug)]
pub enum AppConfig {
    MaxRetriesAttempts(usize),
    ReqwestErrorWebhook(Option<String>),
    UtilsErrorWebhook(Option<String>),
    UnknownErrorWebhhok(Option<String>),
    NoProxiesAvailable(Option<String>),
    FailedToFetchAfterRetries(Option<String>),
    HttpUrl(String),
    Sock4Url(String),
    Sock5Url(String),
    HianimeDomains(String),
    UserAgentHeader(String),
    AcceptEncodingHeader(String),
    AccpetHeader(String),
}

} // verus!
