//! What prevents the service from starting.

use vstd::prelude::*;

use crate::crypto::CryptoError;
use crate::proxies::InvalidTrustedProxies;
use crate::text;

verus! {

/// Failures that prevent the service from starting at all.
#[derive(Debug)]
pub enum StartupConfigError {
    /// `SYNC_ENCRYPTION_KEY` was set but malformed.
    EncryptionKey(CryptoError),
    /// `TRUSTED_PROXIES` was set but malformed.
    TrustedProxies(InvalidTrustedProxies),
    /// The outbound HTTP client could not be built.
    HttpClient(String),
    /// The cron scheduler could not be started.
    Scheduler(String),
}

impl StartupConfigError {
    /// The text an operator reads.
    pub open spec fn text(self) -> Seq<char> {
        match self {
            StartupConfigError::EncryptionKey(e) => "invalid SYNC_ENCRYPTION_KEY: "@ + e.text(),
            StartupConfigError::TrustedProxies(e) => "invalid TRUSTED_PROXIES: "@ + e.text(),
            StartupConfigError::HttpClient(m) => "failed to build outbound HTTP client: "@ + m@,
            StartupConfigError::Scheduler(m) => "failed to start scheduler: "@ + m@,
        }
    }

    /// The text an operator reads.
    pub fn message(&self) -> (r: String)
        ensures
            r@ == self.text(),
    {
        match self {
            StartupConfigError::EncryptionKey(e) => text::concat(
                "invalid SYNC_ENCRYPTION_KEY: ",
                e.message(),
            ),
            StartupConfigError::TrustedProxies(e) => text::concat(
                "invalid TRUSTED_PROXIES: ",
                e.message().as_str(),
            ),
            StartupConfigError::HttpClient(m) => text::concat(
                "failed to build outbound HTTP client: ",
                m.as_str(),
            ),
            StartupConfigError::Scheduler(m) => text::concat(
                "failed to start scheduler: ",
                m.as_str(),
            ),
        }
    }
}

/// What an operator reads says which setting is wrong, and what is wrong with it.
pub proof fn law_startup_errors_name_the_setting(
    e: StartupConfigError,
    crypto: CryptoError,
    proxies: InvalidTrustedProxies,
    m: String,
)
    ensures
        e == StartupConfigError::EncryptionKey(crypto) ==> e.text()
            == "invalid SYNC_ENCRYPTION_KEY: "@ + crypto.text(),
        e == StartupConfigError::TrustedProxies(proxies) ==> e.text() == "invalid TRUSTED_PROXIES: "@
            + proxies.text(),
        e == StartupConfigError::HttpClient(m) ==> e.text()
            == "failed to build outbound HTTP client: "@ + m@,
        e == StartupConfigError::Scheduler(m) ==> e.text() == "failed to start scheduler: "@ + m@,
{
}

} // verus!
