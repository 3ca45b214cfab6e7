//! Error kinds of the pipeline.
//!
//! Configuration errors are fatal at startup; store errors are reported at
//! cycle granularity; an unrecognized connection-string scheme fails fast
//! before any connection attempt.

use vstd::prelude::*;

verus! {

/// A configuration value was missing or invalid at startup.
#[derive(Debug, Clone, Copy, PartialEq, Eq, Structural)]
pub enum ConfigError {
    /// The remote feed credential was absent.
    MissingGithubToken,
    /// The messaging sink credential was absent.
    MissingTelegramBotToken,
    /// The messaging sink recipient was absent.
    MissingTelegramChatId,
    /// The poll interval was not a decimal number of seconds.
    InvalidPollInterval,
    /// The poll interval was zero.
    PollIntervalZero,
    /// The transport timeout was not a decimal number of seconds.
    InvalidHttpTimeout,
    /// The transport timeout was zero.
    HttpTimeoutZero,
}

/// A failure of the dedup store.
#[derive(Debug, Clone, Copy, PartialEq, Eq, Structural)]
pub enum StoreError {
    /// The backing structure could not be created or reached at startup.
    StoreInitError,
    /// A membership query failed; membership cannot be trusted this cycle.
    StoreQueryError,
    /// A membership insert failed; the record was not written.
    StoreWriteError,
}

/// The connection string names a scheme no backend handles.
#[derive(Debug, Clone, Copy, PartialEq, Eq, Structural)]
pub struct UnsupportedStoreError;

} // verus!
