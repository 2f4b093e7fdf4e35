//! Error taxonomy of the pipeline.
//!
//! Transient fetch failures are retryable by leaving the work item
//! unfetched; extraction failures skip one entry; store failures are fatal
//! to the invocation; a missing parent or item surfaces as an empty result.

use vstd::prelude::*;

verus! {

/// A failed page fetch, as the fetcher reports it.
#[derive(Debug, Clone, Copy, PartialEq, Eq, Structural)]
pub enum FetchError {
    Timeout,
    HttpStatus(u16),
    Network,
}

/// A page-structure mismatch while extracting one entry.
#[derive(Debug, Clone, Copy, PartialEq, Eq, Structural)]
pub enum ExtractError {
    FieldMissing,
    Malformed,
    RarityNotExists,
}

/// Why a single scraped entry was unusable.
#[derive(Debug, Clone, Copy, PartialEq, Eq, Structural)]
pub enum ErrorCode {
    RarityNotExists,
}

impl FetchError {
    /// A short label for logs and tallies.
    pub fn label(&self) -> (r: &'static str)
        ensures
            r@ == match self {
                FetchError::Timeout => "timeout"@,
                FetchError::HttpStatus(_) => "http status"@,
                FetchError::Network => "network"@,
            },
    {
        match self {
            FetchError::Timeout => "timeout",
            FetchError::HttpStatus(_) => "http status",
            FetchError::Network => "network",
        }
    }
}

} // verus!
