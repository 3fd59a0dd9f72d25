//! Error kinds of the retrieval and decryption pipeline.
//!
//! Transient transport failures are retried by the fetch layer; every
//! other kind is surfaced immediately to the caller. Failures collected
//! over several proxies or mirror domains are aggregated into one
//! comma-joined message so that an operator can tell which attempt
//! failed and why.

use vstd::prelude::*;
use vstd::string::*;

verus! {

/// Error enum covering every failure of the pipeline.
#[derive(Debug, Clone, PartialEq, Eq)]
pub enum AniRustError {
    /// Transport-level failure, with the transport's own message.
    NetworkError(String),
    /// The proxy pool is empty and direct connections are not allowed.
    NoProxiesAvailable,
    /// Every allowed fetch attempt failed.
    FailedToFetchAfterRetries,
    /// An integer field could not be parsed.
    ParseIntError(String),
    /// No mirror domain is configured for the named site.
    NoDomainExists(String),
    /// The key extractor found no offset pairs in the player script.
    ObfuscationStale,
    /// Base64, padding or UTF-8 failure while decrypting the source list.
    DecryptionFailed,
    /// No server descriptor matched the requested server name.
    NoMatchingServer,
    /// Anything uncategorized, with a human-readable message.
    UnknownError(String),
}

/// The human-readable message of each error kind.
pub open spec fn spec_message(e: AniRustError) -> Seq<char> {
    match e {
        AniRustError::NetworkError(m) => "Network error: "@ + m@,
        AniRustError::NoProxiesAvailable => "No proxies available"@,
        AniRustError::FailedToFetchAfterRetries => "Failed to fetch after retries"@,
        AniRustError::ParseIntError(m) => "Failed to parse int error: "@ + m@,
        AniRustError::NoDomainExists(site) => "No domain added for: "@ + site@,
        AniRustError::ObfuscationStale => "Can't find variables. Perhaps the extractor is outdated."@,
        AniRustError::DecryptionFailed => "Failed to decrypt sources"@,
        AniRustError::NoMatchingServer => "No matching server"@,
        AniRustError::UnknownError(m) => "Std error occured: "@ + m@,
    }
}

impl AniRustError {
    /// Renders the error as the message an operator sees.
    pub fn message(&self) -> (r: String)
        ensures
            r@ == spec_message(*self),
    {
        match self {
            AniRustError::NetworkError(m) => String::from_str("Network error: ").concat(
                m.as_str(),
            ),
            AniRustError::NoProxiesAvailable => String::from_str("No proxies available"),
            AniRustError::FailedToFetchAfterRetries => String::from_str(
                "Failed to fetch after retries",
            ),
            AniRustError::ParseIntError(m) => String::from_str("Failed to parse int error: ")
                .concat(m.as_str()),
            AniRustError::NoDomainExists(site) => String::from_str("No domain added for: ").concat(
                site.as_str(),
            ),
            AniRustError::ObfuscationStale => String::from_str(
                "Can't find variables. Perhaps the extractor is outdated.",
            ),
            AniRustError::DecryptionFailed => String::from_str("Failed to decrypt sources"),
            AniRustError::NoMatchingServer => String::from_str("No matching server"),
            AniRustError::UnknownError(m) => String::from_str("Std error occured: ").concat(
                m.as_str(),
            ),
        }
    }
}

/// The comma-joined messages of the present errors of `v`, starting at
/// index `i`; `first` says whether no message has been emitted yet.
pub open spec fn spec_joined_from(v: Seq<Option<AniRustError>>, i: int, first: bool) -> Seq<char>
    decreases v.len() - i,
{
    if i < 0 || i >= v.len() {
        Seq::empty()
    } else {
        match v[i] {
            None => spec_joined_from(v, i + 1, first),
            Some(e) => if first {
                spec_message(e) + spec_joined_from(v, i + 1, false)
            } else {
                ", "@ + spec_message(e) + spec_joined_from(v, i + 1, false)
            },
        }
    }
}

/// The comma-joined messages of every error present in `v`.
pub open spec fn spec_joined(v: Seq<Option<AniRustError>>) -> Seq<char> {
    spec_joined_from(v, 0, true)
}

/// Joins the messages of the errors collected over several attempts into
/// one diagnosable string, comma-separated, in collection order.
pub fn anirust_error_vec_to_string(error_vec: Vec<Option<AniRustError>>) -> (r: String)
    ensures
        r@ == spec_joined(error_vec@),
{
    joined_messages(&error_vec)
}

/// As [`anirust_error_vec_to_string`], over a borrowed list.
pub fn joined_messages(error_vec: &Vec<Option<AniRustError>>) -> (r: String)
    ensures
        r@ == spec_joined(error_vec@),
{
    let mut out = String::new();
    let mut first = true;
    let mut i: usize = 0;
    while i < error_vec.len()
        invariant
            i <= error_vec@.len(),
            out@ + spec_joined_from(error_vec@, i as int, first) == spec_joined(error_vec@),
        decreases error_vec@.len() - i,
    {
        match &error_vec[i] {
            None => {},
            Some(e) => {
                if first {
                    out.append(e.message().as_str());
                    first = false;
                } else {
                    out.append(", ");
                    out.append(e.message().as_str());
                }
            },
        }
        i = i + 1;
    }
    out
}

} // verus!
