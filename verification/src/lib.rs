//! Resilient content retrieval and stream-source decryption.
//!
//! The crate models a pipeline that fetches an embed page's source
//! manifest, recovers the key-derivation offsets from the embed player's
//! obfuscated script, reconstructs the cipher secret, and decrypts the
//! source list with an OpenSSL-style salted key derivation followed by
//! AES-256-CBC. A retry/fallback layer models fetching through rotating
//! proxies and mirror domains.

pub mod catalog;
pub mod cipher;
pub mod env;
pub mod errors;
pub mod extractor;
pub mod fetch;
pub mod json;
pub mod model;
pub mod multidomain;
pub mod proxy;
pub mod secret;
pub mod servers;
pub mod utils;

use vstd::prelude::*;

verus! {

/// This function adds two numbers together.
pub fn add(a: i32, b: i32) -> (r: i32)
    requires
        i32::MIN <= a + b <= i32::MAX,
    ensures
        r == a + b,
{
    a + b
}

/// This function multiplies two numbers together.
pub fn multiply(a: i32, b: i32) -> (r: i32)
    requires
        i32::MIN <= a * b <= i32::MAX,
    ensures
        r == a * b,
{
    a * b
}

} // verus!
