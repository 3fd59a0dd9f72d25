//! The resilient fetch layer's decision core.
//!
//! One logical GET is up to `max_attempts` transport attempts, each
//! through a randomly picked proxy (or direct, when the pool is
//! intentionally empty and direct connections are allowed). The caller
//! performs the transport attempts and hands their outcomes in; this
//! module decides when to stop, decompresses the winning body and turns
//! it into text. A successful body is decompressed according to its
//! `Content-Encoding` (gzip, deflate or brotli); an unknown or absent
//! encoding is treated as raw UTF-8; undecodable input degrades to the
//! empty string.

use vstd::prelude::*;
use vstd::string::*;
use vstd::utf8::{decode_utf8, valid_utf8};

use crate::errors::AniRustError;
use crate::json::{json_string_field, json_string_field_of};
use crate::utils::str_eq;

verus! {

/// What `flate2`'s gzip decoder yields on a byte string, `None` for a
/// corrupt stream.
pub uninterp spec fn gzip_decode_of(bytes: Seq<u8>) -> Option<Seq<u8>>;

/// What `flate2`'s zlib (deflate) decoder yields on a byte string,
/// `None` for a corrupt stream.
pub uninterp spec fn zlib_decode_of(bytes: Seq<u8>) -> Option<Seq<u8>>;

/// What `brotli`'s decoder yields on a byte string, `None` for a
/// corrupt stream.
pub uninterp spec fn brotli_decode_of(bytes: Seq<u8>) -> Option<Seq<u8>>;

/// Relies on `flate2::read::GzDecoder`: reading it to the end yields the
/// gzip decompression of its input, a function of the input alone.
#[verifier::external_body]
fn gzip_decode(bytes: &Vec<u8>) -> (r: Option<Vec<u8>>)
    ensures
        (r is None) == (gzip_decode_of(bytes@) is None),
        r matches Some(v) ==> gzip_decode_of(bytes@) == Some(v@),
{
    let mut decoded = Vec::new();
    let mut gz = flate2::read::GzDecoder::new(bytes.as_slice());
    match std::io::Read::read_to_end(&mut gz, &mut decoded) {
        Ok(_) => Some(decoded),
        Err(_) => None,
    }
}

/// Relies on `flate2::read::ZlibDecoder`: reading it to the end yields
/// the zlib decompression of its input, a function of the input alone.
#[verifier::external_body]
fn zlib_decode(bytes: &Vec<u8>) -> (r: Option<Vec<u8>>)
    ensures
        (r is None) == (zlib_decode_of(bytes@) is None),
        r matches Some(v) ==> zlib_decode_of(bytes@) == Some(v@),
{
    let mut decoded = Vec::new();
    let mut zf = flate2::read::ZlibDecoder::new(bytes.as_slice());
    match std::io::Read::read_to_end(&mut zf, &mut decoded) {
        Ok(_) => Some(decoded),
        Err(_) => None,
    }
}

/// Relies on `brotli::Decompressor`: reading it to the end yields the
/// brotli decompression of its input, a function of the input alone.
#[verifier::external_body]
fn brotli_decode(bytes: &Vec<u8>) -> (r: Option<Vec<u8>>)
    ensures
        (r is None) == (brotli_decode_of(bytes@) is None),
        r matches Some(v) ==> brotli_decode_of(bytes@) == Some(v@),
{
    let mut decoded = Vec::new();
    let mut de = brotli::Decompressor::new(bytes.as_slice(), 4096);
    match std::io::Read::read_to_end(&mut de, &mut decoded) {
        Ok(_) => Some(decoded),
        Err(_) => None,
    }
}

/// Relies on `String::from_utf8`: succeeds exactly on valid UTF-8 and
/// decodes it.
#[verifier::external_body]
pub fn utf8_to_string(bytes: &Vec<u8>) -> (r: Option<String>)
    ensures
        (r is Some) == valid_utf8(bytes@),
        r matches Some(s) ==> s@ == decode_utf8(bytes@),
{
    String::from_utf8(bytes.clone()).ok()
}

/// The text a response body denotes under a `Content-Encoding`: the
/// matching decompression first, then UTF-8; failure of either step
/// degrades to the empty string.
pub open spec fn spec_decoded_body(enc: Seq<char>, bytes: Seq<u8>) -> Seq<char> {
    let raw = if enc == "gzip"@ {
        gzip_decode_of(bytes)
    } else if enc == "deflate"@ {
        zlib_decode_of(bytes)
    } else if enc == "br"@ {
        brotli_decode_of(bytes)
    } else {
        Some(bytes)
    };
    match raw {
        None => Seq::empty(),
        Some(b) => if valid_utf8(b) {
            decode_utf8(b)
        } else {
            Seq::empty()
        },
    }
}

/// Decompresses a response body according to its `Content-Encoding` and
/// decodes it as UTF-8 text.
pub fn decode_body(content_encoding: &str, bytes: &Vec<u8>) -> (r: String)
    ensures
        r@ == spec_decoded_body(content_encoding@, bytes@),
{
    let raw: Option<Vec<u8>> = if str_eq(content_encoding, "gzip") {
        gzip_decode(bytes)
    } else if str_eq(content_encoding, "deflate") {
        zlib_decode(bytes)
    } else if str_eq(content_encoding, "br") {
        brotli_decode(bytes)
    } else {
        Some(bytes.clone())
    };
    match raw {
        None => String::new(),
        Some(b) => {
            match utf8_to_string(&b) {
                Some(s) => s,
                None => String::new(),
            }
        },
    }
}

/// The outcome of one transport attempt: a failure message, or a
/// response with its `Content-Encoding` and raw body bytes.
pub enum TransportOutcome {
    Failure(String),
    Success(String, Vec<u8>),
}

/// The least index `>= i` below `bound` whose outcome is a response.
pub open spec fn first_success_from(outs: Seq<TransportOutcome>, bound: int, i: int) -> Option<
    int,
>
    decreases bound - i,
{
    if i < 0 || i >= bound || i >= outs.len() {
        None
    } else if outs[i] is Success {
        Some(i)
    } else {
        first_success_from(outs, bound, i + 1)
    }
}

proof fn lemma_first_success_some(outs: Seq<TransportOutcome>, bound: int, k: int, i: int)
    requires
        0 <= k <= i < bound,
        i < outs.len(),
        outs[i] is Success,
        forall|j: int| k <= j < i ==> !(outs[j] is Success),
    ensures
        first_success_from(outs, bound, k) == Some(i),
    decreases i - k,
{
    if k < i {
        lemma_first_success_some(outs, bound, k + 1, i);
    }
}

proof fn lemma_first_success_none(outs: Seq<TransportOutcome>, bound: int, k: int)
    requires
        0 <= k,
        forall|j: int| k <= j < bound && j < outs.len() ==> !(outs[j] is Success),
    ensures
        first_success_from(outs, bound, k) is None,
    decreases bound - k,
{
    if k < bound && k < outs.len() {
        lemma_first_success_none(outs, bound, k + 1);
    }
}

/// Law: against a transport that always fails, no attempt within any
/// budget succeeds, so the fetch ends in the retry error after exactly
/// the budgeted number of attempts (as the contract of
/// [`fetch_text_from_outcomes`] then states).
pub proof fn lemma_all_failures_exhaust(outs: Seq<TransportOutcome>, bound: int)
    requires
        forall|j: int| 0 <= j < outs.len() ==> !((#[trigger] outs[j]) is Success),
    ensures
        first_success_from(outs, bound, 0) is None,
{
    lemma_first_success_none(outs, bound, 0);
}

/// The decision core of one logical GET, over the outcomes of the
/// transport attempts in order: an empty pool without a direct-connect
/// fallback fails immediately; otherwise the first response within the
/// attempt budget wins and its body is decoded; a budget of failures
/// ends the fetch after exactly `max_attempts` tries. Returns how many
/// attempts were consumed, with the result.
pub fn fetch_text_from_outcomes(
    pool_len: usize,
    allow_direct: bool,
    outcomes: &Vec<TransportOutcome>,
    max_attempts: usize,
) -> (r: (usize, Result<String, AniRustError>))
    ensures
        ({
            let bound = if max_attempts <= outcomes@.len() {
                max_attempts as int
            } else {
                outcomes@.len() as int
            };
            if pool_len == 0 && !allow_direct {
                r.0 == 0 && r.1 == Err::<String, AniRustError>(AniRustError::NoProxiesAvailable)
            } else {
                match first_success_from(outcomes@, bound, 0) {
                    Some(i) => r.0 == i + 1 && (outcomes@[i] matches TransportOutcome::Success(
                        e,
                        b,
                    ) && r.1 matches Ok(t) && t@ == spec_decoded_body(e@, b@)),
                    None => r.0 == bound && r.1 == Err::<String, AniRustError>(
                        AniRustError::FailedToFetchAfterRetries,
                    ),
                }
            }
        }),
{
    if pool_len == 0 && !allow_direct {
        return (0, Err(AniRustError::NoProxiesAvailable));
    }
    let bound: usize = if max_attempts <= outcomes.len() {
        max_attempts
    } else {
        outcomes.len()
    };
    let mut i: usize = 0;
    while i < bound
        invariant
            pool_len > 0 || allow_direct,
            bound <= outcomes@.len(),
            bound as int == (if max_attempts <= outcomes@.len() {
                max_attempts as int
            } else {
                outcomes@.len() as int
            }),
            i <= bound,
            forall|j: int| 0 <= j < i ==> !(outcomes@[j] is Success),
        decreases bound - i,
    {
        match &outcomes[i] {
            TransportOutcome::Failure(_) => {
                i = i + 1;
            },
            TransportOutcome::Success(e, b) => {
                let t = decode_body(e.as_str(), b);
                proof {
                    lemma_first_success_some(outcomes@, bound as int, 0, i as int);
                }
                return (i + 1, Ok(t));
            },
        }
    }
    proof {
        lemma_first_success_none(outcomes@, bound as int, 0);
    }
    (bound, Err(AniRustError::FailedToFetchAfterRetries))
}

/// Book-keeping for a live retry loop: how many attempts were used, out
/// of how many are allowed.
pub struct FetchRetry {
    pub max_attempts: usize,
    pub used: usize,
}

impl FetchRetry {
    /// A fresh loop with the given attempt budget.
    pub fn new(max_attempts: usize) -> (r: Self)
        ensures
            r.max_attempts == max_attempts,
            r.used == 0,
    {
        FetchRetry { max_attempts, used: 0 }
    }

    /// Whether another transport attempt may be made.
    pub fn wants_attempt(&self) -> (r: bool)
        ensures
            r == (self.used < self.max_attempts),
    {
        self.used < self.max_attempts
    }

    /// Records one failed transport attempt.
    pub fn record_failure(&mut self)
        requires
            old(self).used < old(self).max_attempts,
        ensures
            final(self).used == old(self).used + 1,
            final(self).max_attempts == old(self).max_attempts,
    {
        self.used = self.used + 1;
    }

    /// The error of a loop whose whole budget failed.
    pub fn exhausted_error(&self) -> (r: AniRustError)
        requires
            self.used >= self.max_attempts,
        ensures
            r == AniRustError::FailedToFetchAfterRetries,
    {
        AniRustError::FailedToFetchAfterRetries
    }
}

/// Parses an AJAX response body as JSON and extracts one named field
/// as a string. The contract is deliberately permissive: a missing
/// field, a non-string field or an unparsable body all yield the empty
/// string, never an error.
pub fn extract_json_field(body: &str, field: &str) -> (r: String)
    ensures
        r@ == (match json_string_field_of(body@, field@) {
            Some(s) => s,
            None => Seq::<char>::empty(),
        }),
{
    match json_string_field(body, field) {
        None => String::new(),
        Some(s) => s,
    }
}

} // verus!
