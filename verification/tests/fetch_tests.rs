use std::io::Read;
use std::io::Write;

use anirust::errors::AniRustError;
use anirust::fetch::{
    decode_body, extract_json_field, fetch_text_from_outcomes, utf8_to_string, FetchRetry,
    TransportOutcome,
};
use anirust::multidomain::MultiDomainResolver;

fn failures(n: usize) -> Vec<TransportOutcome> {
    let mut v = Vec::new();
    for _ in 0..n {
        v.push(TransportOutcome::Failure("connect timed out".to_string()));
    }
    v
}

#[test]
fn retry_bound_is_exact() {
    // A transport that always fails: the fetch consumes exactly the
    // attempt budget, no more, and reports the retry error.
    let outcomes = failures(10);
    let (used, result) = fetch_text_from_outcomes(1, false, &outcomes, 3);
    assert_eq!(used, 3);
    assert_eq!(result, Err(AniRustError::FailedToFetchAfterRetries));
}

#[test]
fn retry_stops_at_first_success() {
    let mut outcomes = failures(2);
    outcomes.push(TransportOutcome::Success(String::new(), b"hello".to_vec()));
    outcomes.push(TransportOutcome::Failure("never reached".to_string()));
    let (used, result) = fetch_text_from_outcomes(1, false, &outcomes, 50);
    assert_eq!(used, 3);
    assert_eq!(result, Ok("hello".to_string()));
}

#[test]
fn empty_pool_fails_immediately() {
    let outcomes = failures(1);
    let (used, result) = fetch_text_from_outcomes(0, false, &outcomes, 3);
    assert_eq!(used, 0);
    assert_eq!(result, Err(AniRustError::NoProxiesAvailable));
}

#[test]
fn empty_pool_with_direct_fallback_proceeds() {
    let outcomes = vec![TransportOutcome::Success(String::new(), b"direct".to_vec())];
    let (used, result) = fetch_text_from_outcomes(0, true, &outcomes, 3);
    assert_eq!(used, 1);
    assert_eq!(result, Ok("direct".to_string()));
}

#[test]
fn retry_tracker_counts() {
    let mut retry = FetchRetry::new(3);
    let mut attempts = 0;
    while retry.wants_attempt() {
        retry.record_failure();
        attempts += 1;
    }
    assert_eq!(attempts, 3);
    assert!(!retry.wants_attempt());
    assert_eq!(
        retry.exhausted_error(),
        AniRustError::FailedToFetchAfterRetries
    );
}

#[test]
fn decode_body_gzip() {
    let mut enc = flate2::write::GzEncoder::new(Vec::new(), flate2::Compression::default());
    enc.write_all(b"gzip body text").unwrap();
    let compressed = enc.finish().unwrap();
    assert_ne!(compressed, b"gzip body text".to_vec());
    assert_eq!(decode_body("gzip", &compressed), "gzip body text");
}

#[test]
fn decode_body_deflate() {
    let mut enc = flate2::write::ZlibEncoder::new(Vec::new(), flate2::Compression::default());
    enc.write_all(b"deflate body text").unwrap();
    let compressed = enc.finish().unwrap();
    assert_eq!(decode_body("deflate", &compressed), "deflate body text");
}

#[test]
fn decode_body_brotli() {
    let mut compressed = Vec::new();
    {
        let mut reader = brotli::CompressorReader::new(&b"brotli body text"[..], 4096, 5, 22);
        reader.read_to_end(&mut compressed).unwrap();
    }
    assert_ne!(compressed, b"brotli body text".to_vec());
    assert_eq!(decode_body("br", &compressed), "brotli body text");
}

#[test]
fn decode_body_raw_and_corrupt() {
    assert_eq!(decode_body("", &b"plain".to_vec()), "plain");
    assert_eq!(decode_body("identity", &b"plain".to_vec()), "plain");
    assert_eq!(decode_body("gzip", &b"not gzip at all".to_vec()), "");
    assert_eq!(decode_body("", &vec![0xff, 0xfe]), "");
}

#[test]
fn utf8_conversion() {
    assert_eq!(utf8_to_string(&b"ok".to_vec()), Some("ok".to_string()));
    assert_eq!(utf8_to_string(&vec![0xff, 0xfe]), None);
}

#[test]
fn json_field_extraction_is_permissive() {
    assert_eq!(extract_json_field(r#"{"html": "<li>x</li>"}"#, "html"), "<li>x</li>");
    assert_eq!(extract_json_field(r#"{"html": "x"}"#, "link"), "");
    assert_eq!(extract_json_field(r#"{"html": 3}"#, "html"), "");
    assert_eq!(extract_json_field("not json", "html"), "");
}

#[test]
fn domain_fallback_takes_first_non_empty() {
    // Three domains; only the third returns a non-empty body. The
    // resolver must consume exactly three fetches and hand that body
    // back.
    let domains = vec![
        "https://a.example".to_string(),
        "https://b.example".to_string(),
        "https://c.example".to_string(),
    ];
    let mut resolver = MultiDomainResolver::new(domains);
    let mut fetches = 0;

    let url1 = resolver.current_url("/home").unwrap();
    assert_eq!(url1, "https://a.example/home");
    fetches += 1;
    resolver.record_failure(AniRustError::NetworkError("refused".to_string()));

    let url2 = resolver.current_url("/home").unwrap();
    assert_eq!(url2, "https://b.example/home");
    fetches += 1;
    let r2 = resolver.record_body(String::new());
    assert_eq!(r2, None);

    let url3 = resolver.current_url("/home").unwrap();
    assert_eq!(url3, "https://c.example/home");
    fetches += 1;
    let r3 = resolver.record_body("<html>body</html>".to_string());
    assert_eq!(r3, Some("<html>body</html>".to_string()));

    assert_eq!(fetches, 3);
}

#[test]
fn domain_fallback_aggregates_failures() {
    let domains = vec!["https://a.example".to_string(), "https://b.example".to_string()];
    let mut resolver = MultiDomainResolver::new(domains);
    resolver.record_failure(AniRustError::NetworkError("refused".to_string()));
    let _ = resolver.record_body(String::new());
    assert!(resolver.exhausted());
    assert!(resolver.current_url("/p").is_none());
    match resolver.failure() {
        AniRustError::UnknownError(m) => {
            assert_eq!(m, "Network error: refused, Std error occured: empty body");
        }
        other => panic!("unexpected error: {:?}", other),
    }
}
