use anirust::catalog::{server_from_fields, update_server_id, AnimeServer, EpisodeType, Server};
use anirust::env::{initialize_secret, EnvVar, SecretConfig};
use anirust::errors::{anirust_error_vec_to_string, AniRustError};
use anirust::proxy::{combine_proxy_pools, get_random_proxy, parse_proxy_list, Proxy};
use anirust::utils::{
    bytes_to_hex, parse_usize, substring_after, substring_before, u64_to_dec_string,
};

#[test]
fn parse_usize_accepts_digits() {
    assert_eq!(parse_usize("0").unwrap(), 0);
    assert_eq!(parse_usize("50").unwrap(), 50);
    assert_eq!(parse_usize("+50").unwrap(), 50);
    assert_eq!(parse_usize("18446744073709551615").unwrap(), usize::MAX);
}

#[test]
fn parse_usize_rejects_bad_input() {
    assert!(matches!(parse_usize(""), Err(AniRustError::ParseIntError(_))));
    assert!(matches!(parse_usize("12a"), Err(AniRustError::ParseIntError(_))));
    assert!(matches!(parse_usize("-3"), Err(AniRustError::ParseIntError(_))));
    assert!(matches!(parse_usize("+"), Err(AniRustError::ParseIntError(_))));
    assert!(matches!(parse_usize("++5"), Err(AniRustError::ParseIntError(_))));
    assert!(matches!(parse_usize("+ 5"), Err(AniRustError::ParseIntError(_))));
    assert!(matches!(
        parse_usize("18446744073709551616"),
        Err(AniRustError::ParseIntError(_))
    ));
}

#[test]
fn parse_usize_matches_std_parser() {
    for s in ["", "0", "+0", "7", "+7", "050", "+050", "a", "+a", "++1", "-1", " 5", "5 "] {
        assert_eq!(parse_usize(s).ok(), s.parse::<usize>().ok(), "input {:?}", s);
    }
}

#[test]
fn substring_helpers() {
    assert_eq!(substring_after("key=value", "="), "value");
    assert_eq!(substring_after("a::b::c", "::"), "b::c");
    assert_eq!(substring_after("abc", "x"), "");
    assert_eq!(substring_before("key=value", "="), "key");
    assert_eq!(substring_before("a::b::c", "::"), "a");
    assert_eq!(substring_before("abc", "x"), "");
}

#[test]
fn number_rendering() {
    assert_eq!(u64_to_dec_string(0), "0");
    assert_eq!(u64_to_dec_string(907), "907");
    assert_eq!(u64_to_dec_string(u64::MAX), "18446744073709551615");
    assert_eq!(bytes_to_hex(&vec![0x00, 0xff, 0x1a]), "00ff1a");
    assert_eq!(bytes_to_hex(&Vec::new()), "");
}

#[test]
fn error_messages() {
    assert_eq!(
        AniRustError::NetworkError("boom".to_string()).message(),
        "Network error: boom"
    );
    assert_eq!(
        AniRustError::NoProxiesAvailable.message(),
        "No proxies available"
    );
    assert_eq!(
        AniRustError::FailedToFetchAfterRetries.message(),
        "Failed to fetch after retries"
    );
    assert_eq!(
        AniRustError::NoDomainExists("site".to_string()).message(),
        "No domain added for: site"
    );
    assert_eq!(
        AniRustError::ObfuscationStale.message(),
        "Can't find variables. Perhaps the extractor is outdated."
    );
    assert_eq!(
        AniRustError::NoMatchingServer.message(),
        "No matching server"
    );
}

#[test]
fn error_vec_joins_messages() {
    let joined = anirust_error_vec_to_string(vec![
        Some(AniRustError::NoProxiesAvailable),
        None,
        Some(AniRustError::UnknownError("x".to_string())),
    ]);
    assert_eq!(joined, "No proxies available, Std error occured: x");
    assert_eq!(anirust_error_vec_to_string(Vec::new()), "");
}

#[test]
fn proxy_list_parsing() {
    let proxies = parse_proxy_list("1.2.3.4:80\n\n  5.6.7.8:1080  \r\n9.9.9.9:3128");
    let addrs: Vec<&str> = proxies.iter().map(|p| p.address.as_str()).collect();
    assert_eq!(addrs, vec!["1.2.3.4:80", "5.6.7.8:1080", "9.9.9.9:3128"]);
    assert_eq!(parse_proxy_list("").len(), 0);
    assert_eq!(parse_proxy_list("\n \n\t\n").len(), 0);
}

#[test]
fn proxy_pool_combination_keeps_order() {
    let a = parse_proxy_list("a:1");
    let b = parse_proxy_list("b:2");
    let c = parse_proxy_list("c:3\nc:4");
    let all = combine_proxy_pools(a, b, c);
    let addrs: Vec<&str> = all.iter().map(|p| p.address.as_str()).collect();
    assert_eq!(addrs, vec!["a:1", "b:2", "c:3", "c:4"]);
}

#[test]
fn random_proxy_pick() {
    assert!(get_random_proxy(&[]).is_none());
    let pool = parse_proxy_list("a:1\nb:2\nc:3");
    for _ in 0..20 {
        let picked = get_random_proxy(&pool).unwrap();
        assert!(pool.iter().any(|p| p.address == picked.address));
    }
}

#[test]
fn server_names_round_trip() {
    for name in ["vidsrc", "megacloud", "streamsb", "streamtape", "vidcloud"] {
        assert_eq!(AnimeServer::from_str(name).as_str(), name);
    }
    assert_eq!(AnimeServer::from_str("anything else"), AnimeServer::Vidstreaming);
    for name in ["sub", "dub", "raw"] {
        assert_eq!(EpisodeType::from_str(name).as_str(), name);
    }
    assert_eq!(EpisodeType::from_str("other"), EpisodeType::Sub);
}

#[test]
fn server_descriptor_from_scraped_fields() {
    let s = server_from_fields("  VidSrc \n", Some("4"), Some("41"));
    assert_eq!(s.server_name, "vidsrc");
    assert_eq!(s.server_id, 4);
    assert_eq!(s.data_id, 41);

    let s = server_from_fields("StreamTape", Some(" +7 "), None);
    assert_eq!(s.server_name, "streamtape");
    assert_eq!(s.server_id, 7);
    assert_eq!(s.data_id, 0);

    let s = server_from_fields("x", Some("abc"), Some("99999999999"));
    assert_eq!(s.server_id, 0);
    assert_eq!(s.data_id, 0);
}

#[test]
fn server_selection_takes_first_match() {
    let servers = vec![
        Server { server_name: "streamtape".to_string(), server_id: 3, data_id: 31 },
        Server { server_name: "vidsrc".to_string(), server_id: 4, data_id: 41 },
        Server { server_name: "vidsrc".to_string(), server_id: 5, data_id: 51 },
    ];
    let mut server_id = 0;
    let mut data_id = 0;
    update_server_id(&mut server_id, &mut data_id, servers.clone(), None);
    assert_eq!((server_id, data_id), (4, 41));

    update_server_id(
        &mut server_id,
        &mut data_id,
        servers.clone(),
        Some(AnimeServer::Streamtape),
    );
    assert_eq!((server_id, data_id), (3, 31));

    let mut sid = 7;
    let mut did = 8;
    update_server_id(&mut sid, &mut did, servers, Some(AnimeServer::Vidcloud));
    assert_eq!((sid, did), (7, 8));
}

#[test]
fn config_snapshot() {
    let config = SecretConfig::new(
        "50".to_string(),
        "hook-reqwest".to_string(),
        "hook-noproxy".to_string(),
        "hook-retries".to_string(),
        "hook-utils".to_string(),
        "hook-unknown".to_string(),
        "http://feed".to_string(),
        "http://sock4".to_string(),
        "http://sock5".to_string(),
        "https://a,https://b".to_string(),
        "agent".to_string(),
        "gzip, deflate, br".to_string(),
        "text/html".to_string(),
    );
    assert_eq!(config.get(&EnvVar::MAX_RETRIES_ATTEMPTS), "50");
    assert_eq!(config.get(&EnvVar::HIANIME_DOMAINS), "https://a,https://b");
    assert_eq!(EnvVar::MAX_RETRIES_ATTEMPTS.as_str(), "MAX_RETRIES_ATTEMPTS");
    assert_eq!(EnvVar::ACCEPT_HEADER.as_str(), "ACCEPT_HEADER");

    assert_eq!(
        config.webhook_url(&AniRustError::NetworkError("x".to_string())),
        "hook-reqwest"
    );
    assert_eq!(config.webhook_url(&AniRustError::NoProxiesAvailable), "hook-noproxy");
    assert_eq!(
        config.webhook_url(&AniRustError::FailedToFetchAfterRetries),
        "hook-retries"
    );
    assert_eq!(
        config.webhook_url(&AniRustError::ParseIntError("x".to_string())),
        "hook-utils"
    );
    assert_eq!(config.webhook_url(&AniRustError::NoDomainExists("s".to_string())), "");
    assert_eq!(config.webhook_url(&AniRustError::DecryptionFailed), "hook-unknown");

    let snapshot = initialize_secret(Some(config));
    assert!(snapshot.is_some());
    assert!(initialize_secret(None).is_none());
}
