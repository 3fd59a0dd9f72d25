use anirust::cipher::{derive_key_iv, encrypt_aes_256_cbc};
use anirust::errors::AniRustError;
use anirust::servers::{
    extract_video_id, get_encoded_video_id, get_payload, player_script_url, sources_url,
    streamsb_url, ManifestSources, MegaCloudServer, ServerExtractedInfo, Source,
    StreamTapeServer,
};

#[test]
fn plaintext_manifest_end_to_end() {
    let body = r#"{"encrypted": false, "sources": [{"file":"https://x/a.m3u8","type":"hls"}], "tracks": [], "intro": {"start":0,"end":0}, "outro":{"start":0,"end":0}}"#;
    let manifest = MegaCloudServer::parse_manifest(body).unwrap();
    assert!(!manifest.encrypted);
    assert_eq!(manifest.intro.start, 0);
    assert_eq!(manifest.intro.end, 0);
    assert_eq!(manifest.outro.start, 0);
    assert_eq!(manifest.outro.end, 0);
    assert_eq!(manifest.tracks, Vec::new());
    match manifest.sources {
        ManifestSources::Plain(sources) => {
            assert_eq!(
                sources,
                vec![Source { url: "https://x/a.m3u8".to_string(), src_type: "hls".to_string() }]
            );
        }
        ManifestSources::Encrypted(_) => panic!("manifest should be plaintext"),
    }
}

#[test]
fn manifest_defaults_and_errors() {
    // Absent intro and outro are the intentional zero range; absent
    // tracks are unexpected and err.
    let ok = r#"{"encrypted": false, "sources": [], "tracks": [{"file":"f","kind":"captions"}]}"#;
    let manifest = MegaCloudServer::parse_manifest(ok).unwrap();
    assert_eq!(manifest.intro.start, 0);
    assert_eq!(manifest.outro.end, 0);
    assert_eq!(manifest.tracks.len(), 1);
    assert_eq!(manifest.tracks[0].file, "f");
    assert_eq!(manifest.tracks[0].kind, "captions");
    assert_eq!(manifest.tracks[0].label, None);
    assert_eq!(manifest.tracks[0].default, None);

    let no_tracks = r#"{"encrypted": false, "sources": []}"#;
    assert!(MegaCloudServer::parse_manifest(no_tracks).is_err());

    let bad_track = r#"{"encrypted": false, "sources": [], "tracks": [{"kind":"captions"}]}"#;
    assert!(MegaCloudServer::parse_manifest(bad_track).is_err());

    assert!(MegaCloudServer::parse_manifest("not json").is_err());
}

#[test]
fn encrypted_manifest_keeps_the_blob() {
    let body = r#"{"encrypted": true, "sources": "QUJD", "tracks": []}"#;
    let manifest = MegaCloudServer::parse_manifest(body).unwrap();
    assert!(manifest.encrypted);
    match manifest.sources {
        ManifestSources::Encrypted(blob) => assert_eq!(blob, "QUJD"),
        ManifestSources::Plain(_) => panic!("manifest should be encrypted"),
    }
}

#[test]
fn decrypted_path_end_to_end() {
    // A fabricated script whose two case branches resolve to
    // (0, 4) and (0, 4): the secret is the first eight characters of
    // the combined blob, the rest is the base64 ciphertext.
    let script = "switch(x){case 0x0:U=Da,O=Db;case 0x1:P=Dc,Q=Dd;} ,Da=0x0,Db=0x4,Dc=0x0,Dd=0x4";
    let secret = "mySecret";
    let plaintext = r#"[{"file":"https://x/a.m3u8","type":"hls"}]"#;
    let salt = b"12345678".to_vec();
    let (key, iv) = derive_key_iv(&secret.as_bytes().to_vec(), &salt);
    let ciphertext = encrypt_aes_256_cbc(&iv, &key, plaintext.as_bytes());
    let blob = [b"Salted__".to_vec(), salt, ciphertext].concat();
    let combined = format!("{}{}", secret, base64::encode(blob));

    let decrypted = MegaCloudServer::decrypt_sources_text(&combined, script).unwrap();
    assert_eq!(decrypted, plaintext);

    let sources = anirust::servers::parse_decrypted_sources(&decrypted).unwrap();
    assert_eq!(
        sources,
        vec![Source { url: "https://x/a.m3u8".to_string(), src_type: "hls".to_string() }]
    );
}

#[test]
fn decrypted_path_wrong_secret_fails() {
    let script = "switch(x){case 0x0:U=Da,O=Db;case 0x1:P=Dc,Q=Dd;} ,Da=0x0,Db=0x4,Dc=0x0,Dd=0x4";
    let secret = "mySecret";
    let plaintext = r#"[{"file":"https://x/a.m3u8","type":"hls"}]"#;
    let salt = b"12345678".to_vec();
    let (key, iv) = derive_key_iv(&b"otherKey".to_vec(), &salt);
    let ciphertext = encrypt_aes_256_cbc(&iv, &key, plaintext.as_bytes());
    let blob = [b"Salted__".to_vec(), salt, ciphertext].concat();
    let combined = format!("{}{}", secret, base64::encode(blob));
    assert_eq!(
        MegaCloudServer::decrypt_sources_text(&combined, script),
        Err(AniRustError::DecryptionFailed)
    );
}

#[test]
fn stream_tape_scenario() {
    let html = "<script>document.getElementById('robotlink').innerHTML = 'AB' + ('XYZuvw'</script>";
    match StreamTapeServer::extract_from_html(html).unwrap() {
        ServerExtractedInfo::StreamTape(d) => {
            assert_eq!(d.url, "https:ABuvw");
            assert!(!d.is_m3u8);
        }
        ServerExtractedInfo::MegaCloud(_) => panic!("wrong family"),
    }
}

#[test]
fn stream_tape_detects_hls() {
    let html = "robotlink').innerHTML = '//host/path' + ('XYZ/x.m3u8'";
    match StreamTapeServer::extract_from_html(html).unwrap() {
        ServerExtractedInfo::StreamTape(d) => {
            assert_eq!(d.url, "https://host/path/x.m3u8");
            assert!(d.is_m3u8);
        }
        ServerExtractedInfo::MegaCloud(_) => panic!("wrong family"),
    }
}

#[test]
fn stream_tape_no_pattern_is_an_error() {
    let r = StreamTapeServer::extract_from_html("<html>no robot link here</html>");
    assert!(matches!(r, Err(AniRustError::FailedToFetchAfterRetries)));
}

#[test]
fn video_id_extraction() {
    assert_eq!(extract_video_id("https://host/embed-2/e-1/abcDEF?k=1&z=2"), "abcDEF");
    assert_eq!(extract_video_id("https://host/embed-2/e-1/abcDEF"), "abcDEF");
    assert_eq!(extract_video_id("no-slashes?x"), "no-slashes");
}

#[test]
fn encoded_video_id_extraction() {
    assert_eq!(get_encoded_video_id("https://h/e/QQQ.html?x=1"), b"QQQ".to_vec());
    assert_eq!(get_encoded_video_id("https://h/e/QQQ"), b"QQQ".to_vec());
}

#[test]
fn clock_reads_past_a_known_moment() {
    // The cache-buster comes from the system clock; any sane clock is
    // well past this moment.
    assert!(anirust::servers::now_unix_millis() > 1_600_000_000_000);
}

#[test]
fn url_builders() {
    assert_eq!(
        sources_url("vid123"),
        "https://megacloud.tv/embed-2/ajax/e-1/getSources?id=vid123"
    );
    assert_eq!(
        player_script_url(1700000000123),
        "https://megacloud.tv/js/player/a/prod/e1-player.min.js?v=1700000000123"
    );
    assert_eq!(
        streamsb_url(Some(true), "abcd"),
        "https://streamsss.net/sources16/abcd"
    );
    assert_eq!(
        streamsb_url(None, "abcd"),
        "https://watchsb.com/sources50/abcd"
    );
    let payload = get_payload("aa11");
    assert!(payload.starts_with("566d337678566f743674494a7c7caa117c7c"));
    assert!(payload.ends_with("73747265616d7362"));
}
