use anirust::errors::AniRustError;
use anirust::extractor::extract_variables;
use anirust::secret::get_secret;
use anirust::servers::MegaCloudServer;

const SCRIPT: &str = "switch(x){case 0x0:U=Da,O=Db;case 0x1:P=Dc,Q=Dd;} ,Da=0x1,Db=0x4,Dc=0x2,Dd=0x3";

#[test]
fn extractor_reads_pairs_in_order() {
    let pairs = extract_variables(SCRIPT).unwrap();
    assert_eq!(pairs, vec![(1, 4), (2, 3)]);
}

#[test]
fn extractor_tolerates_whitespace() {
    // Whitespace is flexible around the assignments, while the colon
    // hugs the hex literal and the semicolon hugs the second name.
    let script = "case 0x2a: v1 = Ka , v2 = Kb;junk,Ka=0x10,Kb=0x20";
    let pairs = extract_variables(script).unwrap();
    assert_eq!(pairs, vec![(16, 32)]);
}

#[test]
fn extractor_excludes_part_key_cases() {
    // The second branch matches the case pattern but is marked by the
    // partKey symbol, so it must not contribute a pair.
    let script =
        "case 0x0:U=Da,O=Db;case 0x1:partKeyVar=Dc,Q=Dd;,Da=0x1,Db=0x4,Dc=0x2,Dd=0x3";
    let pairs = extract_variables(script).unwrap();
    assert_eq!(pairs, vec![(1, 4)]);
}

#[test]
fn extractor_drops_unresolved_names() {
    // Db has no `,Db=<hex>` assignment anywhere, so the pair is
    // silently dropped rather than aborting the extraction.
    let script = "case 0x0:U=Da,O=Db;case 0x1:P=Dc,Q=Dd;,Da=0x1,Dc=0x2,Dd=0x3";
    let pairs = extract_variables(script).unwrap();
    assert_eq!(pairs, vec![(2, 3)]);
}

#[test]
fn extractor_drops_oversized_values() {
    let script = "case 0x0:U=Da,O=Db;,Da=0x1ffffffff,Db=0x4";
    let pairs = extract_variables(script).unwrap();
    assert_eq!(pairs, Vec::new());
}

#[test]
fn extractor_accepts_decimal_looking_hex() {
    // `,Da=12` has no 0x prefix; the digits still parse as base 16.
    let script = "case 0x0:U=Da,O=Db;,Da=12,Db=f";
    let pairs = extract_variables(script).unwrap();
    assert_eq!(pairs, vec![(0x12, 0xf)]);
}

#[test]
fn extractor_empty_script_is_empty() {
    assert_eq!(extract_variables("nothing to see here").unwrap(), Vec::new());
}

#[test]
fn reconstruction_partitions_the_string() {
    let pairs = vec![(0, 2), (1, 3)];
    let (secret, remaining) = get_secret("abcdefghij", &pairs);
    // Pair one reads [0,2); the cursor moves to 2; pair two starts at
    // 2 + 1 and reads [3,6).
    assert_eq!(secret, "abdef");
    assert_eq!(remaining, "cghij");
    assert_eq!(secret.len() + remaining.len(), 10);
}

#[test]
fn reconstruction_out_of_bounds_truncates() {
    let pairs = vec![(8, 10)];
    let (secret, remaining) = get_secret("abcde", &pairs);
    assert_eq!(secret, "");
    assert_eq!(remaining, "abcde");
}

#[test]
fn reconstruction_empty_pairs() {
    let (secret, remaining) = get_secret("abc", &Vec::new());
    assert_eq!(secret, "");
    assert_eq!(remaining, "abc");
}

#[test]
fn stale_script_is_its_own_error() {
    let r = MegaCloudServer::decrypt_sources_text("whatever", "no cases in here");
    assert_eq!(r, Err(AniRustError::ObfuscationStale));
}
