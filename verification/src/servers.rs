//! The embed server pipelines and their typed results.
//!
//! The cipher-based family fetches a source manifest; when its
//! `encrypted` flag is set, the current player script is fetched too,
//! the key extractor recovers the offset pairs, the secret
//! reconstructor splits the blob, and the cipher engine decrypts the
//! remainder. The direct-link family reads a split URL fragment pair
//! straight out of the page. Network fetches stay with the caller; the
//! parsing, reconstruction and decryption here are the pipeline.

use vstd::prelude::*;
use vstd::string::*;
use vstd::utf8::encode_utf8;

use crate::cipher::{decrypt, spec_decrypt_salted};
use crate::errors::AniRustError;
use crate::extractor::{extract_variables, spec_extract_pairs};
use crate::json::{
    json_array_len_field, json_array_len_of, json_bool_field, json_bool_field_of,
    json_record_bool, json_record_bool_of, json_record_string, json_record_string_of,
    json_root_len, json_root_len_of, json_root_string, json_root_string_of, json_string_field,
    json_string_field_of, json_u64_path, json_u64_path_of,
};
use crate::secret::{get_secret, spec_remaining_of, spec_secret_of};
use crate::utils::{
    chars_to_string, contains_sub, copy_range, find_sub, rfind_sub, spec_contains, spec_find,
    spec_rfind, to_chars, u64_to_dec_string, spec_dec_digits,
};

verus! {

/// One subtitle or thumbnail track of the manifest.
#[derive(Debug, Clone, PartialEq, Eq)]
pub struct Track {
    pub file: String,
    pub kind: String,
    pub label: Option<String>,
    pub default: Option<bool>,
}

/// A skip range (intro or outro), in seconds.
#[derive(Debug, Clone, PartialEq, Eq)]
pub struct IntroOutro {
    pub start: u32,
    pub end: u32,
}

impl Default for IntroOutro {
    /// The zero range, standing for an absent intro or outro.
    fn default() -> (r: Self)
        ensures
            r.start == 0,
            r.end == 0,
    {
        IntroOutro { start: 0, end: 0 }
    }
}

/// One source entry of an unencrypted manifest, as delivered.
#[derive(Debug, Clone)]
pub struct MegaCloudUnencryptedSrc {
    pub file: String,
    pub src_type: String,
}

/// One playable source.
#[derive(Debug, Clone, PartialEq, Eq)]
pub struct Source {
    pub url: String,
    pub src_type: String,
}

/// The final result of the cipher-based pipeline.
#[derive(Debug, Clone)]
pub struct MegaCloudExtractedData {
    pub intro: IntroOutro,
    pub outro: IntroOutro,
    pub tracks: Vec<Track>,
    pub sources: Vec<Source>,
}

/// The final result of the direct-link pipeline.
#[derive(Debug, Clone, PartialEq, Eq)]
pub struct StreamTapeExtractedData {
    pub url: String,
    pub is_m3u8: bool,
}

/// What an extraction yields; callers discriminate on the server
/// family, not on payload shape.
#[derive(Debug, Clone)]
pub enum ServerExtractedInfo {
    MegaCloud(MegaCloudExtractedData),
    StreamTape(StreamTapeExtractedData),
}

/// The manifest's source list: already structured, or an encrypted
/// blob still to be decrypted.
#[derive(Debug, Clone)]
pub enum ManifestSources {
    Plain(Vec<Source>),
    Encrypted(String),
}

/// A parsed source manifest.
#[derive(Debug, Clone)]
pub struct MegaCloudManifest {
    pub encrypted: bool,
    pub intro: IntroOutro,
    pub outro: IntroOutro,
    pub tracks: Vec<Track>,
    pub sources: ManifestSources,
}

/// The video id of an embed URL: what follows the last `/`, up to the
/// first `?`.
pub open spec fn spec_video_id(url: Seq<char>) -> Seq<char> {
    let tail = match spec_rfind(url, seq!['/']) {
        Some(i) => url.subrange(i + 1, url.len() as int),
        None => url,
    };
    match spec_find(tail, seq!['?']) {
        Some(j) => tail.subrange(0, j),
        None => tail,
    }
}

/// Extracts the video id out of an embed URL.
pub fn extract_video_id(video_url: &str) -> (r: String)
    ensures
        r@ == spec_video_id(video_url@),
{
    let chars = to_chars(video_url);
    let mut slash: Vec<char> = Vec::new();
    slash.push('/');
    assert(slash@ =~= seq!['/']);
    let n = chars.len();
    let tail: Vec<char> = match rfind_sub(&chars, &slash) {
        Some(i) => copy_range(&chars, i + 1, n),
        None => copy_range(&chars, 0, n),
    };
    assert(chars@.subrange(0, chars@.len() as int) =~= chars@);
    let mut qmark: Vec<char> = Vec::new();
    qmark.push('?');
    assert(qmark@ =~= seq!['?']);
    let id: Vec<char> = match find_sub(&tail, &qmark, 0) {
        Some(j) => {
            proof {
                crate::utils::lemma_find_spec(tail@, qmark@, 0);
            }
            copy_range(&tail, 0, j)
        },
        None => tail,
    };
    chars_to_string(&id)
}

/// The byte form of a direct-link video id: what follows the last
/// `/e/`, cut before `.html` when that is present.
pub open spec fn spec_encoded_video_id(url: Seq<char>) -> Seq<u8> {
    let tail = match spec_rfind(url, "/e/"@) {
        Some(i) => url.subrange(i + 3, url.len() as int),
        None => url,
    };
    let id = match spec_find(tail, ".html"@) {
        Some(j) => tail.subrange(0, j),
        None => tail,
    };
    encode_utf8(id)
}

/// Extracts the direct-link video id of an embed URL as bytes.
pub fn get_encoded_video_id(video_url: &str) -> (r: Vec<u8>)
    ensures
        r@ == spec_encoded_video_id(video_url@),
{
    let chars = to_chars(video_url);
    let sep = to_chars("/e/");
    proof {
        reveal_strlit("/e/");
    }
    let n = chars.len();
    let tail: Vec<char> = match rfind_sub(&chars, &sep) {
        Some(i) => copy_range(&chars, i + 3, n),
        None => copy_range(&chars, 0, n),
    };
    assert(chars@.subrange(0, chars@.len() as int) =~= chars@);
    let suffix = to_chars(".html");
    let id: Vec<char> = match find_sub(&tail, &suffix, 0) {
        Some(j) => {
            proof {
                crate::utils::lemma_find_spec(tail@, suffix@, 0);
            }
            copy_range(&tail, 0, j)
        },
        None => tail,
    };
    let s = chars_to_string(&id);
    s.as_str().as_bytes_vec()
}

/// The manifest endpoint URL for a video id.
pub fn sources_url(video_id: &str) -> (r: String)
    ensures
        r@ == "https://megacloud.tv/embed-2/ajax/e-1/getSources?id="@ + video_id@,
{
    String::from_str("https://megacloud.tv/embed-2/ajax/e-1/getSources?id=").concat(video_id)
}

/// Relies on `std::time::SystemTime::now`: the milliseconds since the
/// Unix epoch, for cache-busting; nothing is promised of a clock
/// reading. A clock before the epoch reads as zero.
#[verifier::external_body]
pub fn now_unix_millis() -> u64 {
    match std::time::SystemTime::now().duration_since(std::time::UNIX_EPOCH) {
        Ok(d) => {
            let ms = d.as_millis();
            if ms > u64::MAX as u128 {
                u64::MAX
            } else {
                ms as u64
            }
        },
        Err(_) => 0,
    }
}

/// The player script URL with a cache-busting timestamp, so the script
/// is fetched fresh per decryption attempt.
pub fn player_script_url(timestamp_millis: u64) -> (r: String)
    ensures
        r@ == "https://megacloud.tv/js/player/a/prod/e1-player.min.js?v="@ + spec_dec_digits(
            timestamp_millis as nat,
        ),
{
    let ts = u64_to_dec_string(timestamp_millis);
    String::from_str("https://megacloud.tv/js/player/a/prod/e1-player.min.js?v=").concat(
        ts.as_str(),
    )
}

/// The fetch URL of the alternative hosts for a hex-encoded id.
pub fn streamsb_url(is_alt: Option<bool>, hexed_id: &str) -> (r: String)
    ensures
        r@ == (if is_alt == Some(true) {
            "https://streamsss.net/sources16"@
        } else {
            "https://watchsb.com/sources50"@
        }) + "/"@ + hexed_id@,
{
    let host = if matches!(is_alt, Some(true)) {
        "https://streamsss.net/sources16"
    } else {
        "https://watchsb.com/sources50"
    };
    String::from_str(host).concat("/").concat(hexed_id)
}

/// The request payload for the alternative hosts: a fixed frame with
/// the hex-encoded id spliced in.
pub fn get_payload(hex: &str) -> (r: String)
    ensures
        r@ == "566d337678566f743674494a7c7c"@ + hex@
            + "7c7c346b6767586d6934774855537c7c73747265616d7362/6565417268755339773461447c7c346133383438333436313335376136323337373433383634376337633465366534393338373136643732373736343735373237613763376334363733353737303533366236333463353333363534366137633763373337343732363536313664373336327c7c6b586c3163614468645a47617c7c73747265616d7362"@,
{
    String::from_str("566d337678566f743674494a7c7c").concat(hex).concat(
        "7c7c346b6767586d6934774855537c7c73747265616d7362/6565417268755339773461447c7c346133383438333436313335376136323337373433383634376337633465366534393338373136643732373736343735373237613763376334363733353737303533366236333463353333363534366137633763373337343732363536313664373336327c7c6b586c3163614468645a47617c7c73747265616d7362",
    )
}

/// `s` from position `i` on with every single-quote removed.
pub open spec fn spec_remove_quotes(s: Seq<char>, i: int) -> Seq<char>
    decreases s.len() - i,
{
    if i < 0 || i >= s.len() {
        Seq::empty()
    } else {
        (if s[i] == '\'' {
            Seq::empty()
        } else {
            seq![s[i]]
        }) + spec_remove_quotes(s, i + 1)
    }
}

/// The direct-link URL a page encodes, when its inline script holds
/// the `robotlink` assignment `'<fragment>' + ('<fragment2>'`: the
/// text up to the last quote on that line splits at the quoted plus
/// into exactly two fragments, the second loses its three-character
/// prefix, and `https:` is put in front.
pub open spec fn spec_stream_tape_url(html: Seq<char>) -> Option<Seq<char>> {
    match spec_find(html, "robotlink').innerHTML = "@) {
        None => None,
        Some(mi) => {
            let rest = html.subrange(
                mi + "robotlink').innerHTML = "@.len(),
                html.len() as int,
            );
            let line = match spec_find(rest, seq!['\n']) {
                Some(e) => rest.subrange(0, e),
                None => rest,
            };
            match spec_rfind(line, seq!['\'']) {
                None => None,
                Some(q) => {
                    let capture = line.subrange(0, q);
                    match spec_find(capture, "' + ('"@) {
                        None => None,
                        Some(p) => {
                            let part0 = capture.subrange(0, p);
                            let part1 = capture.subrange(
                                p + "' + ('"@.len(),
                                capture.len() as int,
                            );
                            if spec_contains(part1, "' + ('"@) {
                                None
                            } else if part1.len() < 3 {
                                None
                            } else {
                                Some(
                                    "https:"@ + spec_remove_quotes(part0, 0) + part1.subrange(
                                        3,
                                        part1.len() as int,
                                    ),
                                )
                            }
                        },
                    }
                },
            }
        },
    }
}

fn remove_quotes(v: &Vec<char>) -> (r: Vec<char>)
    ensures
        r@ == spec_remove_quotes(v@, 0),
{
    let n = v.len();
    let mut out: Vec<char> = Vec::new();
    let mut i: usize = 0;
    while i < n
        invariant
            n == v@.len(),
            i <= n,
            spec_remove_quotes(v@, 0) == out@ + spec_remove_quotes(v@, i as int),
        decreases n - i,
    {
        if v[i] != '\'' {
            out.push(v[i]);
            proof {
                assert(out@ =~= out@.subrange(0, out@.len() - 1) + seq![v@[i as int]]);
            }
        }
        i = i + 1;
    }
    out
}

/// The direct-link server's unit: its extraction reads the split URL
/// fragments straight out of the fetched page.
pub struct StreamTapeServer;

impl StreamTapeServer {
    /// Reads the direct-link URL out of the fetched page; failure to
    /// match the pattern is terminal for this attempt, not retryable
    /// here.
    pub fn extract_from_html(html: &str) -> (r: Result<ServerExtractedInfo, AniRustError>)
        ensures
            match spec_stream_tape_url(html@) {
                Some(u) => r matches Ok(info) && (info
                    matches ServerExtractedInfo::StreamTape(d) && d.url@ == u && d.is_m3u8
                    == spec_contains(u, ".m3u8"@)),
                None => r == Err::<ServerExtractedInfo, AniRustError>(
                    AniRustError::FailedToFetchAfterRetries,
                ),
            },
    {
        let chars = to_chars(html);
        let marker = to_chars("robotlink').innerHTML = ");
        let mi = match find_sub(&chars, &marker, 0) {
            None => {
                return Err(AniRustError::FailedToFetchAfterRetries);
            },
            Some(mi) => mi,
        };
        proof {
            crate::utils::lemma_find_spec(chars@, marker@, 0);
        }
        let n = chars.len();
        let mlen = marker.len();
        let rest = copy_range(&chars, mi + mlen, n);
        let mut nl: Vec<char> = Vec::new();
        nl.push('\n');
        assert(nl@ =~= seq!['\n']);
        let line: Vec<char> = match find_sub(&rest, &nl, 0) {
            Some(e) => {
                proof {
                    crate::utils::lemma_find_spec(rest@, nl@, 0);
                }
                copy_range(&rest, 0, e)
            },
            None => rest,
        };
        let mut quote: Vec<char> = Vec::new();
        quote.push('\'');
        assert(quote@ =~= seq!['\'']);
        let q = match rfind_sub(&line, &quote) {
            None => {
                return Err(AniRustError::FailedToFetchAfterRetries);
            },
            Some(q) => q,
        };
        let capture = copy_range(&line, 0, q);
        let sep = to_chars("' + ('");
        let p = match find_sub(&capture, &sep, 0) {
            None => {
                return Err(AniRustError::FailedToFetchAfterRetries);
            },
            Some(p) => p,
        };
        proof {
            crate::utils::lemma_find_spec(capture@, sep@, 0);
        }
        let part0 = copy_range(&capture, 0, p);
        let part1 = copy_range(&capture, p + sep.len(), capture.len());
        if contains_sub(&part1, &sep) {
            return Err(AniRustError::FailedToFetchAfterRetries);
        }
        if part1.len() < 3 {
            return Err(AniRustError::FailedToFetchAfterRetries);
        }
        let fh = remove_quotes(&part0);
        let sh = copy_range(&part1, 3, part1.len());
        let url = String::from_str("https:").concat(chars_to_string(&fh).as_str()).concat(
            chars_to_string(&sh).as_str(),
        );
        let url_chars = to_chars(url.as_str());
        let m3u8 = to_chars(".m3u8");
        let is_m3u8 = contains_sub(&url_chars, &m3u8);
        Ok(
            ServerExtractedInfo::StreamTape(
                StreamTapeExtractedData { url, is_m3u8 },
            ),
        )
    }
}

/// The skip range two optional numeric fields denote: both present and
/// fitting 32 bits, or the zero range.
pub open spec fn spec_intro_outro(start: Option<u64>, end: Option<u64>) -> IntroOutro {
    match (start, end) {
        (Some(s), Some(e)) => if s <= u32::MAX && e <= u32::MAX {
            IntroOutro { start: s as u32, end: e as u32 }
        } else {
            IntroOutro { start: 0, end: 0 }
        },
        _ => IntroOutro { start: 0, end: 0 },
    }
}

/// Builds a skip range out of its two optional fields; a missing or
/// oversized field makes the intentional zero-range default.
pub fn intro_outro_from_fields(start: Option<u64>, end: Option<u64>) -> (r: IntroOutro)
    ensures
        r == spec_intro_outro(start, end),
{
    match (start, end) {
        (Some(s), Some(e)) => {
            if s <= u32::MAX as u64 && e <= u32::MAX as u64 {
                IntroOutro { start: s as u32, end: e as u32 }
            } else {
                IntroOutro { start: 0, end: 0 }
            }
        },
        _ => IntroOutro { start: 0, end: 0 },
    }
}

/// Builds a track out of its fields; `file` and `kind` are required,
/// the rest are optional.
pub fn track_from_fields(
    file: Option<String>,
    kind: Option<String>,
    label: Option<String>,
    default: Option<bool>,
) -> (r: Result<Track, AniRustError>)
    ensures
        match (file, kind) {
            (Some(f), Some(k)) => r matches Ok(t) && t.file == f && t.kind == k && t.label == label
                && t.default == default,
            _ => r is Err,
        },
{
    match (file, kind) {
        (Some(f), Some(k)) => Ok(Track { file: f, kind: k, label, default }),
        _ => Err(AniRustError::UnknownError(String::from_str("Failed to parse tracks"))),
    }
}

/// Builds a source out of its fields; both are required.
pub fn source_from_fields(file: Option<String>, src_type: Option<String>) -> (r: Result<
    Source,
    AniRustError,
>)
    ensures
        match (file, src_type) {
            (Some(f), Some(t)) => r matches Ok(s) && s.url == f && s.src_type == t,
            _ => r is Err,
        },
{
    match (file, src_type) {
        (Some(f), Some(t)) => Ok(Source { url: f, src_type: t }),
        _ => Err(AniRustError::UnknownError(String::from_str("Failed to parse sources"))),
    }
}

/// The manifest's `encrypted` flag: its named boolean member, false
/// when absent or not a boolean.
pub open spec fn spec_manifest_encrypted(body: Seq<char>) -> bool {
    match json_bool_field_of(body, "encrypted"@) {
        Some(b) => b,
        None => false,
    }
}

/// The manifest's `tracks` member is an array whose every record
/// carries `file` and `kind`.
pub open spec fn spec_tracks_ok(body: Seq<char>) -> bool {
    match json_array_len_of(body, "tracks"@) {
        Some(n) => forall|i: int|
            0 <= i < n ==> (#[trigger] json_record_string_of(body, "tracks"@, i, "file"@)) is Some
                && json_record_string_of(body, "tracks"@, i, "kind"@) is Some,
        None => false,
    }
}

/// The manifest's `sources` member is an array whose every record
/// carries `file` and `type`.
pub open spec fn spec_plain_sources_ok(body: Seq<char>) -> bool {
    match json_array_len_of(body, "sources"@) {
        Some(k) => forall|i: int|
            0 <= i < k ==> (#[trigger] json_record_string_of(body, "sources"@, i, "file"@)) is Some
                && json_record_string_of(body, "sources"@, i, "type"@) is Some,
        None => false,
    }
}

/// The manifest is well-formed: its tracks parse, and so do its plain
/// sources unless the encrypted flag routes them to the cipher.
pub open spec fn spec_manifest_ok(body: Seq<char>) -> bool {
    spec_tracks_ok(body) && (spec_manifest_encrypted(body) || spec_plain_sources_ok(body))
}

/// `t` is exactly the `i`-th track record of the body: required fields
/// equal, optional fields present iff the record has them.
pub open spec fn spec_track_matches(body: Seq<char>, i: int, t: Track) -> bool {
    &&& json_record_string_of(body, "tracks"@, i, "file"@) == Some(t.file@)
    &&& json_record_string_of(body, "tracks"@, i, "kind"@) == Some(t.kind@)
    &&& (match t.label {
        Some(l) => json_record_string_of(body, "tracks"@, i, "label"@) == Some(l@),
        None => json_record_string_of(body, "tracks"@, i, "label"@) is None,
    })
    &&& t.default == json_record_bool_of(body, "tracks"@, i, "default"@)
}

/// `s` is exactly the `i`-th plain source record of the body.
pub open spec fn spec_source_matches(body: Seq<char>, i: int, s: Source) -> bool {
    &&& json_record_string_of(body, "sources"@, i, "file"@) == Some(s.url@)
    &&& json_record_string_of(body, "sources"@, i, "type"@) == Some(s.src_type@)
}

/// Every field of a parsed manifest is pinned to the named dissection
/// of the body: the flag, both skip ranges, the tracks in order, and
/// the source list — the blob string when the flag routes to the
/// cipher, the structured records otherwise.
pub open spec fn spec_manifest_matches(body: Seq<char>, m: MegaCloudManifest) -> bool {
    &&& m.encrypted == spec_manifest_encrypted(body)
    &&& m.intro == spec_intro_outro(
        json_u64_path_of(body, "intro"@, "start"@),
        json_u64_path_of(body, "intro"@, "end"@),
    )
    &&& m.outro == spec_intro_outro(
        json_u64_path_of(body, "outro"@, "start"@),
        json_u64_path_of(body, "outro"@, "end"@),
    )
    &&& json_array_len_of(body, "tracks"@) == Some(m.tracks@.len() as int)
    &&& (forall|i: int| 0 <= i < m.tracks@.len() ==> spec_track_matches(body, i, #[trigger] m.tracks@[i]))
    &&& (if spec_manifest_encrypted(body) {
        m.sources matches ManifestSources::Encrypted(blob) && blob@ == (
        match json_string_field_of(body, "sources"@) {
            Some(s) => s,
            None => Seq::<char>::empty(),
        })
    } else {
        m.sources matches ManifestSources::Plain(list) && json_array_len_of(body, "sources"@)
            == Some(list@.len() as int) && (forall|i: int|
            0 <= i < list@.len() ==> spec_source_matches(body, i, #[trigger] list@[i]))
    })
}

/// The decrypted plaintext is a root array whose every record carries
/// `file` and `type`.
pub open spec fn spec_decrypted_sources_ok(text: Seq<char>) -> bool {
    match json_root_len_of(text) {
        Some(k) => forall|i: int|
            0 <= i < k ==> (#[trigger] json_root_string_of(text, i, "file"@)) is Some
                && json_root_string_of(text, i, "type"@) is Some,
        None => false,
    }
}

/// `s` is exactly the `i`-th record of the decrypted plaintext.
pub open spec fn spec_root_source_matches(text: Seq<char>, i: int, s: Source) -> bool {
    &&& json_root_string_of(text, i, "file"@) == Some(s.url@)
    &&& json_root_string_of(text, i, "type"@) == Some(s.src_type@)
}

/// The cipher-based server's unit: its extraction parses the manifest
/// and, when the manifest is encrypted, runs the script-driven
/// decryption.
pub struct MegaCloudServer;

impl MegaCloudServer {
    /// Parses the fetched source manifest. The manifest is well-formed —
    /// and `Ok` owed — exactly when its `tracks` member is an array whose
    /// every record carries `file` and `kind`, and, unless the
    /// `encrypted` flag is set, its `sources` member is an array whose
    /// every record carries `file` and `type`. Each field of the result
    /// is pinned to the named dissection of the body: a missing intro or
    /// outro is the intentional zero range, and an encrypted manifest
    /// whose source blob is not a string yields the empty blob.
    pub fn parse_manifest(body: &str) -> (r: Result<MegaCloudManifest, AniRustError>)
        ensures
            (r is Ok) == spec_manifest_ok(body@),
            r matches Ok(m) ==> spec_manifest_matches(body@, m),
    {
        let encrypted = match json_bool_field(body, "encrypted") {
            Some(b) => b,
            None => false,
        };
        let intro = intro_outro_from_fields(
            json_u64_path(body, "intro", "start"),
            json_u64_path(body, "intro", "end"),
        );
        let outro = intro_outro_from_fields(
            json_u64_path(body, "outro", "start"),
            json_u64_path(body, "outro", "end"),
        );
        let tracks_len = match json_array_len_field(body, "tracks") {
            None => {
                return Err(
                    AniRustError::UnknownError(String::from_str("Failed to parse tracks")),
                );
            },
            Some(n) => n,
        };
        let mut tracks: Vec<Track> = Vec::new();
        let mut ti: usize = 0;
        while ti < tracks_len
            invariant
                json_array_len_of(body@, "tracks"@) == Some(tracks_len as int),
                ti <= tracks_len,
                tracks@.len() == ti,
                forall|i: int| 0 <= i < ti ==> spec_track_matches(body@, i, #[trigger] tracks@[i]),
            decreases tracks_len - ti,
        {
            let file = json_record_string(body, "tracks", ti, "file");
            let kind = json_record_string(body, "tracks", ti, "kind");
            let label = json_record_string(body, "tracks", ti, "label");
            let default = json_record_bool(body, "tracks", ti, "default");
            match track_from_fields(file, kind, label, default) {
                Ok(t) => {
                    tracks.push(t);
                },
                Err(e) => {
                    assert(!spec_tracks_ok(body@)) by {
                        assert(json_record_string_of(body@, "tracks"@, ti as int, "file"@) is None
                            || json_record_string_of(
                            body@,
                            "tracks"@,
                            ti as int,
                            "kind"@,
                        ) is None);
                    }
                    return Err(e);
                },
            }
            ti = ti + 1;
        }
        assert(spec_tracks_ok(body@)) by {
            assert forall|i: int| 0 <= i < tracks_len as int implies (#[trigger] json_record_string_of(
                body@,
                "tracks"@,
                i,
                "file"@,
            )) is Some && json_record_string_of(body@, "tracks"@, i, "kind"@) is Some by {
                assert(spec_track_matches(body@, i, tracks@[i]));
            }
        }
        let sources: ManifestSources;
        if encrypted {
            let blob = match json_string_field(body, "sources") {
                Some(s) => s,
                None => String::new(),
            };
            sources = ManifestSources::Encrypted(blob);
        } else {
            let sources_len = match json_array_len_field(body, "sources") {
                None => {
                    return Err(
                        AniRustError::UnknownError(String::from_str("Failed to parse sources")),
                    );
                },
                Some(k) => k,
            };
            let mut list: Vec<Source> = Vec::new();
            let mut si: usize = 0;
            while si < sources_len
                invariant
                    !spec_manifest_encrypted(body@),
                    spec_tracks_ok(body@),
                    json_array_len_of(body@, "sources"@) == Some(sources_len as int),
                    si <= sources_len,
                    list@.len() == si,
                    forall|i: int|
                        0 <= i < si ==> spec_source_matches(body@, i, #[trigger] list@[i]),
                decreases sources_len - si,
            {
                let file = json_record_string(body, "sources", si, "file");
                let ty = json_record_string(body, "sources", si, "type");
                match source_from_fields(file, ty) {
                    Ok(sx) => {
                        list.push(sx);
                    },
                    Err(e) => {
                        assert(!spec_plain_sources_ok(body@)) by {
                            assert(json_record_string_of(
                                body@,
                                "sources"@,
                                si as int,
                                "file"@,
                            ) is None || json_record_string_of(
                                body@,
                                "sources"@,
                                si as int,
                                "type"@,
                            ) is None);
                        }
                        return Err(e);
                    },
                }
                si = si + 1;
            }
            assert(spec_plain_sources_ok(body@)) by {
                assert forall|i: int|
                    0 <= i < sources_len as int implies (#[trigger] json_record_string_of(
                    body@,
                    "sources"@,
                    i,
                    "file"@,
                )) is Some && json_record_string_of(body@, "sources"@, i, "type"@) is Some by {
                    assert(spec_source_matches(body@, i, list@[i]));
                }
            }
            sources = ManifestSources::Plain(list);
        }
        Ok(MegaCloudManifest { encrypted, intro, outro, tracks, sources })
    }

    /// Runs the script-driven decryption of an encrypted source blob:
    /// the extractor's pairs split the blob into secret and ciphertext,
    /// and the cipher engine decrypts the remainder under the secret.
    /// No pairs at all means the extractor is stale relative to the
    /// current obfuscation, its own diagnosable error.
    pub fn decrypt_sources_text(encrypted_string: &str, script: &str) -> (r: Result<
        String,
        AniRustError,
    >)
        ensures
            ({
                let pairs = spec_extract_pairs(script@);
                if pairs.len() == 0 {
                    r == Err::<String, AniRustError>(AniRustError::ObfuscationStale)
                } else {
                    let sec = spec_secret_of(encrypted_string@, pairs);
                    let rem = spec_remaining_of(encrypted_string@, pairs);
                    match spec_decrypt_salted(rem, encode_utf8(sec)) {
                        Some(t) => r matches Ok(s) && s@ == t,
                        None => r == Err::<String, AniRustError>(AniRustError::DecryptionFailed),
                    }
                }
            }),
    {
        let variables = match extract_variables(script) {
            Ok(vs) => vs,
            Err(e) => {
                return Err(e);
            },
        };
        if variables.len() == 0 {
            return Err(AniRustError::ObfuscationStale);
        }
        let (secret, encrypted_source) = get_secret(encrypted_string, &variables);
        decrypt(encrypted_source.as_str(), secret.as_str(), None)
    }
}

/// Parses the decrypted plaintext: a JSON array of `{file, type}`
/// records, `Ok` owed exactly when every record carries both.
pub fn parse_decrypted_sources(plaintext: &str) -> (r: Result<Vec<Source>, AniRustError>)
    ensures
        (r is Ok) == spec_decrypted_sources_ok(plaintext@),
        r matches Ok(list) ==> json_root_len_of(plaintext@) == Some(list@.len() as int) && (forall|
            i: int,
        | 0 <= i < list@.len() ==> spec_root_source_matches(plaintext@, i, #[trigger] list@[i])),
{
    let len = match json_root_len(plaintext) {
        None => {
            return Err(AniRustError::UnknownError(String::from_str("Failed to parse sources")));
        },
        Some(k) => k,
    };
    let mut list: Vec<Source> = Vec::new();
    let mut i: usize = 0;
    while i < len
        invariant
            json_root_len_of(plaintext@) == Some(len as int),
            i <= len,
            list@.len() == i,
            forall|j: int| 0 <= j < i ==> spec_root_source_matches(plaintext@, j, #[trigger] list@[j]),
        decreases len - i,
    {
        let file = json_root_string(plaintext, i, "file");
        let ty = json_root_string(plaintext, i, "type");
        match source_from_fields(file, ty) {
            Ok(sx) => {
                list.push(sx);
            },
            Err(e) => {
                assert(!spec_decrypted_sources_ok(plaintext@)) by {
                    assert(json_root_string_of(plaintext@, i as int, "file"@) is None
                        || json_root_string_of(plaintext@, i as int, "type"@) is None);
                }
                return Err(e);
            },
        }
        i = i + 1;
    }
    assert(spec_decrypted_sources_ok(plaintext@)) by {
        assert forall|j: int| 0 <= j < len as int implies (#[trigger] json_root_string_of(
            plaintext@,
            j,
            "file"@,
        )) is Some && json_root_string_of(plaintext@, j, "type"@) is Some by {
            assert(spec_root_source_matches(plaintext@, j, list@[j]));
        }
    }
    Ok(list)
}

} // verus!
